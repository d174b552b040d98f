//! The closed set of integration kinds and the module names that select them.

use crate::text::same_text;
use vstd::prelude::*;

verus! {

/// One backend implementation that a configuration entry can select.
#[derive(Clone, Copy, Debug, PartialEq, Eq, Structural)]
pub enum IntegrationKind {
    Circadian,
    Random,
    Dummy,
    Lifx,
    Hue,
    Neato,
    WakeOnLan,
}

impl IntegrationKind {
    /// The module name under which this kind is configured.
    pub open spec fn spec_module_name(self) -> Seq<char> {
        match self {
            IntegrationKind::Circadian => "circadian"@,
            IntegrationKind::Random => "random"@,
            IntegrationKind::Dummy => "dummy"@,
            IntegrationKind::Lifx => "lifx"@,
            IntegrationKind::Hue => "hue"@,
            IntegrationKind::Neato => "neato"@,
            IntegrationKind::WakeOnLan => "wake_on_lan"@,
        }
    }

    /// The kind that `name` selects, if it selects one.
    pub open spec fn spec_from_module_name(name: Seq<char>) -> Option<IntegrationKind> {
        if name == "circadian"@ {
            Some(IntegrationKind::Circadian)
        } else if name == "random"@ {
            Some(IntegrationKind::Random)
        } else if name == "dummy"@ {
            Some(IntegrationKind::Dummy)
        } else if name == "lifx"@ {
            Some(IntegrationKind::Lifx)
        } else if name == "hue"@ {
            Some(IntegrationKind::Hue)
        } else if name == "neato"@ {
            Some(IntegrationKind::Neato)
        } else if name == "wake_on_lan"@ {
            Some(IntegrationKind::WakeOnLan)
        } else {
            None
        }
    }

    /// Whether `name` selects a kind.
    pub open spec fn is_known(name: Seq<char>) -> bool {
        Self::spec_from_module_name(name) is Some
    }

    pub fn module_name(self) -> (name: &'static str)
        ensures
            name@ == self.spec_module_name(),
    {
        match self {
            IntegrationKind::Circadian => "circadian",
            IntegrationKind::Random => "random",
            IntegrationKind::Dummy => "dummy",
            IntegrationKind::Lifx => "lifx",
            IntegrationKind::Hue => "hue",
            IntegrationKind::Neato => "neato",
            IntegrationKind::WakeOnLan => "wake_on_lan",
        }
    }

    pub fn from_module_name(name: &str) -> (kind: Option<IntegrationKind>)
        ensures
            kind == Self::spec_from_module_name(name@),
    {
        if same_text(name, "circadian") {
            Some(IntegrationKind::Circadian)
        } else if same_text(name, "random") {
            Some(IntegrationKind::Random)
        } else if same_text(name, "dummy") {
            Some(IntegrationKind::Dummy)
        } else if same_text(name, "lifx") {
            Some(IntegrationKind::Lifx)
        } else if same_text(name, "hue") {
            Some(IntegrationKind::Hue)
        } else if same_text(name, "neato") {
            Some(IntegrationKind::Neato)
        } else if same_text(name, "wake_on_lan") {
            Some(IntegrationKind::WakeOnLan)
        } else {
            None
        }
    }

    /// Every kind is selected by its own module name, and a name selects at
    /// most the kind that carries it.
    pub proof fn lemma_module_name_round_trip(kind: IntegrationKind, name: Seq<char>)
        ensures
            Self::spec_from_module_name(kind.spec_module_name()) == Some(kind),
            Self::spec_from_module_name(name) == Some(kind) <==> name == kind.spec_module_name(),
    {
        reveal_strlit("circadian");
        reveal_strlit("random");
        reveal_strlit("dummy");
        reveal_strlit("lifx");
        reveal_strlit("hue");
        reveal_strlit("neato");
        reveal_strlit("wake_on_lan");
        assert("circadian"@.len() == 9);
        assert("random"@.len() == 6);
        assert("dummy"@.len() == 5);
        assert("lifx"@.len() == 4);
        assert("hue"@.len() == 3);
        assert("neato"@.len() == 5);
        assert("wake_on_lan"@.len() == 11);
        assert("dummy"@[0] == 'd');
        assert("neato"@[0] == 'n');
    }
}

} // verus!
