//! The table of handlers, keyed by integration identifier.

use crate::integration::IntegrationId;
use vstd::prelude::*;

verus! {

/// One handler under its identifier.
pub struct Entry<H> {
    pub id: IntegrationId,
    pub handler: H,
}

/// The identifiers of `entries`, in the same order, each as its text.
pub open spec fn entry_ids<H>(entries: Seq<Entry<H>>) -> Seq<Seq<char>> {
    Seq::new(entries.len(), |i: int| entries[i].id@)
}

/// The handlers of `entries`, in the same order.
pub open spec fn entry_handlers<H>(entries: Seq<Entry<H>>) -> Seq<H> {
    Seq::new(entries.len(), |i: int| entries[i].handler)
}

/// The order after `id` has been inserted: unchanged where `id` stands in it,
/// else longer by `id`.
pub open spec fn order_with(order: Seq<Seq<char>>, id: Seq<char>) -> Seq<Seq<char>> {
    if order.contains(id) {
        order
    } else {
        order.push(id)
    }
}

/// The handlers after `handler` has been inserted at `id`: `handler` stands
/// where the handler of `id` stood, or at the end where there was none.
pub open spec fn handlers_with<H>(
    order: Seq<Seq<char>>,
    handlers: Seq<H>,
    id: Seq<char>,
    handler: H,
) -> Seq<H> {
    if order.contains(id) {
        handlers.update(order.index_of(id), handler)
    } else {
        handlers.push(handler)
    }
}

/// The mapping that `order` and `handlers` stand for: each identifier of
/// `order` to the handler at its place.
pub open spec fn table_map<H>(order: Seq<Seq<char>>, handlers: Seq<H>) -> Map<Seq<char>, H> {
    Map::new(|id: Seq<char>| order.contains(id), |id: Seq<char>| handlers[order.index_of(id)])
}

/// Inserting into the order and the handlers is inserting into the mapping
/// that they stand for, and keeps the table well formed.
pub proof fn lemma_insert_is_map_insert<H>(
    order: Seq<Seq<char>>,
    handlers: Seq<H>,
    id: Seq<char>,
    handler: H,
)
    requires
        order.len() == handlers.len(),
        order.no_duplicates(),
    ensures
        order_with(order, id).len() == handlers_with(order, handlers, id, handler).len(),
        order_with(order, id).no_duplicates(),
        table_map(order_with(order, id), handlers_with(order, handlers, id, handler))
            == table_map(order, handlers).insert(id, handler),
{
    let order2 = order_with(order, id);
    let handlers2 = handlers_with(order, handlers, id, handler);
    assert forall|key: Seq<char>| order2.contains(key) <==> (key == id || order.contains(key)) by {
        if order.contains(id) {
        } else {
            if order.contains(key) {
                let i = order.index_of(key);
                assert(order2[i] == key);
            }
            assert(order2[order.len() as int] == id);
        }
    }
    assert forall|key: Seq<char>| order2.contains(key) implies handlers2[order2.index_of(key)] == (
    if key == id {
        handler
    } else {
        handlers[order.index_of(key)]
    }) by {
        let i = order2.index_of(key);
        if order.contains(id) {
            if key != id {
                assert(order.index_of(key) == i);
            }
        } else {
            if key == id {
                assert(order2[order.len() as int] == id);
                assert(i == order.len());
            } else {
                assert(i < order.len());
                assert(order[i] == key);
                assert(order.index_of(key) == i);
            }
        }
    }
    assert(table_map(order2, handlers2) =~= table_map(order, handlers).insert(id, handler));
}

/// A mapping from integration identifier to handler. Every identifier occurs at
/// most once. The entries keep the order in which their identifiers were first
/// inserted, and the whole-registry passes visit them in that order.
pub struct IntegrationsTree<H> {
    entries: Vec<Entry<H>>,
}

impl<H> View for IntegrationsTree<H> {
    type V = Map<Seq<char>, H>;

    open spec fn view(&self) -> Map<Seq<char>, H> {
        table_map(self.order(), self.handlers())
    }
}

impl<H> IntegrationsTree<H> {
    /// The identifiers of the table, in the order in which the passes visit
    /// them.
    pub closed spec fn order(&self) -> Seq<Seq<char>> {
        entry_ids(self.entries@)
    }

    /// The handlers of the table, each at the place of its identifier in
    /// `order`.
    pub closed spec fn handlers(&self) -> Seq<H> {
        entry_handlers(self.entries@)
    }

    /// The table's invariant: one handler for each identifier, and no
    /// identifier twice.
    #[verifier::type_invariant]
    pub closed spec fn wf(&self) -> bool {
        entry_ids(self.entries@).no_duplicates()
    }

    /// In a well-formed table the order lists exactly the keys, each once, and
    /// each key's handler stands at the key's place.
    pub proof fn lemma_order_lists_keys(&self)
        requires
            self.wf(),
        ensures
            self.order().no_duplicates(),
            self.order().len() == self.handlers().len(),
            self@.dom() == self.order().to_set(),
            self@.dom().finite(),
            self@.len() == self.order().len(),
            forall|i: int|
                0 <= i < self.order().len() ==> self@.contains_key(#[trigger] self.order()[i])
                    && self@[self.order()[i]] == self.handlers()[i],
    {
        assert(self@.dom() =~= self.order().to_set());
        self.order().unique_seq_to_set();
        assert forall|i: int| 0 <= i < self.order().len() implies self@.contains_key(
            #[trigger] self.order()[i],
        ) && self@[self.order()[i]] == self.handlers()[i] by {
            let id = self.order()[i];
            assert(self.order().contains(id));
            assert(self.order().index_of(id) == i);
        }
    }

    pub fn new() -> (tree: IntegrationsTree<H>)
        ensures
            tree.wf(),
            tree.order() == Seq::<Seq<char>>::empty(),
            tree.handlers() == Seq::<H>::empty(),
            tree@ == Map::<Seq<char>, H>::empty(),
    {
        let tree = IntegrationsTree { entries: Vec::new() };
        proof {
            assert(tree.order() =~= Seq::<Seq<char>>::empty());
            assert(tree.handlers() =~= Seq::<H>::empty());
            assert(tree@ =~= Map::<Seq<char>, H>::empty());
        }
        tree
    }

    pub fn len(&self) -> (n: usize)
        ensures
            self.wf(),
            n == self.order().len(),
            n == self@.len(),
    {
        proof {
            use_type_invariant(self);
            self.lemma_order_lists_keys();
        }
        self.entries.len()
    }

    /// Where in the order `id` stands, if the table holds it.
    pub fn position(&self, id: &IntegrationId) -> (found: Option<usize>)
        ensures
            self.wf(),
            found is Some <==> self.order().contains(id@),
            found matches Some(i) ==> i == self.order().index_of(id@) && i < self.order().len(),
    {
        proof {
            use_type_invariant(self);
        }
        let mut i: usize = 0;
        while i < self.entries.len()
            invariant
                i <= self.entries@.len(),
                forall|j: int| 0 <= j < i ==> self.order()[j] != id@,
                self.order() == entry_ids(self.entries@),
                self.order().no_duplicates(),
            decreases self.entries@.len() - i,
        {
            if self.entries[i].id.same_as(id) {
                assert(self.order()[i as int] == id@);
                return Some(i);
            }
            i += 1;
        }
        None
    }

    /// Whether a handler stands at `id`.
    pub fn contains_key(&self, id: &IntegrationId) -> (held: bool)
        ensures
            held == self@.contains_key(id@),
    {
        self.position(id).is_some()
    }

    /// The handler at `id`, if one stands there.
    pub fn get(&self, id: &IntegrationId) -> (handler: Option<&H>)
        ensures
            self.wf(),
            handler is Some <==> self@.contains_key(id@),
            handler matches Some(h) ==> *h == self@[id@],
    {
        match self.position(id) {
            Some(i) => Some(&self.entries[i].handler),
            None => None,
        }
    }

    /// Takes the entries out and leaves the table empty.
    pub(crate) fn take_entries(&mut self) -> (entries: Vec<Entry<H>>)
        ensures
            entry_ids(entries@) == old(self).order(),
            entry_handlers(entries@) == old(self).handlers(),
            entry_ids(entries@).no_duplicates(),
            final(self).order() == Seq::<Seq<char>>::empty(),
            final(self).handlers() == Seq::<H>::empty(),
    {
        proof {
            use_type_invariant(&*self);
        }
        let mut entries: Vec<Entry<H>> = Vec::new();
        assert(entry_ids(entries@) =~= Seq::<Seq<char>>::empty());
        std::mem::swap(&mut self.entries, &mut entries);
        proof {
            assert(final(self).order() =~= Seq::<Seq<char>>::empty());
            assert(final(self).handlers() =~= Seq::<H>::empty());
        }
        entries
    }

    /// Makes `entries` the entries of the table.
    pub(crate) fn put_entries(&mut self, entries: Vec<Entry<H>>)
        requires
            entry_ids(entries@).no_duplicates(),
        ensures
            final(self).wf(),
            final(self).order() == entry_ids(entries@),
            final(self).handlers() == entry_handlers(entries@),
    {
        self.entries = entries;
    }

    /// Puts `handler` at `id`. A handler that stood there before is replaced
    /// where it stood and handed back; a new identifier goes to the end of the
    /// order.
    pub fn insert(&mut self, id: IntegrationId, handler: H) -> (replaced: Option<H>)
        ensures
            final(self).wf(),
            final(self).order() == order_with(old(self).order(), id@),
            final(self).handlers() == handlers_with(
                old(self).order(),
                old(self).handlers(),
                id@,
                handler,
            ),
            final(self)@ == old(self)@.insert(id@, handler),
            replaced == (if old(self)@.contains_key(id@) {
                Some(old(self)@[id@])
            } else {
                None
            }),
    {
        let found = self.position(&id);
        let mut entries = self.take_entries();
        let ghost id_text = id@;
        let mut incoming = handler;
        let replaced = match found {
            Some(i) => {
                std::mem::swap(&mut entries[i].handler, &mut incoming);
                Some(incoming)
            },
            None => {
                entries.push(Entry { id, handler: incoming });
                None
            },
        };
        proof {
            assert(entry_ids(entries@) =~= order_with(old(self).order(), id_text));
            assert(entry_handlers(entries@) =~= handlers_with(
                old(self).order(),
                old(self).handlers(),
                id_text,
                handler,
            ));
        }
        self.put_entries(entries);
        proof {
            lemma_insert_is_map_insert(
                old(self).order(),
                old(self).handlers(),
                id_text,
                handler,
            );
            assert(final(self)@ =~= old(self)@.insert(id_text, handler));
        }
        replaced
    }
}

} // verus!
