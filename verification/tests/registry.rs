use homectl_core::{
    load_integration, Device, Integration, IntegrationId, IntegrationKind, Integrations,
    IntegrationsError,
};
use std::cell::RefCell;
use std::rc::Rc;

/// The event sink of the handlers below: a log that every handler writes each
/// call to, so that a test sees which handler was called, and in what order.
#[derive(Clone, Debug, Default)]
struct Log {
    lines: Rc<RefCell<Vec<String>>>,
}

impl Log {
    fn push(&self, line: String) {
        self.lines.borrow_mut().push(line);
    }

    fn lines(&self) -> Vec<String> {
        self.lines.borrow().clone()
    }
}

/// A handler that counts its calls. Its configuration is one word that says
/// where it fails, if anywhere.
#[derive(Debug)]
struct Recorder {
    kind: IntegrationKind,
    id: String,
    mode: String,
    log: Log,
    registered: u32,
    started: u32,
    states: Vec<u32>,
    actions: Vec<String>,
}

impl Integration for Recorder {
    type EventSink = Log;
    type DeviceFields = u32;
    type ActionPayload = String;
    type Error = String;

    fn new(
        kind: IntegrationKind,
        id: &IntegrationId,
        config: &config::Value,
        event_tx: Log,
    ) -> Result<Self, String> {
        let mode = config.clone().into_string().unwrap_or_default();
        event_tx.push(format!("new:{}", id.as_str()));
        if mode == "refuse" {
            return Err(format!("{} refuses its configuration", id.as_str()));
        }
        Ok(Recorder {
            kind,
            id: id.as_str().to_string(),
            mode,
            log: event_tx,
            registered: 0,
            started: 0,
            states: Vec::new(),
            actions: Vec::new(),
        })
    }

    fn register(&mut self) -> Result<(), String> {
        self.log.push(format!("register:{}", self.id));
        self.registered += 1;
        if self.mode == "fail_register" {
            return Err(format!("{} cannot register", self.id));
        }
        Ok(())
    }

    fn start(&mut self) -> Result<(), String> {
        self.log.push(format!("start:{}", self.id));
        self.started += 1;
        if self.mode == "fail_start" {
            return Err(format!("{} cannot start", self.id));
        }
        Ok(())
    }

    fn set_integration_device_state(&mut self, device: &Device<u32>) -> Result<(), String> {
        self.log.push(format!("state:{}", self.id));
        self.states.push(device.fields);
        if self.mode == "fail_state" {
            return Err(format!("{} is unreachable", self.id));
        }
        Ok(())
    }

    fn run_integration_action(&mut self, payload: &String) -> Result<(), String> {
        self.log.push(format!("action:{}", self.id));
        self.actions.push(payload.clone());
        if self.mode == "fail_action" {
            return Err(format!("{} rejects {}", self.id, payload));
        }
        Ok(())
    }
}

fn word(text: &str) -> config::Value {
    config::Value::new(None, config::ValueKind::String(text.to_string()))
}

fn nothing() -> config::Value {
    config::Value::new(None, config::ValueKind::Nil)
}

fn load(
    registry: &mut Integrations<Recorder>,
    module_name: &str,
    id: &str,
    config: &config::Value,
) -> Result<(), IntegrationsError<String>> {
    registry.load_integration(&module_name.to_string(), &IntegrationId::new(id), config)
}

fn handler<'a>(registry: &'a Integrations<Recorder>, id: &str) -> &'a Recorder {
    registry.integrations.get(&IntegrationId::new(id)).expect("a handler stands at the id")
}

fn device(id: &str, fields: u32) -> Device<u32> {
    Device { integration_id: IntegrationId::new(id), fields }
}

#[test]
fn new_registry_is_empty() {
    let log = Log::default();
    let registry: Integrations<Recorder> = Integrations::new(log.clone());
    assert_eq!(registry.integrations.len(), 0);
    assert!(!registry.integrations.contains_key(&IntegrationId::new("d1")));
    assert!(log.lines().is_empty());
}

#[test]
fn dummy_goes_through_its_whole_lifecycle() {
    let log = Log::default();
    let mut registry: Integrations<Recorder> = Integrations::new(log.clone());
    assert_eq!(load(&mut registry, "dummy", "d1", &nothing()), Ok(()));
    assert_eq!(registry.run_register_pass(), Ok(()));
    assert_eq!(registry.run_start_pass(), Ok(()));
    assert_eq!(registry.set_integration_device_state(&device("d1", 42)), Ok(()));

    let d1 = handler(&registry, "d1");
    assert_eq!(d1.kind, IntegrationKind::Dummy);
    assert_eq!(d1.registered, 1);
    assert_eq!(d1.started, 1);
    assert_eq!(d1.states, vec![42]);
    assert!(d1.actions.is_empty());
    assert_eq!(log.lines(), vec!["new:d1", "register:d1", "start:d1", "state:d1"]);
}

#[test]
fn action_on_empty_registry_is_not_found() {
    let log = Log::default();
    let mut registry: Integrations<Recorder> = Integrations::new(log.clone());
    let outcome =
        registry.run_integration_action(&IntegrationId::new("missing"), &"clean".to_string());
    assert_eq!(
        outcome,
        Err(IntegrationsError::NotFound { integration_id: IntegrationId::new("missing") })
    );
    let message = outcome.unwrap_err().message();
    assert_eq!(message, Some("Expected to find integration by id missing".to_string()));
    assert_eq!(registry.integrations.len(), 0);
    assert!(log.lines().is_empty());
}

#[test]
fn second_load_under_one_id_wins() {
    let log = Log::default();
    let mut registry: Integrations<Recorder> = Integrations::new(log.clone());
    assert_eq!(load(&mut registry, "hue", "x", &word("first")), Ok(()));
    assert_eq!(load(&mut registry, "lifx", "x", &word("second")), Ok(()));
    assert_eq!(registry.integrations.len(), 1);
    let x = handler(&registry, "x");
    assert_eq!(x.kind, IntegrationKind::Lifx);
    assert_eq!(x.mode, "second");
    assert_eq!(x.registered, 0);
}

#[test]
fn second_load_keeps_the_place_of_the_first() {
    let log = Log::default();
    let mut registry: Integrations<Recorder> = Integrations::new(log.clone());
    assert_eq!(load(&mut registry, "hue", "a", &nothing()), Ok(()));
    assert_eq!(load(&mut registry, "neato", "b", &nothing()), Ok(()));
    assert_eq!(load(&mut registry, "random", "a", &nothing()), Ok(()));
    assert_eq!(registry.integrations.len(), 2);
    assert_eq!(registry.integrations.position(&IntegrationId::new("a")), Some(0));
    assert_eq!(registry.integrations.position(&IntegrationId::new("b")), Some(1));
    assert_eq!(handler(&registry, "a").kind, IntegrationKind::Random);
    assert_eq!(handler(&registry, "b").kind, IntegrationKind::Neato);
    assert_eq!(registry.run_register_pass(), Ok(()));
    assert_eq!(
        log.lines(),
        vec!["new:a", "new:b", "new:a", "register:a", "register:b"]
    );
}

#[test]
fn every_known_module_name_loads_its_kind() {
    let names = [
        ("circadian", IntegrationKind::Circadian),
        ("random", IntegrationKind::Random),
        ("dummy", IntegrationKind::Dummy),
        ("lifx", IntegrationKind::Lifx),
        ("hue", IntegrationKind::Hue),
        ("neato", IntegrationKind::Neato),
        ("wake_on_lan", IntegrationKind::WakeOnLan),
    ];
    let log = Log::default();
    let mut registry: Integrations<Recorder> = Integrations::new(log.clone());
    let mut loaded = 0;
    for (name, kind) in names {
        assert_eq!(load(&mut registry, name, name, &nothing()), Ok(()));
        loaded += 1;
        assert_eq!(registry.integrations.len(), loaded);
        assert_eq!(handler(&registry, name).kind, kind);
        assert_eq!(handler(&registry, name).id, name);
    }
    assert_eq!(registry.integrations.len(), 7);
}

#[test]
fn unknown_module_name_is_refused_and_changes_nothing() {
    let log = Log::default();
    let mut registry: Integrations<Recorder> = Integrations::new(log.clone());
    assert_eq!(load(&mut registry, "dummy", "d1", &nothing()), Ok(()));
    let outcome = load(&mut registry, "bogus", "d2", &nothing());
    assert_eq!(
        outcome,
        Err(IntegrationsError::UnknownModule { module_name: "bogus".to_string() })
    );
    assert_eq!(outcome.unwrap_err().message(), Some("Unknown module name bogus!".to_string()));
    assert_eq!(registry.integrations.len(), 1);
    assert!(!registry.integrations.contains_key(&IntegrationId::new("d2")));
    assert_eq!(log.lines(), vec!["new:d1"]);
}

#[test]
fn unknown_module_name_does_not_replace_an_entry() {
    let log = Log::default();
    let mut registry: Integrations<Recorder> = Integrations::new(log.clone());
    assert_eq!(load(&mut registry, "dummy", "d1", &word("kept")), Ok(()));
    assert!(matches!(
        load(&mut registry, "Dummy", "d1", &word("other")),
        Err(IntegrationsError::UnknownModule { .. })
    ));
    assert_eq!(registry.integrations.len(), 1);
    assert_eq!(handler(&registry, "d1").mode, "kept");
}

#[test]
fn refused_configuration_is_handed_on_and_changes_nothing() {
    let log = Log::default();
    let mut registry: Integrations<Recorder> = Integrations::new(log.clone());
    assert_eq!(load(&mut registry, "dummy", "d1", &word("kept")), Ok(()));
    let outcome = load(&mut registry, "hue", "d1", &word("refuse"));
    assert_eq!(
        outcome,
        Err(IntegrationsError::Configuration("d1 refuses its configuration".to_string()))
    );
    assert_eq!(outcome.unwrap_err().message(), None);
    assert_eq!(registry.integrations.len(), 1);
    assert_eq!(handler(&registry, "d1").kind, IntegrationKind::Dummy);
    assert_eq!(handler(&registry, "d1").mode, "kept");
}

#[test]
fn factory_builds_the_handler_of_the_named_kind() {
    let log = Log::default();
    let built: Result<Recorder, IntegrationsError<String>> = load_integration(
        &"wake_on_lan".to_string(),
        &IntegrationId::new("w"),
        &word("quiet"),
        log.clone(),
    );
    let built = built.expect("a known kind with a good configuration");
    assert_eq!(built.kind, IntegrationKind::WakeOnLan);
    assert_eq!(built.id, "w");
    assert_eq!(built.mode, "quiet");
    assert_eq!(log.lines(), vec!["new:w"]);
}

#[test]
fn factory_refuses_an_unknown_name_without_building() {
    let log = Log::default();
    let built: Result<Recorder, IntegrationsError<String>> =
        load_integration(&"".to_string(), &IntegrationId::new("w"), &nothing(), log.clone());
    assert_eq!(
        built.unwrap_err(),
        IntegrationsError::UnknownModule { module_name: "".to_string() }
    );
    assert!(log.lines().is_empty());
}

#[test]
fn factory_hands_on_the_constructors_error() {
    let log = Log::default();
    let built: Result<Recorder, IntegrationsError<String>> = load_integration(
        &"neato".to_string(),
        &IntegrationId::new("n"),
        &word("refuse"),
        log.clone(),
    );
    assert_eq!(
        built.unwrap_err(),
        IntegrationsError::Configuration("n refuses its configuration".to_string())
    );
}

#[test]
fn state_for_a_missing_id_is_not_found_and_calls_no_handler() {
    let log = Log::default();
    let mut registry: Integrations<Recorder> = Integrations::new(log.clone());
    assert_eq!(load(&mut registry, "dummy", "d1", &nothing()), Ok(()));
    let outcome = registry.set_integration_device_state(&device("d2", 7));
    assert_eq!(
        outcome,
        Err(IntegrationsError::NotFound { integration_id: IntegrationId::new("d2") })
    );
    assert!(handler(&registry, "d1").states.is_empty());
    assert_eq!(log.lines(), vec!["new:d1"]);
}

#[test]
fn action_for_a_missing_id_is_not_found_and_calls_no_handler() {
    let log = Log::default();
    let mut registry: Integrations<Recorder> = Integrations::new(log.clone());
    assert_eq!(load(&mut registry, "neato", "robot", &nothing()), Ok(()));
    let outcome =
        registry.run_integration_action(&IntegrationId::new("robo"), &"clean".to_string());
    assert_eq!(
        outcome,
        Err(IntegrationsError::NotFound { integration_id: IntegrationId::new("robo") })
    );
    assert!(handler(&registry, "robot").actions.is_empty());
    assert_eq!(log.lines(), vec!["new:robot"]);
}

#[test]
fn state_reaches_the_owning_handler_only() {
    let log = Log::default();
    let mut registry: Integrations<Recorder> = Integrations::new(log.clone());
    assert_eq!(load(&mut registry, "hue", "a", &nothing()), Ok(()));
    assert_eq!(load(&mut registry, "lifx", "b", &nothing()), Ok(()));
    assert_eq!(registry.set_integration_device_state(&device("b", 5)), Ok(()));
    assert_eq!(registry.set_integration_device_state(&device("b", 6)), Ok(()));
    assert!(handler(&registry, "a").states.is_empty());
    assert_eq!(handler(&registry, "b").states, vec![5, 6]);
    assert_eq!(log.lines(), vec!["new:a", "new:b", "state:b", "state:b"]);
}

#[test]
fn action_reaches_the_named_handler_only() {
    let log = Log::default();
    let mut registry: Integrations<Recorder> = Integrations::new(log.clone());
    assert_eq!(load(&mut registry, "neato", "robot", &nothing()), Ok(()));
    assert_eq!(load(&mut registry, "hue", "lamp", &nothing()), Ok(()));
    assert_eq!(
        registry.run_integration_action(&IntegrationId::new("robot"), &"clean".to_string()),
        Ok(())
    );
    assert_eq!(handler(&registry, "robot").actions, vec!["clean".to_string()]);
    assert!(handler(&registry, "lamp").actions.is_empty());
}

#[test]
fn handler_failure_in_a_state_push_is_handed_on() {
    let log = Log::default();
    let mut registry: Integrations<Recorder> = Integrations::new(log.clone());
    assert_eq!(load(&mut registry, "hue", "a", &word("fail_state")), Ok(()));
    let outcome = registry.set_integration_device_state(&device("a", 1));
    assert_eq!(outcome, Err(IntegrationsError::Backend("a is unreachable".to_string())));
    assert_eq!(outcome.unwrap_err().message(), None);
    assert_eq!(handler(&registry, "a").states, vec![1]);
}

#[test]
fn handler_failure_in_an_action_is_handed_on() {
    let log = Log::default();
    let mut registry: Integrations<Recorder> = Integrations::new(log.clone());
    assert_eq!(load(&mut registry, "neato", "r", &word("fail_action")), Ok(()));
    let outcome = registry.run_integration_action(&IntegrationId::new("r"), &"dock".to_string());
    assert_eq!(outcome, Err(IntegrationsError::Backend("r rejects dock".to_string())));
    assert_eq!(handler(&registry, "r").actions, vec!["dock".to_string()]);
}

#[test]
fn register_pass_stops_at_the_first_failure() {
    let log = Log::default();
    let mut registry: Integrations<Recorder> = Integrations::new(log.clone());
    assert_eq!(load(&mut registry, "hue", "a", &nothing()), Ok(()));
    assert_eq!(load(&mut registry, "lifx", "b", &word("fail_register")), Ok(()));
    assert_eq!(load(&mut registry, "neato", "c", &nothing()), Ok(()));
    assert_eq!(load(&mut registry, "dummy", "d", &word("fail_register")), Ok(()));

    let outcome = registry.run_register_pass();
    assert_eq!(outcome, Err(IntegrationsError::Backend("b cannot register".to_string())));
    assert_eq!(handler(&registry, "a").registered, 1);
    assert_eq!(handler(&registry, "b").registered, 1);
    assert_eq!(handler(&registry, "c").registered, 0);
    assert_eq!(handler(&registry, "d").registered, 0);
    assert_eq!(
        log.lines(),
        vec!["new:a", "new:b", "new:c", "new:d", "register:a", "register:b"]
    );
    assert_eq!(registry.integrations.len(), 4);
}

#[test]
fn start_pass_stops_at_the_first_failure() {
    let log = Log::default();
    let mut registry: Integrations<Recorder> = Integrations::new(log.clone());
    assert_eq!(load(&mut registry, "hue", "a", &word("fail_start")), Ok(()));
    assert_eq!(load(&mut registry, "lifx", "b", &nothing()), Ok(()));

    assert_eq!(registry.run_register_pass(), Ok(()));
    let outcome = registry.run_start_pass();
    assert_eq!(outcome, Err(IntegrationsError::Backend("a cannot start".to_string())));
    assert_eq!(handler(&registry, "a").started, 1);
    assert_eq!(handler(&registry, "b").started, 0);
    assert_eq!(handler(&registry, "a").registered, 1);
    assert_eq!(handler(&registry, "b").registered, 1);
    assert_eq!(
        log.lines(),
        vec!["new:a", "new:b", "register:a", "register:b", "start:a"]
    );
}

#[test]
fn failure_of_the_last_handler_fails_the_pass() {
    let log = Log::default();
    let mut registry: Integrations<Recorder> = Integrations::new(log.clone());
    assert_eq!(load(&mut registry, "hue", "a", &nothing()), Ok(()));
    assert_eq!(load(&mut registry, "lifx", "b", &word("fail_register")), Ok(()));
    assert_eq!(
        registry.run_register_pass(),
        Err(IntegrationsError::Backend("b cannot register".to_string()))
    );
    assert_eq!(handler(&registry, "a").registered, 1);
    assert_eq!(handler(&registry, "b").registered, 1);
}

#[test]
fn passes_over_an_empty_registry_succeed() {
    let log = Log::default();
    let mut registry: Integrations<Recorder> = Integrations::new(log.clone());
    assert_eq!(registry.run_register_pass(), Ok(()));
    assert_eq!(registry.run_start_pass(), Ok(()));
    assert!(log.lines().is_empty());
}

#[test]
fn passes_visit_every_handler_once_in_order_of_first_load() {
    let log = Log::default();
    let mut registry: Integrations<Recorder> = Integrations::new(log.clone());
    for id in ["z", "m", "a"] {
        assert_eq!(load(&mut registry, "random", id, &nothing()), Ok(()));
    }
    assert_eq!(registry.run_register_pass(), Ok(()));
    assert_eq!(registry.run_start_pass(), Ok(()));
    for id in ["z", "m", "a"] {
        assert_eq!(handler(&registry, id).registered, 1);
        assert_eq!(handler(&registry, id).started, 1);
    }
    assert_eq!(
        log.lines(),
        vec![
            "new:z", "new:m", "new:a", "register:z", "register:m", "register:a", "start:z",
            "start:m", "start:a"
        ]
    );
}

#[test]
fn a_pass_may_be_run_again_after_a_failure() {
    let log = Log::default();
    let mut registry: Integrations<Recorder> = Integrations::new(log.clone());
    assert_eq!(load(&mut registry, "hue", "a", &nothing()), Ok(()));
    assert_eq!(load(&mut registry, "lifx", "b", &word("fail_register")), Ok(()));
    assert!(registry.run_register_pass().is_err());
    assert_eq!(load(&mut registry, "lifx", "b", &nothing()), Ok(()));
    assert_eq!(registry.run_register_pass(), Ok(()));
    assert_eq!(handler(&registry, "a").registered, 2);
    assert_eq!(handler(&registry, "b").registered, 1);
}

#[test]
fn each_handler_is_given_the_registrys_sink() {
    let log = Log::default();
    let mut registry: Integrations<Recorder> = Integrations::new(log.clone());
    assert_eq!(load(&mut registry, "hue", "a", &nothing()), Ok(()));
    handler(&registry, "a").log.push("from the handler".to_string());
    registry.sender.push("from the registry".to_string());
    assert_eq!(log.lines(), vec!["new:a", "from the handler", "from the registry"]);
}
