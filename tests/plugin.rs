use river_sdk::bridge::{create, create_minimal, finish, instantiate, resolve, FilterInstance, PluginError};
use river_sdk::config::Config;
use river_sdk::filter::{Filter, FilterFactory, FilterType};
use river_sdk::registry::{FilterDescriptor, FilterRegistry, RegistrySlot, _init_registry};

struct AlwaysFalseFilter;

impl Filter for AlwaysFalseFilter {}

struct AlwaysFalseFactory;

impl FilterFactory for AlwaysFalseFactory {
    fn build(&self, _config: Config) -> Result<Box<dyn Filter>, String> {
        Ok(Box::new(AlwaysFalseFilter))
    }
}

/// Counts its requests and reports the count through `filter`: stops once it
/// has seen `limit` requests.
struct CountingFilter {
    seen: u32,
    limit: u32,
}

impl Filter for CountingFilter {
    fn on_request(&mut self) -> Result<(), String> {
        self.seen += 1;
        Ok(())
    }

    fn filter(&mut self) -> Result<bool, String> {
        Ok(self.seen >= self.limit)
    }
}

struct CountingFactory;

impl FilterFactory for CountingFactory {
    fn build(&self, config: Config) -> Result<Box<dyn Filter>, String> {
        match config.get("limit") {
            None => Err("missing key: limit".to_string()),
            Some(v) => match v.parse::<u32>() {
                Ok(limit) => Ok(Box::new(CountingFilter { seen: 0, limit })),
                Err(_) => Err(format!("bad limit: {}", v)),
            },
        }
    }
}

/// Fails its first request and accepts the later ones.
struct FlakyFilter {
    calls: u32,
}

impl Filter for FlakyFilter {
    fn on_request(&mut self) -> Result<(), String> {
        self.calls += 1;
        if self.calls == 1 {
            Err("first call fails".to_string())
        } else {
            Ok(())
        }
    }
}

struct FlakyFactory;

impl FilterFactory for FlakyFactory {
    fn build(&self, _config: Config) -> Result<Box<dyn Filter>, String> {
        Ok(Box::new(FlakyFilter { calls: 0 }))
    }
}

/// Builds a filter that stops requests when the configured value of
/// `forbidden` is the one it expects.
struct ExpectFactory {
    expected: String,
}

struct FixedFilter {
    answer: bool,
}

impl Filter for FixedFilter {
    fn filter(&mut self) -> Result<bool, String> {
        Ok(self.answer)
    }
}

impl FilterFactory for ExpectFactory {
    fn build(&self, config: Config) -> Result<Box<dyn Filter>, String> {
        let answer = config.get("forbidden") == Some(&self.expected) && config.len() == 1;
        Ok(Box::new(FixedFilter { answer }))
    }
}

fn pairs(items: &[(&str, &str)]) -> Vec<(String, String)> {
    items.iter().map(|(k, v)| (k.to_string(), v.to_string())).collect()
}

fn message_of(r: Result<Option<(FilterInstance, FilterType)>, String>) -> String {
    match r {
        Ok(_) => panic!("expected an error"),
        Err(m) => m,
    }
}

#[test]
fn lookup_finds_exactly_registered_names() {
    let mut reg = FilterRegistry::new();
    reg.add_filter("a", FilterType::Request, AlwaysFalseFactory);
    reg.add_filter("b", FilterType::Response, AlwaysFalseFactory);
    reg.add_filter("c", FilterType::Filter, AlwaysFalseFactory);
    assert_eq!(reg.len(), 3);
    assert_eq!(reg.lookup("a").map(|d| d.kind), Some(FilterType::Request));
    assert_eq!(reg.lookup("b").map(|d| d.kind), Some(FilterType::Response));
    assert_eq!(reg.lookup("c").map(|d| d.kind), Some(FilterType::Filter));
    assert!(reg.lookup("d").is_none());
    assert!(reg.lookup("").is_none());
    assert!(reg.lookup("A").is_none());
}

#[test]
fn empty_registry_finds_nothing() {
    let reg = FilterRegistry::new();
    assert_eq!(reg.len(), 0);
    assert!(reg.lookup("echo").is_none());
}

#[test]
fn later_registration_replaces_earlier() {
    let mut reg = FilterRegistry::new();
    reg.add_filter("x", FilterType::Request, AlwaysFalseFactory);
    reg.add_filter("x", FilterType::Filter, AlwaysFalseFactory);
    assert_eq!(reg.len(), 1);
    assert_eq!(reg.lookup("x").map(|d| d.kind), Some(FilterType::Filter));
}

#[test]
fn descriptor_keeps_its_category() {
    let d = FilterDescriptor::new(FilterType::Response, AlwaysFalseFactory);
    assert_eq!(d.kind, FilterType::Response);
    assert!(d.factory.build(Config::new()).is_ok());
}

#[test]
fn initializer_runs_once() {
    let mut slot = RegistrySlot::new();
    assert!(slot.registry().is_none());
    let mut runs = 0;
    for _ in 0..5 {
        _init_registry(&mut slot, || {
            runs += 1;
            let mut reg = FilterRegistry::new();
            reg.add_filter("echo", FilterType::Filter, AlwaysFalseFactory);
            reg
        });
    }
    assert_eq!(runs, 1);
    let reg = slot.registry().expect("registry is built");
    assert_eq!(reg.len(), 1);
    assert!(reg.lookup("echo").is_some());
}

#[test]
fn later_initializer_is_ignored() {
    let mut slot = RegistrySlot::new();
    _init_registry(&mut slot, || {
        let mut reg = FilterRegistry::new();
        reg.add_filter("first", FilterType::Request, AlwaysFalseFactory);
        reg
    });
    _init_registry(&mut slot, || {
        let mut reg = FilterRegistry::new();
        reg.add_filter("second", FilterType::Request, AlwaysFalseFactory);
        reg
    });
    let reg = slot.registry().expect("registry is built");
    assert!(reg.lookup("first").is_some());
    assert!(reg.lookup("second").is_none());
}

#[test]
fn unregistered_name_is_not_found() {
    let reg = FilterRegistry::new();
    let m = message_of(create(&reg, "unregistered_name", Vec::new()));
    assert_eq!(m, "Filter not found: unregistered_name");
    match instantiate(&reg, "unregistered_name", Vec::new()) {
        Err(PluginError::NotFound(n)) => assert_eq!(n, "unregistered_name"),
        _ => panic!("expected a lookup error"),
    }
}

#[test]
fn config_keeps_last_value_of_key() {
    let c = Config::from_pairs(pairs(&[("forbidden", "/admin"), ("forbidden", "/secret")]));
    assert_eq!(c.len(), 1);
    assert_eq!(c.get("forbidden").map(|s| s.as_str()), Some("/secret"));
    assert_eq!(c.get("other"), None);
}

#[test]
fn config_from_distinct_pairs() {
    let c = Config::from_pairs(pairs(&[("a", "1"), ("b", "2"), ("a", "3"), ("c", "")]));
    assert_eq!(c.len(), 3);
    assert_eq!(c.get("a").map(|s| s.as_str()), Some("3"));
    assert_eq!(c.get("b").map(|s| s.as_str()), Some("2"));
    assert_eq!(c.get("c").map(|s| s.as_str()), Some(""));
    let empty = Config::from_pairs(Vec::new());
    assert_eq!(empty.len(), 0);
    assert_eq!(empty.get("a"), None);
}

#[test]
fn config_insert_replaces() {
    let mut c = Config::new();
    c.insert("k".to_string(), "v1".to_string());
    c.insert("j".to_string(), "w".to_string());
    c.insert("k".to_string(), "v2".to_string());
    assert_eq!(c.len(), 2);
    assert_eq!(c.get("k").map(|s| s.as_str()), Some("v2"));
    assert_eq!(c.get("j").map(|s| s.as_str()), Some("w"));
}

#[test]
fn constructor_gets_deduplicated_config() {
    let mut reg = FilterRegistry::new();
    reg.add_filter("my_filter", FilterType::Filter, ExpectFactory { expected: "/secret".to_string() });
    let config = pairs(&[("forbidden", "/admin"), ("forbidden", "/secret")]);
    match create(&reg, "my_filter", config) {
        Ok(Some((mut inst, kind))) => {
            assert_eq!(kind, FilterType::Filter);
            assert_eq!(inst.filter(), Ok(true));
        }
        _ => panic!("expected an instance"),
    }
}

#[test]
fn echo_filter_always_continues() {
    let mut reg = FilterRegistry::new();
    reg.add_filter("echo", FilterType::Filter, AlwaysFalseFactory);
    match create(&reg, "echo", Vec::new()) {
        Ok(Some((mut inst, kind))) => {
            assert_eq!(kind, FilterType::Filter);
            for _ in 0..3 {
                assert_eq!(inst.filter(), Ok(false));
            }
            assert_eq!(inst.on_request(), Ok(()));
            assert_eq!(inst.on_response(), Ok(()));
            assert_eq!(inst.filter(), Ok(false));
        }
        _ => panic!("expected an instance"),
    }
}

#[test]
fn hook_error_does_not_end_instance() {
    let mut reg = FilterRegistry::new();
    reg.add_filter("flaky", FilterType::Request, FlakyFactory);
    match create(&reg, "flaky", Vec::new()) {
        Ok(Some((mut inst, kind))) => {
            assert_eq!(kind, FilterType::Request);
            assert_eq!(inst.on_request(), Err("first call fails".to_string()));
            assert_eq!(inst.on_request(), Ok(()));
            assert_eq!(inst.on_request(), Ok(()));
        }
        _ => panic!("expected an instance"),
    }
}

#[test]
fn instances_are_independent() {
    let mut reg = FilterRegistry::new();
    reg.add_filter("counter", FilterType::Filter, CountingFactory);
    let mut first = create_minimal(&reg, "counter", pairs(&[("limit", "2")])).ok().expect("instance");
    let mut second = create_minimal(&reg, "counter", pairs(&[("limit", "2")])).ok().expect("instance");
    assert_eq!(first.on_request(), Ok(()));
    assert_eq!(first.on_request(), Ok(()));
    assert_eq!(first.filter(), Ok(true));
    assert_eq!(second.filter(), Ok(false));
    assert_eq!(second.on_request(), Ok(()));
    assert_eq!(second.filter(), Ok(false));
}

#[test]
fn constructor_refusal_is_reported() {
    let mut reg = FilterRegistry::new();
    reg.add_filter("counter", FilterType::Filter, CountingFactory);
    let m = message_of(create(&reg, "counter", Vec::new()));
    assert_eq!(m, "Failed to construct filter counter: missing key: limit");
    match instantiate(&reg, "counter", pairs(&[("limit", "many")])) {
        Err(PluginError::Construction { name, reason }) => {
            assert_eq!(name, "counter");
            assert_eq!(reason, "bad limit: many");
        }
        _ => panic!("expected a construction error"),
    }
}

#[test]
fn minimal_create_reports_errors() {
    let mut reg = FilterRegistry::new();
    reg.add_filter("echo", FilterType::Filter, AlwaysFalseFactory);
    assert!(create_minimal(&reg, "echo", Vec::new()).is_ok());
    match create_minimal(&reg, "missing", Vec::new()) {
        Err(m) => assert_eq!(m, "Filter not found: missing"),
        Ok(_) => panic!("expected an error"),
    }
}

#[test]
fn error_messages() {
    assert_eq!(PluginError::NotFound("x".to_string()).message(), "Filter not found: x");
    let e = PluginError::Construction { name: "f".to_string(), reason: "no".to_string() };
    assert_eq!(e.message(), "Failed to construct filter f: no");
    assert_eq!(PluginError::BorrowConflict.message(), "Filter instance is already in use");
}

#[test]
fn instantiate_returns_registered_category() {
    let mut reg = FilterRegistry::new();
    reg.add_filter("log", FilterType::Response, AlwaysFalseFactory);
    match instantiate(&reg, "log", pairs(&[("a", "b")])) {
        Ok((mut inst, kind)) => {
            assert_eq!(kind, FilterType::Response);
            assert_eq!(inst.on_response(), Ok(()));
        }
        Err(_) => panic!("expected an instance"),
    }
}

#[test]
fn resolve_hands_over_last_wins_config() {
    let mut reg = FilterRegistry::new();
    reg.add_filter("my_filter", FilterType::Filter, AlwaysFalseFactory);
    match resolve(&reg, "my_filter", pairs(&[("forbidden", "/admin"), ("forbidden", "/secret")])) {
        Ok((descriptor, cfg)) => {
            assert_eq!(descriptor.kind, FilterType::Filter);
            assert_eq!(cfg.len(), 1);
            assert_eq!(cfg.get("forbidden").map(|s| s.as_str()), Some("/secret"));
        }
        Err(_) => panic!("expected a descriptor"),
    }
    match resolve(&reg, "other", Vec::new()) {
        Err(PluginError::NotFound(n)) => assert_eq!(n, "other"),
        _ => panic!("expected a lookup error"),
    }
}

#[test]
fn finish_maps_constructor_result() {
    match finish("f", FilterType::Response, Ok(Box::new(AlwaysFalseFilter))) {
        Ok((mut inst, kind)) => {
            assert_eq!(kind, FilterType::Response);
            assert_eq!(inst.filter(), Ok(false));
        }
        Err(_) => panic!("expected an instance"),
    }
    match finish("f", FilterType::Response, Err("bad config".to_string())) {
        Err(PluginError::Construction { name, reason }) => {
            assert_eq!(name, "f");
            assert_eq!(reason, "bad config");
        }
        _ => panic!("expected a construction error"),
    }
}

#[test]
fn register_replaces_descriptor() {
    let mut reg = FilterRegistry::new();
    reg.register("x", FilterDescriptor::new(FilterType::Request, AlwaysFalseFactory));
    reg.register("y", FilterDescriptor::new(FilterType::Response, AlwaysFalseFactory));
    reg.register("x", FilterDescriptor::new(FilterType::Request, FlakyFactory));
    assert_eq!(reg.len(), 2);
    assert_eq!(reg.lookup("y").map(|d| d.kind), Some(FilterType::Response));
    let d = reg.lookup("x").expect("registered");
    let mut inst = d.factory.build(Config::new()).ok().expect("built");
    assert_eq!(inst.on_request(), Err("first call fails".to_string()));
}
