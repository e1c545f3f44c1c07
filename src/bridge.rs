//! The boundary bridge: resolves a host's request for a filter by name into a
//! live instance, and forwards the host's hook calls to it.
use vstd::prelude::*;
use vstd::string::StringExecFns;
use crate::config::{last_wins, Config};
use crate::filter::{Filter, FilterType};
use crate::registry::{FilterDescriptor, FilterRegistry};

verus! {

/// Why a request of the host could not be served.
pub enum PluginError {
    /// No filter is registered under the name.
    NotFound(String),
    /// The constructor registered under `name` rejected the configuration.
    Construction { name: String, reason: String },
    /// A hook was called on an instance while another call on it was still running.
    BorrowConflict,
}

/// The error text for a name that is not registered.
pub open spec fn not_found_text(name: Seq<char>) -> Seq<char> {
    "Filter not found: "@ + name
}

/// The error text for a constructor that refused its configuration.
pub open spec fn construction_text(name: Seq<char>, reason: Seq<char>) -> Seq<char> {
    "Failed to construct filter "@ + name + ": "@ + reason
}

/// The text of the error that the host receives for `e`.
pub open spec fn error_text(e: PluginError) -> Seq<char> {
    match e {
        PluginError::NotFound(name) => not_found_text(name@),
        PluginError::Construction { name, reason } => construction_text(name@, reason@),
        PluginError::BorrowConflict => "Filter instance is already in use"@,
    }
}

impl PluginError {
    /// The error as the text handed to the host.
    pub fn message(&self) -> (r: String)
        ensures
            r@ == error_text(*self),
    {
        match self {
            PluginError::NotFound(name) => {
                let mut m = "Filter not found: ".to_owned();
                m.append(name.as_str());
                m
            },
            PluginError::Construction { name, reason } => {
                let mut m = "Failed to construct filter ".to_owned();
                m.append(name.as_str());
                m.append(": ");
                m.append(reason.as_str());
                m
            },
            PluginError::BorrowConflict => "Filter instance is already in use".to_owned(),
        }
    }
}

/// A live filter, owned by one host handle for its whole life.
pub struct FilterInstance {
    inner: Box<dyn Filter>,
}

impl FilterInstance {
    /// Wraps a freshly built filter.
    pub fn new(inner: Box<dyn Filter>) -> (r: FilterInstance) {
        FilterInstance { inner }
    }

    /// Runs the filter's request hook.
    pub fn on_request(&mut self) -> Result<(), String> {
        self.inner.on_request()
    }

    /// Runs the filter's response hook.
    pub fn on_response(&mut self) -> Result<(), String> {
        self.inner.on_response()
    }

    /// Asks the filter whether to stop the request.
    pub fn filter(&mut self) -> Result<bool, String> {
        self.inner.filter()
    }
}

/// `r` is what a request for `name`, whose constructor has category `kind` and
/// returned `built`, gives: an instance with that category where the
/// constructor succeeded, and its refusal, with its reason, where it failed.
pub open spec fn finished(
    name: Seq<char>,
    kind: FilterType,
    built: Result<Box<dyn Filter>, String>,
    r: Result<(FilterInstance, FilterType), PluginError>,
) -> bool {
    match built {
        Ok(_) => r matches Ok((_, k)) && k == kind,
        Err(reason) => r matches Err(PluginError::Construction { name: n, reason: m }) && n@ == name
            && m == reason,
    }
}

/// Turns what the constructor registered under `name` returned into the
/// result of the request.
pub fn finish(name: &str, kind: FilterType, built: Result<Box<dyn Filter>, String>) -> (r: Result<
    (FilterInstance, FilterType),
    PluginError,
>)
    ensures
        finished(name@, kind, built, r),
{
    match built {
        Ok(inner) => Ok((FilterInstance::new(inner), kind)),
        Err(reason) => Err(PluginError::Construction { name: name.to_owned(), reason }),
    }
}

/// Finds the descriptor registered under `name` and the configuration that
/// `config` describes (a later pair for a key wins): what its constructor is
/// then given.
pub fn resolve<'a>(registry: &'a FilterRegistry, name: &str, config: Vec<(String, String)>) -> (r: Result<
    (&'a FilterDescriptor, Config),
    PluginError,
>)
    ensures
        r is Ok <==> registry@.contains_key(name@),
        match r {
            Ok((d, cfg)) => *d == registry@[name@] && cfg@ == last_wins(config@),
            Err(e) => e matches PluginError::NotFound(n) && n@ == name@,
        },
{
    match registry.lookup(name) {
        None => Err(PluginError::NotFound(name.to_owned())),
        Some(descriptor) => Ok((descriptor, Config::from_pairs(config))),
    }
}

/// What [`instantiate`] may return for `name` on a registry with view `reg`:
/// `NotFound` exactly when the name is not registered; otherwise what the
/// registered constructor's result makes of the request.
pub open spec fn instantiate_outcome(
    reg: Map<Seq<char>, FilterDescriptor>,
    name: Seq<char>,
    r: Result<(FilterInstance, FilterType), PluginError>,
) -> bool {
    if reg.contains_key(name) {
        exists|built: Result<Box<dyn Filter>, String>| finished(name, reg[name].kind, built, r)
    } else {
        r matches Err(PluginError::NotFound(n)) && n@ == name
    }
}

/// Resolves `name` in `registry` and builds an instance with the registered
/// constructor from the configuration that `config` describes.
pub fn instantiate(registry: &FilterRegistry, name: &str, config: Vec<(String, String)>) -> (r: Result<
    (FilterInstance, FilterType),
    PluginError,
>)
    ensures
        instantiate_outcome(registry@, name@, r),
{
    match resolve(registry, name, config) {
        Err(e) => Err(e),
        Ok((descriptor, cfg)) => {
            let built = descriptor.factory.build(cfg);
            finish(name, descriptor.kind, built)
        },
    }
}

/// `r` is what the richer boundary contract's `create` gives for `name` when
/// the constructor, of category `kind`, returned `built`.
pub open spec fn created(
    name: Seq<char>,
    kind: FilterType,
    built: Result<Box<dyn Filter>, String>,
    r: Result<Option<(FilterInstance, FilterType)>, String>,
) -> bool {
    match built {
        Ok(_) => r matches Ok(Some((_, k))) && k == kind,
        Err(reason) => r matches Err(m) && m@ == construction_text(name, reason@),
    }
}

/// What the richer boundary contract's `create` may return for `name` on a
/// registry with view `reg`.
pub open spec fn create_outcome(
    reg: Map<Seq<char>, FilterDescriptor>,
    name: Seq<char>,
    r: Result<Option<(FilterInstance, FilterType)>, String>,
) -> bool {
    if reg.contains_key(name) {
        exists|built: Result<Box<dyn Filter>, String>| created(name, reg[name].kind, built, r)
    } else {
        r matches Err(m) && m@ == not_found_text(name)
    }
}

/// `r` is what the minimal boundary contract's `create` gives for `name` when
/// the constructor returned `built`.
pub open spec fn created_minimal(
    name: Seq<char>,
    built: Result<Box<dyn Filter>, String>,
    r: Result<FilterInstance, String>,
) -> bool {
    match built {
        Ok(_) => r is Ok,
        Err(reason) => r matches Err(m) && m@ == construction_text(name, reason@),
    }
}

/// What the minimal boundary contract's `create` may return for `name` on a
/// registry with view `reg`.
pub open spec fn create_minimal_outcome(
    reg: Map<Seq<char>, FilterDescriptor>,
    name: Seq<char>,
    r: Result<FilterInstance, String>,
) -> bool {
    if reg.contains_key(name) {
        exists|built: Result<Box<dyn Filter>, String>| created_minimal(name, built, r)
    } else {
        r matches Err(m) && m@ == not_found_text(name)
    }
}

/// `create` of the richer boundary contract: the instance and its category, or
/// the error as text.
pub fn create(registry: &FilterRegistry, name: &str, config: Vec<(String, String)>) -> (r: Result<
    Option<(FilterInstance, FilterType)>,
    String,
>)
    ensures
        create_outcome(registry@, name@, r),
{
    let ghost reg = registry@;
    let result = instantiate(registry, name, config);
    let ghost built = choose|built: Result<Box<dyn Filter>, String>|
        finished(name@, reg[name@].kind, built, result);
    match result {
        Ok(pair) => {
            let r = Ok(Some(pair));
            proof {
                if reg.contains_key(name@) {
                    assert(created(name@, reg[name@].kind, built, r));
                }
            }
            r
        },
        Err(e) => {
            let m = e.message();
            let r = Err(m);
            proof {
                if reg.contains_key(name@) {
                    assert(created(name@, reg[name@].kind, built, r));
                }
            }
            r
        },
    }
}

/// `create` of the minimal boundary contract, which has no categories: the
/// instance, or the error as text.
pub fn create_minimal(registry: &FilterRegistry, name: &str, config: Vec<(String, String)>) -> (r: Result<
    FilterInstance,
    String,
>)
    ensures
        create_minimal_outcome(registry@, name@, r),
{
    let ghost reg = registry@;
    let result = instantiate(registry, name, config);
    let ghost built = choose|built: Result<Box<dyn Filter>, String>|
        finished(name@, reg[name@].kind, built, result);
    match result {
        Ok((instance, _)) => {
            let r = Ok(instance);
            proof {
                if reg.contains_key(name@) {
                    assert(created_minimal(name@, built, r));
                }
            }
            r
        },
        Err(e) => {
            let m = e.message();
            let r = Err(m);
            proof {
                if reg.contains_key(name@) {
                    assert(created_minimal(name@, built, r));
                }
            }
            r
        },
    }
}

} // verus!
