//! The filter abstraction: what a registered filter is and how it is built.
use vstd::prelude::*;
use crate::config::Config;

verus! {

/// How the host treats an instance: which lifecycle hooks it drives.
#[derive(Clone, Copy, Debug, PartialEq, Eq, Structural)]
pub enum FilterType {
    /// Driven when a request begins.
    Request,
    /// Driven when a response is ready.
    Response,
    /// Asked whether to stop the request.
    Filter,
}

/// A filter instance. Each hook is optional: one that is not overridden does
/// nothing and succeeds, and `filter` then lets the request continue.
pub trait Filter: Send {
    /// Called when a request begins.
    fn on_request(&mut self) -> (r: Result<(), String>)
        default_ensures
            r == Ok::<(), String>(()),
    {
        Ok(())
    }

    /// Called when a response is ready.
    fn on_response(&mut self) -> (r: Result<(), String>)
        default_ensures
            r == Ok::<(), String>(()),
    {
        Ok(())
    }

    /// Called to decide whether to stop the request: `true` stops it, `false`
    /// lets it continue.
    fn filter(&mut self) -> (r: Result<bool, String>)
        default_ensures
            r == Ok::<bool, String>(false),
    {
        Ok(false)
    }
}

/// Builds a new filter instance from a configuration, or says why it cannot.
pub trait FilterFactory: Send + Sync {
    fn build(&self, config: Config) -> Result<Box<dyn Filter>, String>;
}

} // verus!
