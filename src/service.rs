//! The request-logging wrapper that the HTTP layer puts around its routes.
use vstd::prelude::*;

verus! {

/// Produces a [`Logger`] around each service it is given.
#[derive(Clone, Copy, Debug)]
pub struct LoggerLayer;

/// A service wrapped so that each request it handles is logged and timed.
#[derive(Clone, Debug)]
pub struct Logger<S> {
    pub inner: S,
}

impl<S> Logger<S> {
    pub fn new(inner: S) -> (r: Logger<S>)
        ensures
            r.inner == inner,
    {
        Logger { inner }
    }
}

impl LoggerLayer {
    /// Wraps a service.
    pub fn layer<S>(&self, service: S) -> (r: Logger<S>)
        ensures
            r.inner == service,
    {
        Logger::new(service)
    }
}

} // verus!
