//! A middleware that bounds how long a service may take.
use vstd::prelude::*;
use std::time::Duration;

verus! {

/// The error of a request that took too long.
#[derive(Debug, Clone, Copy)]
pub struct TimeoutError(());

impl TimeoutError {
    pub fn default() -> (r: TimeoutError) {
        TimeoutError(())
    }

    /// The text of the error.
    pub fn message(&self) -> (r: String)
        ensures
            r@ == "request timed out"@,
    {
        String::from_str("request timed out")
    }
}

/// A service wrapped with the time that each request may take.
#[derive(Debug, Clone)]
pub struct Timeout<S> {
    inner: S,
    timeout: Duration,
}

impl<S> Timeout<S> {
    /// The wrapped service.
    pub closed spec fn spec_inner(&self) -> S {
        self.inner
    }

    /// The time that each request may take.
    pub closed spec fn spec_timeout(&self) -> Duration {
        self.timeout
    }

    pub fn new(inner: S, timeout: Duration) -> (r: Self)
        ensures
            r.spec_inner() == inner,
            r.spec_timeout() == timeout,
    {
        Timeout { inner, timeout }
    }

    /// The wrapped service, to call.
    pub fn inner_mut(&mut self) -> (r: &mut S)
        ensures
            *r == old(self).spec_inner(),
            final(self).spec_timeout() == old(self).spec_timeout(),
            final(self).spec_inner() == *final(r),
    {
        &mut self.inner
    }

    /// The time that each request may take.
    pub fn timeout(&self) -> (r: Duration)
        ensures
            r == self.spec_timeout(),
    {
        self.timeout
    }
}

/// A layer that wraps services in `Timeout` with the same delay.
#[derive(Debug, Clone, Copy)]
pub struct TimeoutLayer(Duration);

impl TimeoutLayer {
    /// The delay of the layer.
    pub closed spec fn spec_delay(&self) -> Duration {
        self.0
    }

    pub fn new(delay: Duration) -> (r: Self)
        ensures
            r.spec_delay() == delay,
    {
        TimeoutLayer(delay)
    }

    /// Wraps a service in `Timeout` with the delay of the layer.
    pub fn layer<S>(&self, service: S) -> (r: Timeout<S>)
        ensures
            r.spec_inner() == service,
            r.spec_timeout() == self.spec_delay(),
    {
        Timeout::new(service, self.0)
    }
}

} // verus!
