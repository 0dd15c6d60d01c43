//! The proxy: the long-lived owner of the forwarder that calls are sent to.
//!
//! A proxy starts without a forwarder, is configured with one, and then
//! serves. While it serves, its forwarder may be replaced; a replacement is
//! all or nothing, and a call goes to the forwarder that was in place when the
//! call began.

use vstd::prelude::*;
use crate::forwarder::Forwarder;

verus! {

/// The coordinator as a host implements it: an accept loop around a listener,
/// which is no concern of this crate, and a slot for the forwarder.
///
/// An implementation says in `installs` and `serves` how its two operations
/// may end; one that says nothing may end them in any way.
pub trait Proxy<T>: Sized {
    /// The forwarders that this proxy can be configured with.
    type Backend: Forwarder<T>;

    /// What configuring or serving fails with.
    type Error;

    /// Whether `set_forwarder`, called on this proxy with `forwarder`, may
    /// leave the proxy as `after` and end with `outcome`.
    open spec fn installs(
        &self,
        forwarder: Self::Backend,
        after: &Self,
        outcome: Result<(), Self::Error>,
    ) -> bool {
        true
    }

    /// Whether `serve` may end with `outcome`.
    open spec fn serves(&self, outcome: Result<(), Self::Error>) -> bool {
        true
    }

    /// Replaces the forwarder. May fail, since choosing a forwarder may mean
    /// asking elsewhere.
    fn set_forwarder(&mut self, forwarder: Self::Backend) -> (outcome: Result<(), Self::Error>)
        ensures
            old(self).installs(forwarder, final(self), outcome),
    ;

    /// Accepts calls and serves each, until told to stop or until something
    /// fails that the proxy cannot recover from. The failure of one call is
    /// the reply to that call and does not end `serve`.
    fn serve(&self) -> (outcome: Result<(), Self::Error>)
        ensures
            self.serves(outcome),
    ;
}

/// Where a proxy stands in its life.
#[derive(Clone, Copy, Debug, PartialEq, Eq, Structural)]
pub enum Lifecycle {
    /// No forwarder has been set yet.
    Unconfigured,
    /// A forwarder is set; the proxy does not serve yet.
    Configured,
    /// The proxy serves calls with its forwarder.
    Serving,
}

/// The failure to set a forwarder: the failure of whatever chose it, as it
/// came.
pub struct ConfigurationError<E> {
    pub source: E,
}

/// The slot that holds a proxy's forwarder, and whether the proxy serves.
pub struct ProxyState<F> {
    forwarder: Option<F>,
    serving: bool,
}

impl<F> ProxyState<F> {
    #[verifier::type_invariant]
    spec fn serves_with_forwarder(&self) -> bool {
        self.serving ==> self.forwarder is Some
    }

    /// The forwarder in place, if one has been set.
    pub closed spec fn forwarder(&self) -> Option<F> {
        self.forwarder
    }

    /// Where the proxy stands.
    pub closed spec fn spec_lifecycle(&self) -> Lifecycle {
        if self.serving {
            Lifecycle::Serving
        } else if self.forwarder is Some {
            Lifecycle::Configured
        } else {
            Lifecycle::Unconfigured
        }
    }

    /// A proxy without a forwarder.
    pub fn new() -> (state: Self)
        ensures
            state.lifecycle() == Lifecycle::Unconfigured,
            state.forwarder() is None,
    {
        ProxyState { forwarder: None, serving: false }
    }

    /// Where the proxy stands.
    #[verifier::when_used_as_spec(spec_lifecycle)]
    pub fn lifecycle(&self) -> (lifecycle: Lifecycle)
        ensures
            lifecycle == self.spec_lifecycle(),
            (lifecycle == Lifecycle::Unconfigured) == (self.forwarder() is None),
    {
        proof {
            use_type_invariant(self);
        }
        if self.serving {
            Lifecycle::Serving
        } else if self.forwarder.is_some() {
            Lifecycle::Configured
        } else {
            Lifecycle::Unconfigured
        }
    }

    /// Puts `forwarder` in place of the one that was there, and returns that
    /// one. An unconfigured proxy becomes configured; a serving proxy goes on
    /// serving.
    pub fn set_forwarder(&mut self, forwarder: F) -> (previous: Option<F>)
        ensures
            final(self).forwarder() == Some(forwarder),
            previous == old(self).forwarder(),
            final(self).lifecycle() == (if old(self).lifecycle() == Lifecycle::Serving {
                Lifecycle::Serving
            } else {
                Lifecycle::Configured
            }),
    {
        proof {
            use_type_invariant(&*self);
        }
        let mut slot = Some(forwarder);
        core::mem::swap(&mut self.forwarder, &mut slot);
        slot
    }

    /// Takes the outcome of choosing a forwarder. A forwarder is put in
    /// place as `set_forwarder` does it. A failure leaves the proxy as it
    /// was, forwarder included, and is handed back as a configuration error.
    pub fn configure<E>(&mut self, chosen: Result<F, E>) -> (outcome: Result<
        Option<F>,
        ConfigurationError<E>,
    >)
        ensures
            match chosen {
                Ok(forwarder) => {
                    &&& outcome == Ok::<Option<F>, ConfigurationError<E>>(old(self).forwarder())
                    &&& final(self).forwarder() == Some(forwarder)
                    &&& final(self).lifecycle() == (if old(self).lifecycle()
                        == Lifecycle::Serving {
                        Lifecycle::Serving
                    } else {
                        Lifecycle::Configured
                    })
                },
                Err(error) => {
                    &&& outcome == Err::<Option<F>, ConfigurationError<E>>(
                        ConfigurationError { source: error },
                    )
                    &&& *final(self) == *old(self)
                },
            },
    {
        match chosen {
            Ok(forwarder) => Ok(self.set_forwarder(forwarder)),
            Err(error) => Err(ConfigurationError { source: error }),
        }
    }

    /// Begins to serve, if a forwarder is set. Returns whether the proxy
    /// serves afterwards; without a forwarder it does not, and stays as it
    /// was. The forwarder is not touched.
    pub fn begin_serving(&mut self) -> (serving: bool)
        ensures
            serving == (old(self).lifecycle() != Lifecycle::Unconfigured),
            final(self).lifecycle() == (if serving {
                Lifecycle::Serving
            } else {
                Lifecycle::Unconfigured
            }),
            final(self).forwarder() == old(self).forwarder(),
    {
        proof {
            use_type_invariant(&*self);
        }
        if self.forwarder.is_some() {
            self.serving = true;
            true
        } else {
            false
        }
    }

    /// The forwarder for a call that begins now: the one in place if the
    /// proxy serves, none if it does not.
    pub fn forwarder_for_call(&self) -> (forwarder: Option<&F>)
        ensures
            match forwarder {
                Some(current) => self.lifecycle() == Lifecycle::Serving && self.forwarder()
                    == Some(*current),
                None => self.lifecycle() != Lifecycle::Serving,
            },
    {
        proof {
            use_type_invariant(self);
        }
        if self.serving {
            self.forwarder.as_ref()
        } else {
            None
        }
    }
}

} // verus!
