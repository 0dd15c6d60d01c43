//! The forwarder: whatever takes an envelope to a backend and brings the
//! reply.

use vstd::prelude::*;
use crate::request::JsonRpcRequest;

verus! {

/// A backend behind the proxy. How the reply comes about is the
/// implementation's business: a network call, a call in the same process, a
/// stub. `forward` takes `&self`, so one forwarder serves many calls at once
/// and guards its own state.
///
/// An implementation says in `answers` what it may reply; one that says
/// nothing may reply anything.
pub trait Forwarder<T> {
    /// What `forward` fails with.
    type Error;

    /// Whether `forward`, given `request`, may end with `outcome`.
    open spec fn answers(&self, request: JsonRpcRequest, outcome: Result<T, Self::Error>) -> bool {
        true
    }

    /// Sends the envelope to the backend and returns its reply.
    fn forward(&self, json_rpc_request: JsonRpcRequest) -> (outcome: Result<T, Self::Error>)
        ensures
            self.answers(json_rpc_request, outcome),
    ;
}

} // verus!
