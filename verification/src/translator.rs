//! The translator: what reads a request of some transport into the canonical
//! request, and from there into an envelope.

use vstd::prelude::*;
use crate::request::{envelope_of, JsonRpcRequest, JsonRpcRequestStandard};

verus! {

/// Translation of the requests of one transport, of type `T`.
///
/// An implementation says in `names` and `reads` what its two operations may
/// return; one that says nothing may return anything.
pub trait ToJsonRpc<T> {
    /// What translation fails with, for one when the transport's request
    /// lacks something that a canonical request needs.
    type Error;

    /// Whether `request_to_method`, given `request`, may end with `outcome`.
    open spec fn names(&self, request: &T, outcome: Result<String, Self::Error>) -> bool {
        true
    }

    /// Whether `to_json_rpc_standard`, given `request`, may end with
    /// `outcome`.
    open spec fn reads(
        &self,
        request: T,
        outcome: Result<JsonRpcRequestStandard, Self::Error>,
    ) -> bool {
        true
    }

    /// The method that the request will be forwarded under.
    fn request_to_method(&self, request: &T) -> (outcome: Result<String, Self::Error>)
        ensures
            self.names(request, outcome),
    ;

    /// Reads the request of the transport into a canonical request.
    fn to_json_rpc_standard(&self, request: T) -> (outcome: Result<
        JsonRpcRequestStandard,
        Self::Error,
    >)
        ensures
            self.reads(request, outcome),
    ;

    /// Reads the request of the transport into an envelope: first into a
    /// canonical request, then from there by the total mapping. Nothing is
    /// checked a second time, and the only failure is that of the first step.
    fn to_json_rpc(&self, request: T) -> (outcome: Result<JsonRpcRequest, Self::Error>)
        ensures
            match outcome {
                Ok(envelope) => exists|standard: JsonRpcRequestStandard| #[trigger]
                    self.reads(request, Ok(standard)) && envelope@ == envelope_of(standard@),
                Err(error) => self.reads(request, Err(error)),
            },
    {
        match self.to_json_rpc_standard(request) {
            Ok(standard) => Ok(JsonRpcRequest::from_standard(standard)),
            Err(error) => Err(error),
        }
    }
}

} // verus!
