//! One call through the proxy: translation, then the middleware chain, then
//! forwarding, in this order and never in another.
//!
//! The three outside steps (reading the transport's request, applying one
//! middleware, asking the backend) may take time or suspend. What is decided
//! between them is decided here, by three functions that each take the result
//! of one outside step and say what the call does next. A host that cannot
//! block performs the steps itself and asks these functions in between;
//! [`handle_call`] does the same in a plain loop.

use vstd::prelude::*;
use crate::forwarder::Forwarder;
use crate::middleware::{
    chain_after, chain_at, chain_permits, chain_start, chain_step, ChainStep, Middleware,
    MiddlewareError,
};
use crate::request::{envelope_of, method_of, JsonRpcRequest, JsonRpcRequestStandard};
use crate::translator::ToJsonRpc;

verus! {

/// The three phases of a call.
#[derive(Clone, Copy, Debug, PartialEq, Eq, Structural)]
pub enum Phase {
    Translation,
    Middleware,
    Forwarding,
}

/// The failure of a call. It holds the failure of the step that failed, as
/// that step gave it.
pub enum CallError<TE, ME, FE> {
    /// The transport's request could not be read into a canonical request.
    Conversion(TE),
    /// A middleware rejected the request or failed on it.
    Middleware(MiddlewareError<ME>),
    /// The forwarder could not produce a reply.
    Forwarding(FE),
}

impl<TE, ME, FE> CallError<TE, ME, FE> {
    /// The phase in which the call failed.
    pub open spec fn spec_phase(&self) -> Phase {
        match self {
            CallError::Conversion(_) => Phase::Translation,
            CallError::Middleware(_) => Phase::Middleware,
            CallError::Forwarding(_) => Phase::Forwarding,
        }
    }

    /// The phase in which the call failed.
    #[verifier::when_used_as_spec(spec_phase)]
    pub fn phase(&self) -> (phase: Phase)
        ensures
            phase == self.spec_phase(),
    {
        match self {
            CallError::Conversion(_) => Phase::Translation,
            CallError::Middleware(_) => Phase::Middleware,
            CallError::Forwarding(_) => Phase::Forwarding,
        }
    }
}

/// What a call does next.
pub enum NextStep<TE, ME, FE> {
    /// Apply the middleware at `index` to `value`.
    Apply { index: usize, value: JsonRpcRequestStandard },
    /// The chain is through: hand this envelope to the forwarder.
    Forward(JsonRpcRequest),
    /// The call has failed.
    Fail(CallError<TE, ME, FE>),
}

/// Whether `step` is what the call does where its chain does `in_chain`: it
/// applies what the chain applies, fails where the chain fails, and hands the
/// envelope of the chain's result to the forwarder.
pub open spec fn follows_chain<TE, ME, FE>(
    in_chain: ChainStep<JsonRpcRequestStandard, ME>,
    step: NextStep<TE, ME, FE>,
) -> bool {
    match in_chain {
        ChainStep::Apply { index, value } => step == (NextStep::<TE, ME, FE>::Apply {
            index,
            value,
        }),
        ChainStep::Done(value) => step matches NextStep::Forward(envelope) && envelope@
            == envelope_of(value@),
        ChainStep::Failed(failure) => step == NextStep::<TE, ME, FE>::Fail(
            CallError::Middleware(failure),
        ),
    }
}

/// The step of the call for a step of its chain.
fn follow_chain<TE, ME, FE>(in_chain: ChainStep<JsonRpcRequestStandard, ME>) -> (step: NextStep<
    TE,
    ME,
    FE,
>)
    ensures
        follows_chain(in_chain, step),
{
    match in_chain {
        ChainStep::Apply { index, value } => NextStep::Apply { index, value },
        ChainStep::Done(value) => NextStep::Forward(JsonRpcRequest::from_standard(value)),
        ChainStep::Failed(failure) => NextStep::Fail(CallError::Middleware(failure)),
    }
}

/// What the call does once the translator has answered. A failure of the
/// translator ends the call; a canonical request enters a chain of
/// `chain_len` middleware, or goes to the forwarder where the chain is empty.
pub fn after_translation<TE, ME, FE>(
    chain_len: usize,
    outcome: Result<JsonRpcRequestStandard, TE>,
) -> (step: NextStep<TE, ME, FE>)
    ensures
        match outcome {
            Ok(standard) => follows_chain(chain_at::<JsonRpcRequestStandard, ME>(chain_len, 0, standard), step),
            Err(error) => step == NextStep::<TE, ME, FE>::Fail(CallError::Conversion(error)),
        },
{
    match outcome {
        Ok(standard) => follow_chain(chain_start(chain_len, standard)),
        Err(error) => NextStep::Fail(CallError::Conversion(error)),
    }
}

/// What the call does once the middleware at `index` has answered. A failure
/// ends the call there, and no later middleware is asked; it is handed on as
/// it came, with `index`. A value goes to the middleware after it, or, after
/// the last one, to the forwarder as an envelope.
pub fn after_middleware<TE, ME, FE>(
    chain_len: usize,
    index: usize,
    outcome: Result<JsonRpcRequestStandard, ME>,
) -> (step: NextStep<TE, ME, FE>)
    requires
        index < chain_len,
    ensures
        follows_chain(chain_after(chain_len, index, outcome), step),
{
    follow_chain(chain_step(chain_len, index, outcome))
}

/// How the call ends once the forwarder has answered: with its reply, or with
/// its failure as it came. Nothing is tried a second time.
pub fn after_forwarding<T, TE, ME, FE>(outcome: Result<T, FE>) -> (reply: Result<
    T,
    CallError<TE, ME, FE>,
>)
    ensures
        match outcome {
            Ok(answer) => reply == Ok::<T, CallError<TE, ME, FE>>(answer),
            Err(error) => reply == Err::<T, CallError<TE, ME, FE>>(CallError::Forwarding(error)),
        },
{
    match outcome {
        Ok(answer) => Ok(answer),
        Err(error) => Err(CallError::Forwarding(error)),
    }
}

/// Whether a call may get as far as the forwarder and there end with
/// `answer`: the translator reads the request, the chain lets it through,
/// perhaps changed, and the forwarder gives `answer` to the envelope of what
/// left the chain.
pub open spec fn reaches_forwarder<T, R, Tr, M, F>(
    translator: &Tr,
    chain: Seq<M>,
    forwarder: &F,
    request: R,
    answer: Result<T, F::Error>,
) -> bool where Tr: ToJsonRpc<R>, M: Middleware<JsonRpcRequestStandard>, F: Forwarder<T> {
    exists|standard: JsonRpcRequestStandard, passed: JsonRpcRequestStandard, envelope: JsonRpcRequest|
        #![trigger
            chain_permits(chain, 0, standard, Ok(passed)),
            forwarder.answers(envelope, answer)
        ]
        translator.reads(request, Ok(standard)) && chain_permits(chain, 0, standard, Ok(passed))
            && envelope@ == envelope_of(passed@) && forwarder.answers(envelope, answer)
}

/// Whether a call with the given translator, chain and forwarder may end with
/// `outcome` on `request`.
pub open spec fn call_permits<T, R, Tr, M, F>(
    translator: &Tr,
    chain: Seq<M>,
    forwarder: &F,
    request: R,
    outcome: Result<T, CallError<Tr::Error, M::Error, F::Error>>,
) -> bool where Tr: ToJsonRpc<R>, M: Middleware<JsonRpcRequestStandard>, F: Forwarder<T> {
    match outcome {
        Ok(answer) => reaches_forwarder(translator, chain, forwarder, request, Ok(answer)),
        Err(CallError::Forwarding(error)) => reaches_forwarder(
            translator,
            chain,
            forwarder,
            request,
            Err(error),
        ),
        Err(CallError::Middleware(failure)) => exists|standard: JsonRpcRequestStandard| #[trigger]
            translator.reads(request, Ok(standard)) && chain_permits(
                chain,
                0,
                standard,
                Err(failure),
            ),
        Err(CallError::Conversion(error)) => translator.reads(request, Err(error)),
    }
}

/// A forwarder that echoes: whatever envelope it is given, it replies with
/// the method of that envelope and with nothing else.
pub open spec fn echoes_method<F: Forwarder<String>>(forwarder: &F) -> bool {
    forall|envelope: JsonRpcRequest, answer: Result<String, F::Error>| #[trigger]
        forwarder.answers(envelope, answer) ==> answer is Ok && answer->Ok_0@ == envelope.method@
}

/// With a forwarder that echoes, a call that gets as far as the forwarder is
/// answered with the method of its own request: the method of the path with
/// which that request left the chain.
pub proof fn lemma_echo_answers_own_request<R, Tr, M, F>(
    translator: &Tr,
    chain: Seq<M>,
    forwarder: &F,
    request: R,
    outcome: Result<String, CallError<Tr::Error, M::Error, F::Error>>,
) where Tr: ToJsonRpc<R>, M: Middleware<JsonRpcRequestStandard>, F: Forwarder<String>
    requires
        echoes_method(forwarder),
        call_permits(translator, chain, forwarder, request, outcome),
    ensures
        !(outcome matches Err(CallError::Forwarding(_))),
        outcome matches Ok(reply) ==> exists|
            standard: JsonRpcRequestStandard,
            passed: JsonRpcRequestStandard,
        | #[trigger]
            chain_permits(chain, 0, standard, Ok(passed)) && translator.reads(
                request,
                Ok(standard),
            ) && reply@ == method_of(passed@.path),
{
}

/// The middleware still to be applied when `step` is next.
pub open spec fn steps_left<TE, ME, FE>(chain_len: usize, step: NextStep<TE, ME, FE>) -> int {
    match step {
        NextStep::Apply { index, .. } => chain_len - index,
        _ => 0,
    }
}

/// Serves one call: reads the request, runs the chain on what was read, and
/// forwards the envelope of what left the chain. The first failure ends the
/// call and is returned under the phase in which it came.
pub fn handle_call<T, R, Tr, M, F>(translator: &Tr, chain: &Vec<M>, forwarder: &F, request: R) -> (outcome:
    Result<T, CallError<Tr::Error, M::Error, F::Error>>) where
    Tr: ToJsonRpc<R>,
    M: Middleware<JsonRpcRequestStandard>,
    F: Forwarder<T>,

    ensures
        call_permits(translator, chain@, forwarder, request, outcome),
{
    let read = translator.to_json_rpc_standard(request);
    let ghost standard = read->Ok_0;
    let mut step: NextStep<Tr::Error, M::Error, F::Error> = after_translation(chain.len(), read);
    proof {
        if read is Ok && chain@.len() == 0 {
            assert(chain_permits(chain@, 0, standard, Ok(standard)));
        }
    }
    loop
        invariant
            match step {
                NextStep::Apply { index, value } => {
                    &&& index < chain@.len()
                    &&& translator.reads(request, Ok(standard))
                    &&& forall|end: Result<JsonRpcRequestStandard, MiddlewareError<M::Error>>|
                        chain_permits(chain@, index as int, value, end) ==> chain_permits(
                            chain@,
                            0,
                            standard,
                            end,
                        )
                },
                NextStep::Forward(envelope) => {
                    &&& translator.reads(request, Ok(standard))
                    &&& exists|passed: JsonRpcRequestStandard| #[trigger]
                        chain_permits(chain@, 0, standard, Ok(passed)) && envelope@ == envelope_of(
                            passed@,
                        )
                },
                NextStep::Fail(error) => call_permits::<T, R, Tr, M, F>(
                    translator,
                    chain@,
                    forwarder,
                    request,
                    Err(error),
                ),
            },
        decreases steps_left(chain.len(), step),
    {
        match step {
            NextStep::Apply { index, value } => {
                let applied = chain[index].apply(value);
                let ghost answered = applied;
                step = after_middleware(chain.len(), index, applied);
                proof {
                    if answered is Ok {
                        let next = answered->Ok_0;
                        assert forall|end: Result<
                            JsonRpcRequestStandard,
                            MiddlewareError<M::Error>,
                        >| chain_permits(chain@, index + 1, next, end) implies chain_permits(
                            chain@,
                            0,
                            standard,
                            end,
                        ) by {
                            assert(chain_permits(chain@, index as int, value, end));
                        }
                        if index + 1 == chain@.len() {
                            assert(chain_permits(chain@, 0, standard, Ok(next)));
                        }
                    }
                }
            },
            NextStep::Forward(envelope) => {
                let answer = forwarder.forward(envelope);
                return after_forwarding(answer);
            },
            NextStep::Fail(error) => {
                return Err(error);
            },
        }
    }
}

} // verus!
