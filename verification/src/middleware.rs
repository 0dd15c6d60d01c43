//! Middleware: a transformation of a value into a value of the same type
//! that may fail, and the rule by which a chain of them is run.

use vstd::prelude::*;

verus! {

/// One step of request processing. `apply` takes a value and hands back its
/// replacement, or fails.
///
/// What an implementation may hand back is its own business; it says so in
/// `permits`, and `apply` stays within it. An implementation that says
/// nothing permits every outcome; one that always gives the same answer to the
/// same value can permit that answer alone.
pub trait Middleware<T> {
    /// What `apply` fails with.
    type Error;

    /// Whether `apply`, given `input`, may end with `outcome`.
    open spec fn permits(&self, input: T, outcome: Result<T, Self::Error>) -> bool {
        true
    }

    /// Transforms `request` or rejects it.
    fn apply(&self, request: T) -> (outcome: Result<T, Self::Error>)
        ensures
            self.permits(request, outcome),
    ;
}

/// The failure of a chain: the failure of one middleware, unchanged, and the
/// place of that middleware in the chain.
pub struct MiddlewareError<E> {
    /// The position of the middleware that failed, counted from zero.
    pub index: usize,
    /// What that middleware failed with.
    pub source: E,
}

/// Whether running the middleware of `chain` from position `from` on, in
/// order and each on the result of the one before, may end with `outcome`
/// when the first of them is given `input`. The run ends at the first
/// failure; with none it ends after the last middleware.
pub open spec fn chain_permits<T, M: Middleware<T>>(
    chain: Seq<M>,
    from: int,
    input: T,
    outcome: Result<T, MiddlewareError<M::Error>>,
) -> bool
    decreases chain.len() - from,
{
    if 0 <= from < chain.len() {
        ||| exists|next: T| #[trigger]
            chain[from].permits(input, Ok(next)) && chain_permits(chain, from + 1, next, outcome)
        ||| exists|error: M::Error| #[trigger]
            chain[from].permits(input, Err(error)) && outcome == Err::<
                T,
                MiddlewareError<M::Error>,
            >(MiddlewareError { index: from as usize, source: error })
    } else {
        outcome == Ok::<T, MiddlewareError<M::Error>>(input)
    }
}

/// A middleware that gives one answer to each value: its answer does not
/// depend on anything but the value.
pub open spec fn single_valued<T, M: Middleware<T>>(middleware: M) -> bool {
    forall|input: T, one: Result<T, M::Error>, other: Result<T, M::Error>|
        #![trigger middleware.permits(input, one), middleware.permits(input, other)]
        middleware.permits(input, one) && middleware.permits(input, other) ==> one == other
}

/// A value that the middleware at `from` may make of `input` and from which
/// the rest of the chain may end with `outcome`, where there is such a value.
spec fn passed_on<T, M: Middleware<T>>(
    chain: Seq<M>,
    from: int,
    input: T,
    outcome: Result<T, MiddlewareError<M::Error>>,
) -> T {
    choose|next: T| #[trigger]
        chain[from].permits(input, Ok(next)) && chain_permits(chain, from + 1, next, outcome)
}

/// Whether the chain, run from `from` on `input`, may end with `outcome` by
/// way of the middleware at `from` passing a value on.
spec fn goes_on<T, M: Middleware<T>>(
    chain: Seq<M>,
    from: int,
    input: T,
    outcome: Result<T, MiddlewareError<M::Error>>,
) -> bool {
    let next = passed_on(chain, from, input, outcome);
    0 <= from < chain.len() && chain[from].permits(input, Ok(next)) && chain_permits(
        chain,
        from + 1,
        next,
        outcome,
    )
}

/// A failure of a chain names a middleware of the chain, at or after the
/// position from which the chain was run.
pub proof fn lemma_failure_index<T, M: Middleware<T>>(
    chain: Seq<M>,
    from: int,
    input: T,
    failure: MiddlewareError<M::Error>,
)
    requires
        0 <= from,
        chain.len() <= usize::MAX,
        chain_permits(chain, from, input, Err(failure)),
    ensures
        from <= failure.index < chain.len(),
    decreases chain.len() - from,
{
    if goes_on(chain, from, input, Err(failure)) {
        lemma_failure_index(
            chain,
            from + 1,
            passed_on(chain, from, input, Err(failure)),
            failure,
        );
    }
}

/// Short circuit. Where the middleware before position `at` take `input` to
/// `reached` and the middleware at `at` fails on `reached`, the chain fails
/// with that failure and that position, whatever stands after `at`.
pub proof fn lemma_chain_stops_at_failure<T, M: Middleware<T>>(
    chain: Seq<M>,
    at: int,
    input: T,
    reached: T,
    error: M::Error,
)
    requires
        0 <= at < chain.len(),
        chain_permits(chain.take(at), 0, input, Ok(reached)),
        chain[at].permits(reached, Err(error)),
    ensures
        chain_permits(chain, 0, input, Err(MiddlewareError { index: at as usize, source: error })),
{
    lemma_stops_from(chain, 0, at, input, reached, error);
}

proof fn lemma_stops_from<T, M: Middleware<T>>(
    chain: Seq<M>,
    from: int,
    at: int,
    input: T,
    reached: T,
    error: M::Error,
)
    requires
        0 <= from <= at < chain.len(),
        chain_permits(chain.take(at), from, input, Ok(reached)),
        chain[at].permits(reached, Err(error)),
    ensures
        chain_permits(
            chain,
            from,
            input,
            Err(MiddlewareError { index: at as usize, source: error }),
        ),
    decreases at - from,
{
    if from < at {
        let next = passed_on(chain.take(at), from, input, Ok(reached));
        lemma_stops_from(chain, from + 1, at, next, reached, error);
        assert(chain[from].permits(input, Ok(next)));
    }
}

/// What stands after the middleware that failed does not matter: a failure
/// that one chain permits is permitted by every chain that has the same
/// middleware up to and including the one that failed.
pub proof fn lemma_failure_ignores_rest<T, M: Middleware<T>>(
    chain: Seq<M>,
    other: Seq<M>,
    input: T,
    failure: MiddlewareError<M::Error>,
)
    requires
        chain.len() <= usize::MAX,
        other.len() > failure.index,
        chain_permits(chain, 0, input, Err(failure)),
        forall|i: int| 0 <= i <= failure.index ==> chain[i] == other[i],
    ensures
        chain_permits(other, 0, input, Err(failure)),
{
    lemma_ignores_rest_from(chain, other, 0, input, failure);
}

proof fn lemma_ignores_rest_from<T, M: Middleware<T>>(
    chain: Seq<M>,
    other: Seq<M>,
    from: int,
    input: T,
    failure: MiddlewareError<M::Error>,
)
    requires
        0 <= from,
        chain.len() <= usize::MAX,
        other.len() > failure.index,
        chain_permits(chain, from, input, Err(failure)),
        forall|i: int| 0 <= i <= failure.index ==> chain[i] == other[i],
    ensures
        chain_permits(other, from, input, Err(failure)),
    decreases chain.len() - from,
{
    lemma_failure_index(chain, from, input, failure);
    assert(chain[from] == other[from]);
    if goes_on(chain, from, input, Err(failure)) {
        let next = passed_on(chain, from, input, Err(failure));
        lemma_ignores_rest_from(chain, other, from + 1, next, failure);
        assert(other[from].permits(input, Ok(next)));
    }
}

/// Composition. Where one chain takes `input` to `reached` and a second
/// takes `reached` to `result`, the two in a row take `input` to `result`:
/// what the second chain is given is what the first has made.
pub proof fn lemma_chain_composes<T, M: Middleware<T>>(
    first: Seq<M>,
    second: Seq<M>,
    input: T,
    reached: T,
    result: T,
)
    requires
        chain_permits(first, 0, input, Ok(reached)),
        chain_permits(second, 0, reached, Ok(result)),
    ensures
        chain_permits(first + second, 0, input, Ok(result)),
{
    lemma_composes_from(first, second, 0, input, reached, result);
}

proof fn lemma_shifted<T, M: Middleware<T>>(
    first: Seq<M>,
    second: Seq<M>,
    from: int,
    input: T,
    result: T,
)
    requires
        0 <= from,
        chain_permits(second, from, input, Ok(result)),
    ensures
        chain_permits(first + second, first.len() + from, input, Ok(result)),
    decreases second.len() - from,
{
    if from < second.len() {
        let next = passed_on(second, from, input, Ok(result));
        lemma_shifted(first, second, from + 1, next, result);
        assert((first + second)[first.len() + from].permits(input, Ok(next)));
    }
}

proof fn lemma_composes_from<T, M: Middleware<T>>(
    first: Seq<M>,
    second: Seq<M>,
    from: int,
    input: T,
    reached: T,
    result: T,
)
    requires
        0 <= from <= first.len(),
        chain_permits(first, from, input, Ok(reached)),
        chain_permits(second, 0, reached, Ok(result)),
    ensures
        chain_permits(first + second, from, input, Ok(result)),
    decreases first.len() - from,
{
    if from < first.len() {
        let next = passed_on(first, from, input, Ok(reached));
        lemma_composes_from(first, second, from + 1, next, reached, result);
        assert((first + second)[from].permits(input, Ok(next)));
    } else {
        lemma_shifted(first, second, 0, input, result);
    }
}

/// Determinism. A chain of middleware that each give one answer to each
/// value gives one answer to each value: run twice on the same input, it
/// ends twice with the same result or the same failure.
pub proof fn lemma_chain_deterministic<T, M: Middleware<T>>(
    chain: Seq<M>,
    input: T,
    one: Result<T, MiddlewareError<M::Error>>,
    other: Result<T, MiddlewareError<M::Error>>,
)
    requires
        forall|i: int| 0 <= i < chain.len() ==> single_valued(#[trigger] chain[i]),
        chain_permits(chain, 0, input, one),
        chain_permits(chain, 0, input, other),
    ensures
        one == other,
{
    lemma_deterministic_from(chain, 0, input, one, other);
}

proof fn lemma_deterministic_from<T, M: Middleware<T>>(
    chain: Seq<M>,
    from: int,
    input: T,
    one: Result<T, MiddlewareError<M::Error>>,
    other: Result<T, MiddlewareError<M::Error>>,
)
    requires
        0 <= from,
        forall|i: int| 0 <= i < chain.len() ==> single_valued(#[trigger] chain[i]),
        chain_permits(chain, from, input, one),
        chain_permits(chain, from, input, other),
    ensures
        one == other,
    decreases chain.len() - from,
{
    if from < chain.len() {
        assert(single_valued(chain[from]));
        if goes_on(chain, from, input, one) && goes_on(chain, from, input, other) {
            lemma_deterministic_from(
                chain,
                from + 1,
                passed_on(chain, from, input, one),
                one,
                other,
            );
        }
    }
}

/// What a chain does next.
pub enum ChainStep<T, E> {
    /// Apply the middleware at `index` to `value`.
    Apply { index: usize, value: T },
    /// Every middleware has been applied; the value is what they made of the
    /// input.
    Done(T),
    /// A middleware has failed, and with it the chain.
    Failed(MiddlewareError<E>),
}

/// What a chain of `chain_len` middleware does with `value` when the
/// middleware before `index` have been applied: the middleware at `index` is
/// next if there is one, else the chain is done.
pub open spec fn chain_at<T, E>(chain_len: usize, index: int, value: T) -> ChainStep<T, E> {
    if index < chain_len {
        ChainStep::Apply { index: index as usize, value }
    } else {
        ChainStep::Done(value)
    }
}

/// What a chain does once the middleware at `index` has answered: with a
/// value it goes on behind `index`, with a failure it fails.
pub open spec fn chain_after<T, E>(chain_len: usize, index: usize, outcome: Result<T, E>) -> ChainStep<
    T,
    E,
> {
    match outcome {
        Ok(value) => chain_at(chain_len, index + 1, value),
        Err(error) => ChainStep::Failed(MiddlewareError { index, source: error }),
    }
}

/// The middleware still to be applied when `step` is next.
pub open spec fn chain_left<T, E>(chain_len: usize, step: ChainStep<T, E>) -> int {
    match step {
        ChainStep::Apply { index, .. } => chain_len - index,
        _ => 0,
    }
}

/// The first step of a chain of `chain_len` middleware on `value`.
pub fn chain_start<T, E>(chain_len: usize, value: T) -> (step: ChainStep<T, E>)
    ensures
        step == chain_at::<T, E>(chain_len, 0, value),
{
    if 0 < chain_len {
        ChainStep::Apply { index: 0, value }
    } else {
        ChainStep::Done(value)
    }
}

/// The step that follows the answer of the middleware at `index`. A failure
/// ends the chain there: no later middleware is asked, and the failure is
/// handed on as it came, with `index`. A value goes to the middleware after
/// `index`, or is the result of the chain when `index` was the last.
pub fn chain_step<T, E>(chain_len: usize, index: usize, outcome: Result<T, E>) -> (step: ChainStep<
    T,
    E,
>)
    requires
        index < chain_len,
    ensures
        step == chain_after(chain_len, index, outcome),
{
    match outcome {
        Ok(value) => if index + 1 < chain_len {
            ChainStep::Apply { index: index + 1, value }
        } else {
            ChainStep::Done(value)
        },
        Err(error) => ChainStep::Failed(MiddlewareError { index, source: error }),
    }
}

/// Runs the chain on `value`: each middleware is applied to the result of the
/// one before it, the first to `value`. At the first failure the run stops,
/// no later middleware is applied, and the failure is returned as it came,
/// with the position of the middleware that failed. An empty chain returns
/// `value`.
pub fn run_chain<T, M: Middleware<T>>(chain: &Vec<M>, value: T) -> (outcome: Result<
    T,
    MiddlewareError<M::Error>,
>)
    ensures
        chain_permits(chain@, 0, value, outcome),
        chain@.len() == 0 ==> outcome == Ok::<T, MiddlewareError<M::Error>>(value),
{
    let mut step: ChainStep<T, M::Error> = chain_start(chain.len(), value);
    loop
        invariant
            chain@.len() == 0 ==> step == ChainStep::<T, M::Error>::Done(value),
            match step {
                ChainStep::Apply { index, value: current } => {
                    &&& index < chain@.len()
                    &&& forall|end: Result<T, MiddlewareError<M::Error>>|
                        chain_permits(chain@, index as int, current, end) ==> chain_permits(
                            chain@,
                            0,
                            value,
                            end,
                        )
                },
                ChainStep::Done(result) => chain_permits(chain@, 0, value, Ok(result)),
                ChainStep::Failed(failure) => chain_permits(chain@, 0, value, Err(failure)),
            },
        decreases chain_left(chain.len(), step),
    {
        match step {
            ChainStep::Apply { index, value: current } => {
                let applied = chain[index].apply(current);
                let ghost answered = applied;
                step = chain_step(chain.len(), index, applied);
                proof {
                    if answered is Ok {
                        let next = answered->Ok_0;
                        assert forall|end: Result<T, MiddlewareError<M::Error>>|
                            chain_permits(chain@, index + 1, next, end) implies chain_permits(
                            chain@,
                            0,
                            value,
                            end,
                        ) by {
                            assert(chain_permits(chain@, index as int, current, end));
                        }
                    }
                }
            },
            ChainStep::Done(result) => {
                return Ok(result);
            },
            ChainStep::Failed(failure) => {
                return Err(failure);
            },
        }
    }
}

} // verus!
