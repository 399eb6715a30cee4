use vstd::prelude::*;
use crate::error::Error;

verus! {

/// A retry budget: how many times one logical operation may be attempted.
#[derive(Debug)]
pub struct RetryPolicy {
    max_attempts: usize,
}

impl RetryPolicy {
    #[verifier::type_invariant]
    spec fn inv(self) -> bool {
        self.max_attempts >= 1
    }

    pub closed spec fn spec_max_attempts(&self) -> nat {
        self.max_attempts as nat
    }

    /// A budget of zero attempts is a configuration error.
    pub fn new(max_attempts: usize) -> (r: Result<RetryPolicy, Error>)
        ensures
            max_attempts == 0 <==> r is Err,
            r matches Ok(p) ==> p.spec_max_attempts() == max_attempts,
            r matches Err(e) ==> e is ConfigError,
    {
        if max_attempts == 0 {
            Err(Error::ConfigError(String::from_str("the retry budget must allow at least one attempt")))
        } else {
            Ok(RetryPolicy { max_attempts })
        }
    }

    pub fn max_attempts(&self) -> (r: usize)
        ensures
            r == self.spec_max_attempts(),
    {
        self.max_attempts
    }

    /// A fresh attempt counter for one operation under this budget.
    pub fn start<E>(&self) -> (r: Retry<E>)
        ensures
            r.spec_max() == self.spec_max_attempts(),
            r.spec_errors() == Seq::<E>::empty(),
    {
        proof {
            use_type_invariant(self);
        }
        Retry { max_attempts: self.max_attempts, errors: Vec::new() }
    }
}

/// Where one operation stands after some failed attempts: the budget and the
/// error of each failed attempt, oldest first.
pub struct Retry<E> {
    max_attempts: usize,
    errors: Vec<E>,
}

/// What an attempt outcome leads to, as a mathematical value.
pub enum Progress<T, E> {
    /// Attempt again; these errors have been seen so far.
    Again(Seq<E>),
    /// The operation succeeded with this value.
    Done(T),
    /// The budget is spent; these are the errors of all attempts.
    GaveUp(Seq<E>),
}

/// What an attempt outcome leads to.
pub enum RetryStep<T, E> {
    Again(Retry<E>),
    Done(T),
    GaveUp(Vec<E>),
}

/// The decision after one more attempt, given the budget and the errors so far.
pub open spec fn retry_step<T, E>(max: nat, errors: Seq<E>, outcome: Result<T, E>) -> Progress<T, E> {
    match outcome {
        Ok(v) => Progress::Done(v),
        Err(e) => if errors.len() + 1 < max {
            Progress::Again(errors.push(e))
        } else {
            Progress::GaveUp(errors.push(e))
        },
    }
}

/// Feeds the outcomes of successive attempts to the retry decision until it
/// stops. Gives the number of attempts consumed and where it stopped.
pub open spec fn retry_run<T, E>(max: nat, errors: Seq<E>, outcomes: Seq<Result<T, E>>) -> (nat, Progress<T, E>)
    decreases outcomes.len(),
{
    if outcomes.len() == 0 {
        (0, Progress::Again(errors))
    } else {
        match retry_step(max, errors, outcomes[0]) {
            Progress::Again(next) => {
                let (n, p) = retry_run(max, next, outcomes.drop_first());
                (n + 1, p)
            },
            stop => (1, stop),
        }
    }
}

/// The errors carried by a run of failed outcomes.
pub open spec fn errors_of<T, E>(outcomes: Seq<Result<T, E>>) -> Seq<E> {
    Seq::new(outcomes.len(), |i: int| outcomes[i]->Err_0)
}

pub open spec fn all_failed<T, E>(outcomes: Seq<Result<T, E>>) -> bool {
    forall|i: int| 0 <= i < outcomes.len() ==> (#[trigger] outcomes[i]) is Err
}

impl<E> Retry<E> {
    pub closed spec fn spec_max(&self) -> nat {
        self.max_attempts as nat
    }

    pub closed spec fn spec_errors(&self) -> Seq<E> {
        self.errors@
    }

    /// Fewer attempts have failed than the budget allows.
    #[verifier::type_invariant]
    spec fn inv(self) -> bool {
        self.errors@.len() < self.max_attempts
    }

    /// Number of attempts made so far (all of them failed).
    pub fn attempts(&self) -> (r: usize)
        ensures
            r == self.spec_errors().len(),
    {
        self.errors.len()
    }

    /// Records the outcome of one more attempt and decides what follows.
    pub fn next<T>(self, outcome: Result<T, E>) -> (r: RetryStep<T, E>)
        ensures
            r.progress() == retry_step(self.spec_max(), self.spec_errors(), outcome),
            r matches RetryStep::Again(n) ==> n.spec_max() == self.spec_max(),
    {
        proof {
            use_type_invariant(&self);
        }
        match outcome {
            Ok(v) => RetryStep::Done(v),
            Err(e) => {
                let mut errors = self.errors;
                errors.push(e);
                if errors.len() < self.max_attempts {
                    RetryStep::Again(Retry { max_attempts: self.max_attempts, errors })
                } else {
                    RetryStep::GaveUp(errors)
                }
            },
        }
    }
}

impl<T, E> RetryStep<T, E> {
    pub closed spec fn progress(&self) -> Progress<T, E> {
        match self {
            RetryStep::Again(r) => Progress::Again(r.errors@),
            RetryStep::Done(v) => Progress::Done(*v),
            RetryStep::GaveUp(errs) => Progress::GaveUp(errs@),
        }
    }
}

proof fn lemma_run_failing<T, E>(max: nat, errors: Seq<E>, outcomes: Seq<Result<T, E>>)
    requires
        errors.len() < max,
        all_failed(outcomes),
        outcomes.len() >= max - errors.len(),
    ensures
        retry_run(max, errors, outcomes) == (
            (max - errors.len()) as nat,
            Progress::<T, E>::GaveUp(errors + errors_of(outcomes.subrange(0, max - errors.len()))),
        ),
    decreases outcomes.len(),
{
    let e = outcomes[0]->Err_0;
    let rest = outcomes.drop_first();
    let k = max - errors.len();
    if errors.len() + 1 < max {
        assert(all_failed(rest)) by {
            assert forall|i: int| 0 <= i < rest.len() implies (#[trigger] rest[i]) is Err by {
                assert(rest[i] == outcomes[i + 1]);
            }
        }
        lemma_run_failing(max, errors.push(e), rest);
        assert(errors.push(e) + errors_of(rest.subrange(0, k - 1)) =~= errors + errors_of(
            outcomes.subrange(0, k),
        ));
    } else {
        assert(errors.push(e) =~= errors + errors_of(outcomes.subrange(0, k)));
    }
}

proof fn lemma_run_recovering<T, E>(max: nat, errors: Seq<E>, outcomes: Seq<Result<T, E>>, k: nat)
    requires
        errors.len() + k < max,
        k < outcomes.len(),
        all_failed(outcomes.subrange(0, k as int)),
        outcomes[k as int] is Ok,
    ensures
        retry_run(max, errors, outcomes) == (k + 1, Progress::<T, E>::Done(outcomes[k as int]->Ok_0)),
    decreases k,
{
    if k > 0 {
        let e = outcomes[0]->Err_0;
        assert(outcomes.subrange(0, k as int)[0] == outcomes[0]);
        let rest = outcomes.drop_first();
        assert(all_failed(rest.subrange(0, k - 1))) by {
            assert forall|i: int| 0 <= i < k - 1 implies (#[trigger] rest.subrange(0, k - 1)[i]) is Err by {
                assert(rest.subrange(0, k - 1)[i] == outcomes.subrange(0, k as int)[i + 1]);
            }
        }
        lemma_run_failing_step::<T, E>(max, errors, e);
        lemma_run_recovering(max, errors.push(e), rest, (k - 1) as nat);
    }
}

proof fn lemma_run_failing_step<T, E>(max: nat, errors: Seq<E>, e: E)
    requires
        errors.len() + 1 < max,
    ensures
        retry_step::<T, E>(max, errors, Err(e)) == Progress::<T, E>::Again(errors.push(e)),
{
}

/// An operation that fails on every attempt is attempted exactly as many times
/// as the budget allows, and the run ends exhausted with the error of every
/// attempt, in order.
pub proof fn lemma_retry_exhaustion<T, E>(max: nat, outcomes: Seq<Result<T, E>>)
    requires
        max >= 1,
        all_failed(outcomes),
        outcomes.len() >= max,
    ensures
        retry_run(max, Seq::<E>::empty(), outcomes) == (
            max,
            Progress::<T, E>::GaveUp(errors_of(outcomes.subrange(0, max as int))),
        ),
{
    lemma_run_failing(max, Seq::<E>::empty(), outcomes);
    assert(Seq::<E>::empty() + errors_of(outcomes.subrange(0, max as int)) =~= errors_of(
        outcomes.subrange(0, max as int),
    ));
}

/// An operation that fails on its first `k` attempts, `k` below the budget,
/// and then succeeds is attempted exactly `k + 1` times and the run ends with
/// that success.
pub proof fn lemma_retry_success<T, E>(max: nat, outcomes: Seq<Result<T, E>>, k: nat)
    requires
        k < max,
        k < outcomes.len(),
        all_failed(outcomes.subrange(0, k as int)),
        outcomes[k as int] is Ok,
    ensures
        retry_run(max, Seq::<E>::empty(), outcomes) == (k + 1, Progress::<T, E>::Done(outcomes[k as int]->Ok_0)),
{
    lemma_run_recovering(max, Seq::<E>::empty(), outcomes, k);
}

} // verus!
