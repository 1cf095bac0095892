//! What it means for a chain of rules to settle an edit, stated for any chain.
//!
//! A chain of `n` rules is described by a relation `answers`: `answers(i, out)`
//! holds when rule `i`, asked about the edit, may answer `out`. `Some(delta)`
//! is acceptance with the replacement delta, `None` declines.

use vstd::prelude::*;
use crate::delta::{trim_spec, Delta, OperationModel};
use crate::errors::{OTError, OTErrorCode};

verus! {

/// The relation between a position in a chain and what the rule there may
/// answer.
pub type Answers = spec_fn(int, Option<Seq<OperationModel>>) -> bool;

/// Every rule before position `i` declines.
pub open spec fn declines_before(answers: Answers, i: int) -> bool {
    forall|j: int| 0 <= j < i ==> #[trigger] answers(j, None)
}

/// Rule `i` is the first of the chain to accept, and it accepts with
/// `candidate`.
pub open spec fn accepted_at(
    n: nat,
    answers: Answers,
    i: int,
    candidate: Seq<OperationModel>,
) -> bool {
    &&& 0 <= i < n
    &&& answers(i, Some(candidate))
    &&& declines_before(answers, i)
}

/// The outcome of walking a chain of `n` rules: `Some((i, delta))` when rule
/// `i` is the first to accept and `delta` is its normalized answer, `None`
/// when every rule declines.
pub open spec fn dispatched(
    n: nat,
    answers: Answers,
    outcome: Option<(int, Seq<OperationModel>)>,
) -> bool {
    match outcome {
        Some((i, delta)) => settled_at(n, answers, i, delta),
        None => declines_before(answers, n as int),
    }
}

/// Rule `i` is the first to accept, and `delta` is its normalized answer.
pub open spec fn settled_at(n: nat, answers: Answers, i: int, delta: Seq<OperationModel>) -> bool {
    exists|candidate: Seq<OperationModel>| #[trigger]
        accepted_at(n, answers, i, candidate) && delta == trim_spec(candidate)
}

/// Each rule of the chain has one answer only.
pub open spec fn single_valued(n: nat, answers: Answers) -> bool {
    forall|i: int, a: Option<Seq<OperationModel>>, b: Option<Seq<OperationModel>>|
        0 <= i < n && #[trigger] answers(i, a) && #[trigger] answers(i, b) ==> a == b
}

/// Rule `i` never declines.
pub open spec fn total_at(answers: Answers, i: int) -> bool {
    !answers(i, None)
}

/// Two chains agree on every rule up to and including position `i`.
pub open spec fn agree_through(first: Answers, second: Answers, i: int) -> bool {
    forall|j: int, out: Option<Seq<OperationModel>>|
        0 <= j <= i ==> (#[trigger] first(j, out) <==> second(j, out))
}

/// Determinism: when each rule has one answer only, a chain has one outcome
/// only.
pub proof fn lemma_dispatch_deterministic(
    n: nat,
    answers: Answers,
    first: Option<(int, Seq<OperationModel>)>,
    second: Option<(int, Seq<OperationModel>)>,
)
    requires
        single_valued(n, answers),
        dispatched(n, answers, first),
        dispatched(n, answers, second),
    ensures
        first == second,
{
    match (first, second) {
        (Some((i, d)), Some((k, e))) => {
            let c = choose|c: Seq<OperationModel>| #[trigger]
                accepted_at(n, answers, i, c) && d == trim_spec(c);
            let b = choose|b: Seq<OperationModel>| #[trigger]
                accepted_at(n, answers, k, b) && e == trim_spec(b);
            if i < k {
                assert(answers(i, None));
            } else if k < i {
                assert(answers(k, None));
            }
            assert(Some(c) == Some(b));
        },
        (Some((i, d)), None) => {
            let c = choose|c: Seq<OperationModel>| #[trigger]
                accepted_at(n, answers, i, c) && d == trim_spec(c);
            assert(answers(i, None));
            assert(Some(c) == None::<Seq<OperationModel>>);
        },
        (None, Some((k, e))) => {
            let b = choose|b: Seq<OperationModel>| #[trigger]
                accepted_at(n, answers, k, b) && e == trim_spec(b);
            assert(answers(k, None));
            assert(Some(b) == None::<Seq<OperationModel>>);
        },
        (None, None) => {},
    }
}

/// First match wins: once rule `i` is the first to accept, the outcome is its
/// normalized answer whatever the rules after it would say, and however many
/// of them there are.
pub proof fn lemma_first_match_wins(
    n: nat,
    answers: Answers,
    m: nat,
    others: Answers,
    i: int,
    candidate: Seq<OperationModel>,
)
    requires
        accepted_at(n, answers, i, candidate),
        i < m,
        agree_through(answers, others, i),
    ensures
        dispatched(n, answers, Some((i, trim_spec(candidate)))),
        dispatched(m, others, Some((i, trim_spec(candidate)))),
{
    assert(others(i, Some(candidate)));
    assert forall|j: int| 0 <= j < i implies #[trigger] others(j, None) by {
        assert(answers(j, None));
    }
    assert(accepted_at(m, others, i, candidate));
    lemma_accepted_is_dispatched(n, answers, i, candidate);
    lemma_accepted_is_dispatched(m, others, i, candidate);
}

/// The normalized answer of the first rule to accept is an outcome of the
/// chain.
pub proof fn lemma_accepted_is_dispatched(
    n: nat,
    answers: Answers,
    i: int,
    candidate: Seq<OperationModel>,
)
    requires
        accepted_at(n, answers, i, candidate),
    ensures
        dispatched(n, answers, Some((i, trim_spec(candidate)))),
{
    assert(settled_at(n, answers, i, trim_spec(candidate)));
}

/// When each rule has one answer only and rule `i` is the first to accept,
/// every outcome of the chain is that rule's normalized answer.
pub proof fn lemma_first_match_decides(
    n: nat,
    answers: Answers,
    i: int,
    candidate: Seq<OperationModel>,
    outcome: Option<(int, Seq<OperationModel>)>,
)
    requires
        single_valued(n, answers),
        accepted_at(n, answers, i, candidate),
        dispatched(n, answers, outcome),
    ensures
        outcome == Some((i, trim_spec(candidate))),
{
    lemma_accepted_is_dispatched(n, answers, i, candidate);
    lemma_dispatch_deterministic(n, answers, outcome, Some((i, trim_spec(candidate))));
}

/// A chain without rules settles nothing.
pub proof fn lemma_empty_chain_fails(
    answers: Answers,
    outcome: Option<(int, Seq<OperationModel>)>,
)
    requires
        dispatched(0, answers, outcome),
    ensures
        outcome is None,
{
    if let Some((i, d)) = outcome {
        let c = choose|c: Seq<OperationModel>| #[trigger]
            accepted_at(0, answers, i, c) && d == trim_spec(c);
    }
}

/// A chain whose rules can only decline settles nothing.
pub proof fn lemma_declining_chain_fails(
    n: nat,
    answers: Answers,
    outcome: Option<(int, Seq<OperationModel>)>,
)
    requires
        forall|i: int, out: Option<Seq<OperationModel>>|
            0 <= i < n && #[trigger] answers(i, out) ==> out is None,
        dispatched(n, answers, outcome),
    ensures
        outcome is None,
{
    if let Some((i, d)) = outcome {
        let c = choose|c: Seq<OperationModel>| #[trigger]
            accepted_at(n, answers, i, c) && d == trim_spec(c);
        assert(answers(i, Some(c)));
    }
}

/// A chain that holds a rule which never declines always settles the edit, at
/// that rule or before it.
pub proof fn lemma_total_rule_succeeds(
    n: nat,
    answers: Answers,
    i: int,
    outcome: Option<(int, Seq<OperationModel>)>,
)
    requires
        0 <= i < n,
        total_at(answers, i),
        dispatched(n, answers, outcome),
    ensures
        outcome matches Some((k, _)) && k <= i,
{
    match outcome {
        Some((k, d)) => {
            let c = choose|c: Seq<OperationModel>| #[trigger]
                accepted_at(n, answers, k, c) && d == trim_spec(c);
            if k > i {
                assert(answers(i, None));
            }
        },
        None => {
            assert(answers(i, None));
        },
    }
}

/// The outcome of a walk as the chain laws speak of it.
pub open spec fn outcome_view(r: Result<(usize, Delta), OTError>) -> Option<
    (int, Seq<OperationModel>),
> {
    match r {
        Ok((i, delta)) => Some((i as int, delta@)),
        Err(_) => None,
    }
}

/// `r` is what a walk of a chain of `n` rules returns to the caller: the
/// normalized delta of the first rule that accepts, or the failure `code`
/// when every rule declines.
pub open spec fn resolved(
    n: nat,
    answers: Answers,
    code: OTErrorCode,
    r: Result<Delta, OTError>,
) -> bool {
    match r {
        Ok(delta) => exists|i: int| #[trigger] settled_at(n, answers, i, delta@),
        Err(e) => e.code == code && declines_before(answers, n as int),
    }
}

/// The model of what a walk returns to the caller.
pub open spec fn result_view(r: Result<Delta, OTError>) -> Result<Seq<OperationModel>, OTError> {
    match r {
        Ok(delta) => Ok(delta@),
        Err(e) => Err(e),
    }
}

/// Determinism: when each rule has one answer only, a walk has one result
/// only.
pub proof fn lemma_resolved_deterministic(
    n: nat,
    answers: Answers,
    code: OTErrorCode,
    first: Result<Delta, OTError>,
    second: Result<Delta, OTError>,
)
    requires
        single_valued(n, answers),
        resolved(n, answers, code, first),
        resolved(n, answers, code, second),
    ensures
        result_view(first) == result_view(second),
{
    let a: Option<(int, Seq<OperationModel>)> = match first {
        Ok(delta) => Some((choose|i: int| #[trigger] settled_at(n, answers, i, delta@), delta@)),
        Err(_) => None,
    };
    let b: Option<(int, Seq<OperationModel>)> = match second {
        Ok(delta) => Some((choose|i: int| #[trigger] settled_at(n, answers, i, delta@), delta@)),
        Err(_) => None,
    };
    lemma_dispatch_deterministic(n, answers, a, b);
}

/// First match wins: when each rule has one answer only and rule `i` is the
/// first to accept, the walk returns that rule's normalized answer.
pub proof fn lemma_resolved_by_first_match(
    n: nat,
    answers: Answers,
    code: OTErrorCode,
    i: int,
    candidate: Seq<OperationModel>,
    r: Result<Delta, OTError>,
)
    requires
        single_valued(n, answers),
        accepted_at(n, answers, i, candidate),
        resolved(n, answers, code, r),
    ensures
        result_view(r) == Ok::<Seq<OperationModel>, OTError>(trim_spec(candidate)),
{
    let a: Option<(int, Seq<OperationModel>)> = match r {
        Ok(delta) => Some((choose|k: int| #[trigger] settled_at(n, answers, k, delta@), delta@)),
        Err(_) => None,
    };
    lemma_first_match_decides(n, answers, i, candidate, a);
}

/// Exhaustion: a walk of a chain without rules, or of one whose rules can
/// only decline, returns the failure `code`.
pub proof fn lemma_resolved_exhausted(
    n: nat,
    answers: Answers,
    code: OTErrorCode,
    r: Result<Delta, OTError>,
)
    requires
        forall|i: int, out: Option<Seq<OperationModel>>|
            0 <= i < n && #[trigger] answers(i, out) ==> out is None,
        resolved(n, answers, code, r),
    ensures
        r == Err::<Delta, OTError>(OTError { code }),
{
    let a: Option<(int, Seq<OperationModel>)> = match r {
        Ok(delta) => Some((choose|k: int| #[trigger] settled_at(n, answers, k, delta@), delta@)),
        Err(_) => None,
    };
    lemma_declining_chain_fails(n, answers, a);
}

/// A walk of a chain that holds a rule which never declines returns a delta.
pub proof fn lemma_resolved_by_total_rule(
    n: nat,
    answers: Answers,
    code: OTErrorCode,
    i: int,
    r: Result<Delta, OTError>,
)
    requires
        0 <= i < n,
        total_at(answers, i),
        resolved(n, answers, code, r),
    ensures
        r is Ok,
{
    if r is Err {
        assert(answers(i, None));
    }
}

} // verus!
