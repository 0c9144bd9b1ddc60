//! General laws of the adaptors and of `fold`, stated over the step model
//! (`head`, `tail`) that every [`Iterrator`] carries.

use vstd::prelude::*;

use crate::Combine;
use crate::Iterrator;
use crate::Mapped;
use crate::Take;
use crate::Transform;
use crate::fold_within;
use crate::transformed_step;

verus! {

/// The state an iterator is left in by `k` calls to `next`.
pub open spec fn iter_at<I: Iterrator>(it: I, k: nat) -> I
    decreases k,
{
    if k == 0 {
        it
    } else {
        iter_at(it, (k - 1) as nat).tail()
    }
}

/// A closed bound is kept: once its count has reached zero, a `Take`
/// wrapper reports end-of-sequence on every later step and never advances
/// or alters the wrapped iterator again.
pub proof fn lemma_take_closed<I: Iterrator>(t: Take<I>, j: nat)
    requires
        t.n == 0,
    ensures
        iter_at(t, j) == t,
        iter_at(t, j).head() == Ok::<Option<I::Item>, I::Error>(None),
    decreases j,
{
    if j > 0 {
        lemma_take_closed(t, (j - 1) as nat);
    }
}

/// For the first `j <= n` steps, a `Take` wrapper advances in lockstep with
/// the wrapped iterator: after `j` steps it holds the source advanced `j`
/// times, with `n - j` elements still allowed.
pub proof fn lemma_take_structure<I: Iterrator>(t: Take<I>, j: nat)
    requires
        j <= t.n,
    ensures
        iter_at(t, j) == (Take { iter: iter_at(t.iter, j), n: (t.n - j) as usize }),
    decreases j,
{
    if j > 0 {
        lemma_take_structure(t, (j - 1) as nat);
    }
}

/// Bound exactness, bound side: whatever the source does — even one that
/// would yield elements without end — a `Take` wrapper repeats the source's
/// first `n` outcomes and then reports end-of-sequence at step `n`.
pub proof fn lemma_take_bound_reached<I: Iterrator>(t: Take<I>)
    ensures
        forall|j: nat| j < t.n
            ==> (#[trigger] iter_at(t, j).head()) == iter_at(t.iter, j).head(),
        iter_at(t, t.n as nat).head() == Ok::<Option<I::Item>, I::Error>(None),
{
    assert forall|j: nat| j < t.n
        implies (#[trigger] iter_at(t, j).head()) == iter_at(t.iter, j).head() by {
        lemma_take_structure(t, j);
    }
    lemma_take_structure(t, t.n as nat);
}

/// Bound exactness: over a source that yields an element at each of its
/// first `k` steps and then ends, `take(n)` yields exactly the source's
/// first `min(n, k)` elements and then reports end-of-sequence.
pub proof fn lemma_take_bound_exact<I: Iterrator>(t: Take<I>, k: nat)
    requires
        forall|j: nat| j < k ==> (#[trigger] iter_at(t.iter, j).head()) matches Ok(Some(_)),
        iter_at(t.iter, k).head() == Ok::<Option<I::Item>, I::Error>(None),
    ensures
        forall|j: nat| j < t.n && j < k
            ==> (#[trigger] iter_at(t, j).head()) == iter_at(t.iter, j).head(),
        t.n <= k ==> iter_at(t, t.n as nat).head() == Ok::<Option<I::Item>, I::Error>(None),
        k < t.n ==> iter_at(t, k).head() == Ok::<Option<I::Item>, I::Error>(None),
{
    lemma_take_bound_reached(t);
    if k < t.n {
        lemma_take_structure(t, k);
    }
}

/// A `Mapped` wrapper advances in lockstep with the wrapped iterator, and
/// each of its outcomes is the source's outcome at the same position with
/// the transformation applied to a yielded element only: end-of-sequence
/// and errors come through untouched, and the transformation is applied
/// exactly once per yielded element, in element order.
pub proof fn lemma_map_structure<I: Iterrator, F: Transform<I::Item>>(m: Mapped<I, F>, j: nat)
    ensures
        iter_at(m, j) == (Mapped { iter: iter_at(m.iter, j), f: m.f }),
        iter_at(m, j).head() == transformed_step(m.f, iter_at(m.iter, j).head()),
    decreases j,
{
    if j > 0 {
        lemma_map_structure(m, (j - 1) as nat);
    }
}

/// Error short-circuit: when the very next step of the source fails, `fold`
/// returns that error whatever the accumulator and combining function are;
/// the combining function is never consulted.
pub proof fn lemma_fold_error_short_circuit<I: Iterrator, B, F: Combine<B, I::Item>>(
    it: I,
    init: B,
    f: F,
)
    requires
        it.head() is Err,
    ensures
        forall|fuel: nat| #[trigger] fold_within(it, init, f, fuel)
            == Some(Err::<B, I::Error>(it.head()->Err_0)),
{
}

/// Once the fold finishes within some amount of fuel, any larger amount
/// gives the same result: together with the contract of `fold`, this pins
/// the returned value down to the one result the model allows.
pub proof fn lemma_fold_within_extend<I: Iterrator, B, F: Combine<B, I::Item>>(
    it: I,
    acc: B,
    f: F,
    fuel: nat,
    more: nat,
)
    requires
        fold_within(it, acc, f, fuel) is Some,
        fuel <= more,
    ensures
        fold_within(it, acc, f, more) == fold_within(it, acc, f, fuel),
    decreases fuel,
{
    match it.head() {
        Err(_) => {},
        Ok(None) => {},
        Ok(Some(x)) => {
            lemma_fold_within_extend(
                it.tail(),
                f.spec_combine(acc, x),
                f,
                (fuel - 1) as nat,
                (more - 1) as nat,
            );
        },
    }
}

/// Any amount of fuel that lets the fold finish gives the same result: a
/// fold has exactly one outcome, the one reached after its actual number of
/// steps.
pub proof fn lemma_fold_result_unique<I: Iterrator, B, F: Combine<B, I::Item>>(
    it: I,
    init: B,
    f: F,
    steps: nat,
    r: Result<B, I::Error>,
)
    requires
        fold_within(it, init, f, steps) == Some(r),
    ensures
        forall|fuel: nat| (#[trigger] fold_within(it, init, f, fuel)) is Some
            ==> fold_within(it, init, f, fuel) == Some(r),
{
    assert forall|fuel: nat| (#[trigger] fold_within(it, init, f, fuel)) is Some
        implies fold_within(it, init, f, fuel) == Some(r) by {
        if fuel <= steps {
            lemma_fold_within_extend(it, init, f, fuel, steps);
        } else {
            lemma_fold_within_extend(it, init, f, steps, fuel);
        }
    }
}

} // verus!
