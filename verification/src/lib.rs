//! A lazy, composable iteration abstraction whose advance step can fail.
//!
//! The [`Iterrator`] trait generalizes the usual "next element or end"
//! iterator contract: each step returns a value, end-of-sequence, or an
//! error. Adaptors ([`Take`], [`Mapped`]) wrap a source without consuming
//! any element eagerly, and the terminal [`IterratorExt::fold`] drains a chain
//! into one accumulated value, short-circuiting on the first error.

use vstd::prelude::*;

mod laws;

pub use laws::iter_at;
pub use laws::lemma_take_closed;
pub use laws::lemma_take_structure;
pub use laws::lemma_take_bound_reached;
pub use laws::lemma_take_bound_exact;
pub use laws::lemma_map_structure;
pub use laws::lemma_fold_error_short_circuit;
pub use laws::lemma_fold_within_extend;
pub use laws::lemma_fold_result_unique;

verus! {

/// An iterator that only iterates over the first `n` iterations of `iter`.
///
/// This `struct` is created by the `take()` method of [`IterratorExt`]
#[must_use]
#[derive(Clone)]
pub struct Take<I> {
    /// The wrapped iterator; it is never advanced once `n` has reached zero.
    pub iter: I,
    /// How many more elements may be yielded before this wrapper reports
    /// end-of-sequence on its own.
    pub n: usize,
}

/// An iterator that applies a transformation to each element of `iter`.
///
/// This `struct` is created by the `map()` method of [`IterratorExt`]
#[must_use]
#[derive(Clone)]
pub struct Mapped<I, F> {
    /// The wrapped iterator.
    pub iter: I,
    /// The transformation applied to each yielded element.
    pub f: F,
}

/// A transformation of single elements, used by [`Mapped`].
///
/// Implementers describe the transformation once as the spec function
/// `spec_apply` and prove that the executable `apply` computes it.
pub trait Transform<A> {
    /// The type an element is transformed into.
    type Output;

    /// What the transformation returns on `x`.
    spec fn spec_apply(&self, x: A) -> Self::Output;

    /// Apply the transformation to one element.
    fn apply(&self, x: A) -> (r: Self::Output)
        ensures
            r == self.spec_apply(x),
    ;
}

/// A function combining an accumulator with one element, used by
/// [`IterratorExt::fold`].
///
/// Implementers describe the combination once as the spec function
/// `spec_combine` and prove that the executable `combine` computes it.
pub trait Combine<B, A> {
    /// What combining the accumulator `acc` with the element `x` yields.
    spec fn spec_combine(&self, acc: B, x: A) -> B;

    /// Combine the accumulator with one element.
    fn combine(&self, acc: B, x: A) -> (r: B)
        ensures
            r == self.spec_combine(acc, x),
    ;
}

/// The outcome of transforming one step outcome: a yielded element is
/// transformed, while end-of-sequence and errors pass through untouched.
pub open spec fn transformed_step<A, F: Transform<A>, E>(
    f: F,
    o: Result<Option<A>, E>,
) -> Result<Option<F::Output>, E> {
    match o {
        Ok(Some(x)) => Ok(Some(f.spec_apply(x))),
        Ok(None) => Ok(None),
        Err(e) => Err(e),
    }
}

/// The result of folding `f` over the elements of `it`, starting from `acc`,
/// when the iterator ends or fails within at most `fuel` yielded elements;
/// `None` if more than `fuel` elements are yielded first.
///
/// An error stops the fold at once and discards the accumulator; the
/// combining function is never consulted on an error or end-of-sequence
/// outcome.
pub open spec fn fold_within<I: Iterrator, B, F: Combine<B, I::Item>>(
    it: I,
    acc: B,
    f: F,
    fuel: nat,
) -> Option<Result<B, I::Error>>
    decreases fuel,
{
    match it.head() {
        Err(e) => Some(Err(e)),
        Ok(None) => Some(Ok(acc)),
        Ok(Some(x)) => if fuel == 0 {
            None
        } else {
            fold_within(it.tail(), f.spec_combine(acc, x), f, (fuel - 1) as nat)
        },
    }
}

/// An iterator which may or may not succeed to advance to its next element
pub trait Iterrator: Sized {
    /// The type of the yielded elements.
    type Item;

    /// The type carried by a failed step.
    type Error;

    /// The outcome the next call to `next` produces: a yielded element, the
    /// end of the sequence, or an error.
    spec fn head(&self) -> Result<Option<Self::Item>, Self::Error>;

    /// The state one call to `next` leaves this iterator in.
    spec fn tail(&self) -> Self;

    /// Advances the iterator and returns the next value
    ///
    /// If advancing fails it will return `Err(Error)`. Returns `Ok(None)` when iteration is
    /// finished, otherwise `Ok(Some(Item))` is returned.
    fn next(&mut self) -> (r: Result<Option<Self::Item>, Self::Error>)
        ensures
            r == old(self).head(),
            *final(self) == old(self).tail(),
    ;
}

/// The composable operations every [`Iterrator`] offers, built purely in
/// terms of the stepping capability. A blanket implementation equips every
/// implementer of [`Iterrator`] with them.
pub trait IterratorExt: Iterrator {
    /// An iterator adaptor that applies a function, producing a single, final value.
    ///
    /// The elements are combined in iteration order; the first error stops
    /// the traversal at once, and the accumulator built so far is discarded.
    fn fold<B, F: Combine<B, Self::Item>>(self, init: B, f: F) -> (r: Result<B, Self::Error>)
        requires
            exists|fuel: nat| (#[trigger] fold_within(self, init, f, fuel)) is Some,
        ensures
            exists|fuel: nat| #[trigger] fold_within(self, init, f, fuel) == Some(r),
            forall|fuel: nat| (#[trigger] fold_within(self, init, f, fuel)) is Some
                ==> fold_within(self, init, f, fuel) == Some(r),
    ;

    /// Takes a transformation and creates an iterator which applies it to each element.
    ///
    /// Construction is lazy: the wrapped iterator is embedded untouched, and
    /// no element is consumed until the result is driven.
    fn map<F: Transform<Self::Item>>(self, f: F) -> (r: Mapped<Self, F>)
        ensures
            r.iter == self,
            r.f == f,
    ;

    /// Creates an iterator that yields its first n elements.
    ///
    /// Construction is lazy: the wrapped iterator is embedded untouched, and
    /// no element is consumed until the result is driven.
    fn take(self, n: usize) -> (r: Take<Self>)
        ensures
            r.iter == self,
            r.n == n,
    ;
}

impl<T: Iterrator> IterratorExt for T {
    #[verifier::loop_isolation(false)]
    fn fold<B, F: Combine<B, Self::Item>>(self, init: B, f: F) -> (r: Result<B, Self::Error>)
        ensures
            exists|fuel: nat| #[trigger] fold_within(self, init, f, fuel) == Some(r),
            forall|fuel: nat| (#[trigger] fold_within(self, init, f, fuel)) is Some
                ==> fold_within(self, init, f, fuel) == Some(r),
    {
        let ghost orig = self;
        let mut it = self;
        let mut acc = init;
        let ghost mut steps: nat = 0;
        let ghost mut fuel: nat = choose|n: nat| (#[trigger] fold_within(orig, init, f, n)) is Some;
        loop
            invariant
                fold_within(it, acc, f, fuel) is Some,
                forall|k: nat| #[trigger] fold_within(it, acc, f, k)
                    == fold_within(orig, init, f, steps + k),
            decreases fuel,
        {
            let ghost pre = it;
            let ghost acc0 = acc;
            let ghost fuel0 = fuel;
            let ghost steps0 = steps;
            match it.next() {
                Err(e) => {
                    proof {
                        assert(fold_within(orig, init, f, steps)
                            == Some(Err::<B, Self::Error>(e)));
                        lemma_fold_result_unique(orig, init, f, steps, Err(e));
                    }
                    return Err(e);
                },
                Ok(None) => {
                    proof {
                        assert(fold_within(orig, init, f, steps)
                            == Some(Ok::<B, Self::Error>(acc)));
                        lemma_fold_result_unique(orig, init, f, steps, Ok(acc));
                    }
                    return Ok(acc);
                },
                Ok(Some(x)) => {
                    acc = f.combine(acc, x);
                    proof {
                        assert(fold_within(pre, acc0, f, fuel0) is Some);
                        if fuel0 == 0 {
                            assert(fold_within(pre, acc0, f, 0) is None);
                        }
                        fuel = (fuel0 - 1) as nat;
                        steps = steps + 1;
                        assert(fold_within(pre, acc0, f, fuel0)
                            == fold_within(it, acc, f, fuel));
                        assert forall|k: nat| #[trigger] fold_within(it, acc, f, k)
                            == fold_within(orig, init, f, steps + k) by {
                            assert(fold_within(pre, acc0, f, k + 1)
                                == fold_within(it, acc, f, k));
                            assert(fold_within(pre, acc0, f, k + 1)
                                == fold_within(orig, init, f, steps0 + (k + 1)));
                        }
                    }
                },
            }
        }
    }

    fn map<F: Transform<Self::Item>>(self, f: F) -> (r: Mapped<Self, F>)
        ensures
            r.iter == self,
            r.f == f,
    {
        Mapped { iter: self, f }
    }

    fn take(self, n: usize) -> (r: Take<Self>)
        ensures
            r.iter == self,
            r.n == n,
    {
        Take { iter: self, n }
    }
}

impl<I: Iterrator> Iterrator for Take<I> {
    type Item = I::Item;

    type Error = I::Error;

    /// While the bound is positive the wrapped iterator decides the outcome;
    /// once it reaches zero the wrapper reports end-of-sequence on its own.
    open spec fn head(&self) -> Result<Option<I::Item>, I::Error> {
        if self.n == 0 {
            Ok(None)
        } else {
            self.iter.head()
        }
    }

    /// A step while the bound is positive advances the wrapped iterator and
    /// lowers the bound by one, whatever the outcome was; a step at bound
    /// zero leaves the wrapper untouched.
    open spec fn tail(&self) -> Take<I> {
        if self.n == 0 {
            *self
        } else {
            (Take { iter: self.iter.tail(), n: (self.n - 1) as usize })
        }
    }

    fn next(&mut self) -> (r: Result<Option<I::Item>, I::Error>)
        ensures
            r == old(self).head(),
            *final(self) == old(self).tail(),
    {
        if self.n != 0 {
            self.n = self.n - 1;
            self.iter.next()
        } else {
            Ok(None)
        }
    }
}

impl<I: Iterrator, F: Transform<I::Item>> Iterrator for Mapped<I, F> {
    type Item = F::Output;

    type Error = I::Error;

    /// A yielded element of the wrapped iterator comes out transformed;
    /// end-of-sequence and errors pass through untouched, and the
    /// transformation is never consulted on them.
    open spec fn head(&self) -> Result<Option<F::Output>, I::Error> {
        transformed_step(self.f, self.iter.head())
    }

    /// Each step advances the wrapped iterator by one step.
    open spec fn tail(&self) -> Mapped<I, F> {
        (Mapped { iter: self.iter.tail(), f: self.f })
    }

    fn next(&mut self) -> (r: Result<Option<F::Output>, I::Error>)
        ensures
            r == old(self).head(),
            *final(self) == old(self).tail(),
    {
        match self.iter.next() {
            Ok(Some(x)) => Ok(Some(self.f.apply(x))),
            Ok(None) => Ok(None),
            Err(e) => Err(e),
        }
    }
}

} // verus!
