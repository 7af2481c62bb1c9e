//! A value that may be absent.

use std::ops::ControlFlow;
use vstd::prelude::*;
use vstd::std_specs::cmp::{PartialEqSpec, PartialEqSpecImpl};

verus! {

/// Either a value or nothing. A blade that may vanish is a
/// `Maybe<NonzeroBasis<N>>`; `Nothing` is the zero of the algebra.
#[derive(Debug, Copy, Eq)]
pub enum Maybe<T> {
    Just(T),
    Nothing,
}

impl<T: Clone> Clone for Maybe<T> {
    fn clone(&self) -> (r: Self) {
        match self {
            Maybe::Just(value) => Maybe::Just(value.clone()),
            Maybe::Nothing => Maybe::Nothing,
        }
    }
}

impl<T: PartialEq> PartialEq for Maybe<T> {
    /// Two values are equal when both are `Nothing`, or both hold equal
    /// values.
    fn eq(&self, other: &Self) -> (r: bool) {
        match (self, other) {
            (Maybe::Just(a), Maybe::Just(b)) => a == b,
            (Maybe::Nothing, Maybe::Nothing) => true,
            _ => false,
        }
    }
}

impl<T: PartialEq> PartialEqSpecImpl for Maybe<T> {
    open spec fn obeys_eq_spec() -> bool {
        T::obeys_eq_spec()
    }

    open spec fn eq_spec(&self, other: &Self) -> bool {
        match (self, other) {
            (Maybe::Just(a), Maybe::Just(b)) => a.eq_spec(b),
            (Maybe::Nothing, Maybe::Nothing) => true,
            _ => false,
        }
    }
}

impl<T: View> View for Maybe<T> {
    type V = Maybe<T::V>;

    open spec fn view(&self) -> Maybe<T::V> {
        match self {
            Maybe::Just(value) => Maybe::Just(value@),
            Maybe::Nothing => Maybe::Nothing,
        }
    }
}

impl<T> Maybe<T> {
    /// The value that stands for a computation that ran to its end.
    pub fn from_output(output: T) -> (r: Self)
        ensures
            r == Maybe::Just(output),
    {
        Maybe::Just(output)
    }

    /// The value that stands for a computation that was cut short.
    pub fn from_residual(_residual: ()) -> (r: Self)
        ensures
            r is Nothing,
    {
        Maybe::Nothing
    }

    /// Says whether a computation goes on, and with what, or stops here.
    pub fn branch(self) -> (r: ControlFlow<(), T>)
        ensures
            r == match self {
                Maybe::Just(output) => ControlFlow::<(), T>::Continue(output),
                Maybe::Nothing => ControlFlow::<(), T>::Break(()),
            },
    {
        match self {
            Maybe::Just(output) => ControlFlow::Continue(output),
            Maybe::Nothing => ControlFlow::Break(()),
        }
    }
}

/// Whether folding `f` over `items` from `accum` can end in `result`: the
/// accumulator is handed from each item to the next, the fold stops with
/// `Nothing` at the first item for which `f` gives `Nothing`, and it ends
/// with the last accumulator when no item does.
pub open spec fn fold_result<A, T, F: Fn(A, T) -> Maybe<A>>(
    f: F,
    items: Seq<T>,
    accum: A,
    result: Maybe<A>,
) -> bool
    decreases items.len(),
{
    if items.len() == 0 {
        result == Maybe::Just(accum)
    } else {
        exists|step: Maybe<A>| #[trigger]
            f.ensures((accum, items[0]), step) && match step {
                Maybe::Just(next) => fold_result(f, items.drop_first(), next, result),
                Maybe::Nothing => result is Nothing,
            }
    }
}

/// Whether `f` may be called at every step of a fold over `items` from
/// `accum`, whatever the earlier steps gave.
pub open spec fn fold_callable<A, T, F: Fn(A, T) -> Maybe<A>>(f: F, items: Seq<T>, accum: A) -> bool
    decreases items.len(),
{
    items.len() > 0 ==> f.requires((accum, items[0])) && forall|next: A| #[trigger]
        f.ensures((accum, items[0]), Maybe::Just(next)) ==> fold_callable(
            f,
            items.drop_first(),
            next,
        )
}

/// The fold of a function that is given in the model: the result when every
/// step is determined by `g`.
pub open spec fn fold_by<A, T>(g: spec_fn(A, T) -> Maybe<A>, items: Seq<T>, accum: A) -> Maybe<A>
    decreases items.len(),
{
    if items.len() == 0 {
        Maybe::Just(accum)
    } else {
        match g(accum, items[0]) {
            Maybe::Just(next) => fold_by(g, items.drop_first(), next),
            Maybe::Nothing => Maybe::Nothing,
        }
    }
}

/// A function that may be called on every accumulator and every item may be
/// folded over the items.
pub proof fn lemma_fold_callable_everywhere<A, T, F: Fn(A, T) -> Maybe<A>>(
    f: F,
    items: Seq<T>,
    accum: A,
)
    requires
        forall|a: A, i: int| 0 <= i < items.len() ==> #[trigger] f.requires((a, items[i])),
    ensures
        fold_callable(f, items, accum),
    decreases items.len(),
{
    if items.len() > 0 {
        assert forall|next: A| #[trigger]
            f.ensures((accum, items[0]), Maybe::Just(next)) implies fold_callable(
            f,
            items.drop_first(),
            next,
        ) by {
            assert forall|a: A, i: int| 0 <= i < items.drop_first().len() implies #[trigger]
                f.requires((a, items.drop_first()[i])) by {
                assert(items.drop_first()[i] == items[i + 1]);
            }
            lemma_fold_callable_everywhere(f, items.drop_first(), next);
        }
    }
}

/// Where every step of `f` is the one that `g` gives, the fold of `f` ends
/// as the fold of `g` does.
pub proof fn lemma_fold_determined<A, T, F: Fn(A, T) -> Maybe<A>>(
    f: F,
    g: spec_fn(A, T) -> Maybe<A>,
    items: Seq<T>,
    accum: A,
    result: Maybe<A>,
)
    requires
        forall|a: A, x: T, step: Maybe<A>| #[trigger] f.ensures((a, x), step) ==> step == g(a, x),
        fold_result(f, items, accum, result),
    ensures
        result == fold_by(g, items, accum),
    decreases items.len(),
{
    if items.len() > 0 {
        let step = choose|step: Maybe<A>| #[trigger]
            f.ensures((accum, items[0]), step) && match step {
                Maybe::Just(next) => fold_result(f, items.drop_first(), next, result),
                Maybe::Nothing => result is Nothing,
            };
        match step {
            Maybe::Just(next) => {
                lemma_fold_determined(f, g, items.drop_first(), next, result);
            },
            Maybe::Nothing => {},
        }
    }
}

/// A fold over a sequence that is not empty ends as its first step and the
/// fold over the rest allow.
pub proof fn lemma_fold_first_step<A, T, F: Fn(A, T) -> Maybe<A>>(
    f: F,
    items: Seq<T>,
    accum: A,
    step: Maybe<A>,
    result: Maybe<A>,
)
    requires
        items.len() > 0,
        f.ensures((accum, items[0]), step),
        match step {
            Maybe::Just(next) => fold_result(f, items.drop_first(), next, result),
            Maybe::Nothing => result is Nothing,
        },
    ensures
        fold_result(f, items, accum, result),
{
}

/// Folds `f` over `items`, starting from `accum`, and stops at the first
/// `Nothing`.
#[verifier::loop_isolation(false)]
pub fn simple_try_fold_3<A, T, F: Fn(A, T) -> Maybe<A>>(items: Vec<T>, accum: A, f: F) -> (r: Maybe<
    A,
>)
    requires
        fold_callable(f, items@, accum),
    ensures
        fold_result(f, items@, accum, r),
{
    let ghost all = items@;
    let ghost start = accum;
    let mut accum = accum;
    assert(all.skip(0) =~= all);
    for x in it: items
        invariant
            it.seq() == all,
            fold_callable(f, all.skip(it.index() as int), accum),
            forall|r: Maybe<A>| #[trigger]
                fold_result(f, all.skip(it.index() as int), accum, r) ==> fold_result(
                    f,
                    all,
                    start,
                    r,
                ),
    {
        let ghost i = it.index() as int;
        assert(0 <= i < all.len());
        let ghost rest = all.skip(i + 1);
        let ghost before = accum;
        assert(all.skip(i).drop_first() =~= rest);
        assert(all.skip(i)[0] == x);
        let step = f(accum, x);
        match step.branch() {
            ControlFlow::Continue(next) => {
                accum = next;
                assert forall|r: Maybe<A>| #[trigger]
                    fold_result(f, rest, accum, r) implies fold_result(f, all, start, r) by {
                    lemma_fold_first_step(f, all.skip(i), before, step, r);
                }
            },
            ControlFlow::Break(residual) => {
                proof {
                    lemma_fold_first_step(f, all.skip(i), before, step, Maybe::Nothing);
                }
                return Maybe::from_residual(residual);
            },
        }
    }
    assert(fold_result(f, all.skip(all.len() as int), accum, Maybe::Just(accum)));
    Maybe::from_output(accum)
}

} // verus!
