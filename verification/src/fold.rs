//! Folds that stop at the first error.

use vstd::prelude::*;

verus! {

/// Walks a list from an initial state, each element giving the next state or an error:
/// the last state, or the first error.
pub open spec fn try_fold<T, S>(
    v: Seq<T>,
    init: S,
    step: spec_fn(S, T) -> core::result::Result<S, Seq<char>>,
) -> core::result::Result<S, Seq<char>>
    decreases v.len(),
{
    if v.len() == 0 {
        Ok(init)
    } else {
        match try_fold(v.drop_last(), init, step) {
            Ok(state) => step(state, v.last()),
            Err(e) => Err(e),
        }
    }
}

/// One more element.
pub(crate) proof fn lemma_try_fold_next<T, S>(
    v: Seq<T>,
    init: S,
    step: spec_fn(S, T) -> core::result::Result<S, Seq<char>>,
    i: int,
)
    requires
        0 <= i < v.len(),
    ensures
        try_fold(v.take(i + 1), init, step) == (match try_fold(v.take(i), init, step) {
            Ok(state) => step(state, v[i]),
            Err(e) => Err(e),
        }),
{
    assert(v.take(i + 1).drop_last() =~= v.take(i));
}

/// An error of the first elements is the error of the whole list.
pub(crate) proof fn lemma_try_fold_error<T, S>(
    v: Seq<T>,
    init: S,
    step: spec_fn(S, T) -> core::result::Result<S, Seq<char>>,
    i: int,
)
    requires
        0 <= i <= v.len(),
        try_fold(v.take(i), init, step) is Err,
    ensures
        try_fold(v, init, step) == try_fold(v.take(i), init, step),
    decreases v.len() - i,
{
    if i < v.len() {
        lemma_try_fold_next(v, init, step, i);
        lemma_try_fold_error(v, init, step, i + 1);
    } else {
        assert(v.take(i) =~= v);
    }
}

} // verus!
