//! Pure scalar operations supplied as closures, and folds over them.

use vstd::prelude::*;

verus! {

/// `f` accepts every argument triple and always returns the same result for
/// the same arguments.
pub open spec fn pure_ternary<T, F: Fn(T, T, T) -> T>(f: F) -> bool {
    &&& forall|x: T, y: T, z: T| #[trigger] f.requires((x, y, z))
    &&& forall|x: T, y: T, z: T, r1: T, r2: T|
        #[trigger] f.ensures((x, y, z), r1) && #[trigger] f.ensures((x, y, z), r2) ==> r1 == r2
}

/// `f` accepts every argument pair and is deterministic.
pub open spec fn pure_binary<T, F: Fn(T, T) -> T>(f: F) -> bool {
    &&& forall|x: T, y: T| #[trigger] f.requires((x, y))
    &&& forall|x: T, y: T, r1: T, r2: T|
        #[trigger] f.ensures((x, y), r1) && #[trigger] f.ensures((x, y), r2) ==> r1 == r2
}

/// `f` accepts every argument and is deterministic.
pub open spec fn pure_unary<A, B, F: Fn(A) -> B>(f: F) -> bool {
    &&& forall|x: A| #[trigger] f.requires((x,))
    &&& forall|x: A, r1: B, r2: B|
        #[trigger] f.ensures((x,), r1) && #[trigger] f.ensures((x,), r2) ==> r1 == r2
}

/// The value a pure ternary operation returns on `(x, y, z)`.
pub open spec fn apply3<T, F: Fn(T, T, T) -> T>(f: F, x: T, y: T, z: T) -> T {
    choose|r: T| f.ensures((x, y, z), r)
}

/// The value a pure binary operation returns on `(x, y)`.
pub open spec fn apply2<T, F: Fn(T, T) -> T>(f: F, x: T, y: T) -> T {
    choose|r: T| f.ensures((x, y), r)
}

/// The value a pure unary operation returns on `x`.
pub open spec fn apply1<A, B, F: Fn(A) -> B>(f: F, x: A) -> B {
    choose|r: B| f.ensures((x,), r)
}

pub proof fn lemma_apply3<T, F: Fn(T, T, T) -> T>(f: F, x: T, y: T, z: T, r: T)
    requires
        pure_ternary(f),
        f.ensures((x, y, z), r),
    ensures
        r == apply3(f, x, y, z),
{
}

pub proof fn lemma_apply2<T, F: Fn(T, T) -> T>(f: F, x: T, y: T, r: T)
    requires
        pure_binary(f),
        f.ensures((x, y), r),
    ensures
        r == apply2(f, x, y),
{
}

pub proof fn lemma_apply1<A, B, F: Fn(A) -> B>(f: F, x: A, r: B)
    requires
        pure_unary(f),
        f.ensures((x,), r),
    ensures
        r == apply1(f, x),
{
}

/// Left fold of a multiply-accumulate `f` over the paired terms
/// `(xs[k], ys[k])`: `f(... f(f(acc, xs[0], ys[0]), xs[1], ys[1]) ..., xs[n-1], ys[n-1])`.
pub open spec fn fold_terms<T, F: Fn(T, T, T) -> T>(f: F, acc: T, xs: Seq<T>, ys: Seq<T>) -> T
    decreases xs.len(),
{
    if xs.len() == 0 {
        acc
    } else {
        apply3(
            f,
            fold_terms(f, acc, xs.drop_last(), ys.subrange(0, xs.len() - 1)),
            xs.last(),
            ys[xs.len() - 1],
        )
    }
}

/// Left fold of a binary `add` over `xs`, starting from `acc`.
pub open spec fn fold_sum<T, F: Fn(T, T) -> T>(add: F, acc: T, xs: Seq<T>) -> T
    decreases xs.len(),
{
    if xs.len() == 0 {
        acc
    } else {
        apply2(add, fold_sum(add, acc, xs.drop_last()), xs.last())
    }
}

/// One more term extends the fold by one application of `f`.
pub proof fn lemma_fold_terms_step<T, F: Fn(T, T, T) -> T>(
    f: F,
    acc: T,
    xs: Seq<T>,
    ys: Seq<T>,
    n: int,
)
    requires
        0 <= n < xs.len(),
        n < ys.len(),
    ensures
        fold_terms(f, acc, xs.take(n + 1), ys.take(n + 1)) == apply3(
            f,
            fold_terms(f, acc, xs.take(n), ys.take(n)),
            xs[n],
            ys[n],
        ),
{
    assert(xs.take(n + 1).drop_last() =~= xs.take(n));
    assert(ys.take(n + 1).subrange(0, n) =~= ys.take(n));
}

/// One more element extends the sum by one application of `add`.
pub proof fn lemma_fold_sum_step<T, F: Fn(T, T) -> T>(add: F, acc: T, xs: Seq<T>, n: int)
    requires
        0 <= n < xs.len(),
    ensures
        fold_sum(add, acc, xs.take(n + 1)) == apply2(add, fold_sum(add, acc, xs.take(n)), xs[n]),
{
    assert(xs.take(n + 1).drop_last() =~= xs.take(n));
}

} // verus!

verus! {

/// Folding no terms leaves the accumulator unchanged.
pub proof fn lemma_fold_terms_empty<T, F: Fn(T, T, T) -> T>(f: F, acc: T, ys: Seq<T>)
    ensures
        fold_terms(f, acc, Seq::<T>::empty(), ys) == acc,
{
}

/// Summing no elements leaves the accumulator unchanged.
pub proof fn lemma_fold_sum_empty<T, F: Fn(T, T) -> T>(add: F, acc: T)
    ensures
        fold_sum(add, acc, Seq::<T>::empty()) == acc,
{
}

} // verus!
