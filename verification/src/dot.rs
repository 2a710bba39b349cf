//! Dot products: a straight left-to-right accumulation and an eight-lane
//! strided accumulation that mirrors a SIMD register of eight lanes.

use vstd::prelude::*;
use crate::scalar::{
    apply2, apply3, fold_sum, fold_terms, lemma_apply2, lemma_apply3, lemma_fold_sum_step,
    lemma_fold_terms_step, pure_binary, pure_ternary,
};

verus! {

/// Number of accumulator lanes of the strided dot product.
pub const LANES: usize = 8;

pub open spec fn min_len(a: int, b: int) -> int {
    if a <= b { a } else { b }
}

/// The plain dot product: `mul_add` folded over `(a[k], b[k])` for
/// `k < min(a.len(), b.len())`, starting from `zero`.
pub open spec fn dot_scalar_spec<T, F: Fn(T, T, T) -> T>(
    mul_add: F,
    zero: T,
    a: Seq<T>,
    b: Seq<T>,
) -> T {
    let n = min_len(a.len() as int, b.len() as int);
    fold_terms(mul_add, zero, a.take(n), b.take(n))
}

/// The entries of lane `lane` over the first `chunks` blocks of eight:
/// `s[lane], s[8 + lane], s[16 + lane], ...`.
pub open spec fn lane_terms<T>(s: Seq<T>, lane: int, chunks: int) -> Seq<T> {
    Seq::new(chunks as nat, |i: int| s[i * 8 + lane])
}

/// The eight lane accumulators after `chunks` blocks.
pub open spec fn lane_sums<T, F: Fn(T, T, T) -> T>(
    mul_add: F,
    zero: T,
    a: Seq<T>,
    b: Seq<T>,
    chunks: int,
) -> Seq<T> {
    Seq::new(
        8,
        |j: int| fold_terms(mul_add, zero, lane_terms(a, j, chunks), lane_terms(b, j, chunks)),
    )
}

/// The eight-lane dot product: each lane accumulates every eighth product of
/// the full blocks, the lanes are summed in order, and the remaining tail
/// products are accumulated onto that sum from left to right.
pub open spec fn dot_simd_spec<T, F: Fn(T, T, T) -> T, G: Fn(T, T) -> T>(
    mul_add: F,
    plus: G,
    zero: T,
    a: Seq<T>,
    b: Seq<T>,
) -> T {
    let n = min_len(a.len() as int, b.len() as int);
    let chunks = n / 8;
    let lanes = lane_sums(mul_add, zero, a, b, chunks);
    fold_terms(
        mul_add,
        fold_sum(plus, lanes[0], lanes.drop_first()),
        a.subrange(chunks * 8, n),
        b.subrange(chunks * 8, n),
    )
}

/// Dot product of the common prefix of `vector_a` and `vector_b`, accumulated
/// from left to right with `mul_add(acc, a, b)` starting from `zero`.
pub fn dot_product_scalar<T: Copy, F: Fn(T, T, T) -> T>(
    vector_a: &[T],
    vector_b: &[T],
    zero: T,
    mul_add: F,
) -> (result: T)
    requires
        pure_ternary(mul_add),
    ensures
        result == dot_scalar_spec(mul_add, zero, vector_a@, vector_b@),
{
    let len = if vector_a.len() <= vector_b.len() {
        vector_a.len()
    } else {
        vector_b.len()
    };
    let mut total = zero;
    let mut i: usize = 0;
    while i < len
        invariant
            i <= len,
            len == min_len(vector_a@.len() as int, vector_b@.len() as int),
            pure_ternary(mul_add),
            total == fold_terms(mul_add, zero, vector_a@.take(i as int), vector_b@.take(i as int)),
        decreases len - i,
    {
        let next = mul_add(total, vector_a[i], vector_b[i]);
        proof {
            lemma_apply3(mul_add, total, vector_a@[i as int], vector_b@[i as int], next);
            lemma_fold_terms_step(mul_add, zero, vector_a@, vector_b@, i as int);
        }
        total = next;
        i = i + 1;
    }
    total
}

/// Dot product of the common prefix of `vector_a` and `vector_b` with eight
/// accumulator lanes: lane `j` accumulates the products at positions
/// `8 * i + j` of the full blocks (starting from `zero`), the lanes are then
/// summed in order with `plus`, and the products of the tail that does not fill
/// a block are accumulated onto that sum.
pub fn dot_product_simd<T: Copy, F: Fn(T, T, T) -> T, G: Fn(T, T) -> T>(
    vector_a: &[T],
    vector_b: &[T],
    zero: T,
    mul_add: F,
    plus: G,
) -> (result: T)
    requires
        pure_ternary(mul_add),
        pure_binary(plus),
    ensures
        result == dot_simd_spec(mul_add, plus, zero, vector_a@, vector_b@),
{
    let len = if vector_a.len() <= vector_b.len() {
        vector_a.len()
    } else {
        vector_b.len()
    };
    let chunks = len / LANES;
    assert(chunks * 8 <= len) by (nonlinear_arith)
        requires
            chunks == len / 8,
    ;
    let ghost a = vector_a@;
    let ghost b = vector_b@;

    let mut lanes: Vec<T> = Vec::new();
    let mut j: usize = 0;
    while j < LANES
        invariant
            j <= 8,
            lanes@.len() == j,
            forall|k: int| 0 <= k < j ==> lanes@[k] == zero,
        decreases 8 - j,
    {
        lanes.push(zero);
        j = j + 1;
    }
    assert(lanes@ =~= lane_sums(mul_add, zero, a, b, 0));

    let mut i: usize = 0;
    while i < chunks
        invariant
            i <= chunks,
            chunks * 8 <= len,
            len == min_len(a.len() as int, b.len() as int),
            a == vector_a@,
            b == vector_b@,
            pure_ternary(mul_add),
            lanes@ == lane_sums(mul_add, zero, a, b, i as int),
        decreases chunks - i,
    {
        let ghost before = lanes@;
        let mut j: usize = 0;
        while j < LANES
            invariant
                j <= 8,
                i < chunks,
                chunks * 8 <= len,
                len == min_len(a.len() as int, b.len() as int),
                a == vector_a@,
                b == vector_b@,
                pure_ternary(mul_add),
                before == lane_sums(mul_add, zero, a, b, i as int),
                lanes@.len() == 8,
                forall|k: int|
                    0 <= k < j ==> lanes@[k] == lane_sums(mul_add, zero, a, b, i + 1)[k],
                forall|k: int| j <= k < 8 ==> lanes@[k] == before[k],
            decreases 8 - j,
        {
            let k = i * LANES + j;
            let next = mul_add(lanes[j], vector_a[k], vector_b[k]);
            proof {
                lemma_apply3(mul_add, lanes@[j as int], a[k as int], b[k as int], next);
                let xs = lane_terms(a, j as int, i + 1);
                let ys = lane_terms(b, j as int, i + 1);
                lemma_fold_terms_step(mul_add, zero, xs, ys, i as int);
                assert(xs.take(i as int) =~= lane_terms(a, j as int, i as int));
                assert(ys.take(i as int) =~= lane_terms(b, j as int, i as int));
                assert(xs.take(i + 1) =~= xs);
                assert(ys.take(i + 1) =~= ys);
                assert(before[j as int] == fold_terms(
                    mul_add,
                    zero,
                    lane_terms(a, j as int, i as int),
                    lane_terms(b, j as int, i as int),
                ));
                assert(next == lane_sums(mul_add, zero, a, b, i + 1)[j as int]);
            }
            lanes.set(j, next);
            j = j + 1;
        }
        assert(lanes@ =~= lane_sums(mul_add, zero, a, b, i + 1));
        i = i + 1;
    }

    let ghost lane_seq = lanes@;
    let mut total = lanes[0];
    let mut j: usize = 1;
    while j < LANES
        invariant
            1 <= j <= 8,
            lanes@ == lane_seq,
            lane_seq.len() == 8,
            pure_binary(plus),
            total == fold_sum(plus, lane_seq[0], lane_seq.drop_first().take(j - 1)),
        decreases 8 - j,
    {
        let next = plus(total, lanes[j]);
        proof {
            lemma_apply2(plus, total, lane_seq[j as int], next);
            lemma_fold_sum_step(plus, lane_seq[0], lane_seq.drop_first(), j - 1);
        }
        total = next;
        j = j + 1;
    }
    assert(lane_seq.drop_first().take(7) =~= lane_seq.drop_first());
    let ghost reduced = total;

    let start = chunks * LANES;
    let ghost tail_a = a.subrange(start as int, len as int);
    let ghost tail_b = b.subrange(start as int, len as int);
    let mut i: usize = start;
    while i < len
        invariant
            start <= i <= len,
            start == chunks * 8,
            len == min_len(a.len() as int, b.len() as int),
            a == vector_a@,
            b == vector_b@,
            tail_a == a.subrange(start as int, len as int),
            tail_b == b.subrange(start as int, len as int),
            pure_ternary(mul_add),
            total == fold_terms(mul_add, reduced, tail_a.take(i - start), tail_b.take(i - start)),
        decreases len - i,
    {
        let next = mul_add(total, vector_a[i], vector_b[i]);
        proof {
            lemma_apply3(mul_add, total, a[i as int], b[i as int], next);
            lemma_fold_terms_step(mul_add, reduced, tail_a, tail_b, i - start);
        }
        total = next;
        i = i + 1;
    }
    assert(tail_a.take(len - start) =~= tail_a);
    assert(tail_b.take(len - start) =~= tail_b);
    total
}

} // verus!

verus! {

/// `plus` is associative and commutative with `zero` as its identity, as
/// exact (unrounded) addition is.
pub open spec fn exact_sum<T, G: Fn(T, T) -> T>(plus: G, zero: T) -> bool {
    &&& forall|x: T, y: T, z: T|
        #[trigger] apply2(plus, apply2(plus, x, y), z) == apply2(plus, x, apply2(plus, y, z))
    &&& forall|x: T, y: T| #[trigger] apply2(plus, x, y) == apply2(plus, y, x)
    &&& forall|x: T| #[trigger] apply2(plus, zero, x) == x
}

/// `mul_add(acc, x, y)` is `acc` plus the product `mul_add(zero, x, y)`.
pub open spec fn splits_products<T, F: Fn(T, T, T) -> T, G: Fn(T, T) -> T>(
    mul_add: F,
    plus: G,
    zero: T,
) -> bool {
    forall|acc: T, x: T, y: T|
        #[trigger] apply3(mul_add, acc, x, y) == apply2(plus, acc, apply3(mul_add, zero, x, y))
}

/// The products `mul_add(zero, xs[k], ys[k])`.
pub open spec fn products<T, F: Fn(T, T, T) -> T>(mul_add: F, zero: T, xs: Seq<T>, ys: Seq<T>) -> Seq<
    T,
> {
    Seq::new(xs.len(), |k: int| apply3(mul_add, zero, xs[k], ys[k]))
}

proof fn lemma_fold_sum_from<T, G: Fn(T, T) -> T>(plus: G, zero: T, acc: T, s: Seq<T>)
    requires
        exact_sum(plus, zero),
    ensures
        fold_sum(plus, acc, s) == apply2(plus, acc, fold_sum(plus, zero, s)),
    decreases s.len(),
{
    if s.len() == 0 {
        assert(apply2(plus, zero, acc) == acc);
    } else {
        lemma_fold_sum_from(plus, zero, acc, s.drop_last());
        let r = fold_sum(plus, zero, s.drop_last());
        assert(apply2(plus, apply2(plus, acc, r), s.last()) == apply2(
            plus,
            acc,
            apply2(plus, r, s.last()),
        ));
    }
}

proof fn lemma_fold_sum_concat<T, G: Fn(T, T) -> T>(plus: G, zero: T, s1: Seq<T>, s2: Seq<T>)
    requires
        exact_sum(plus, zero),
    ensures
        fold_sum(plus, zero, s1 + s2) == apply2(
            plus,
            fold_sum(plus, zero, s1),
            fold_sum(plus, zero, s2),
        ),
    decreases s2.len(),
{
    if s2.len() == 0 {
        assert(s1 + s2 =~= s1);
        let a = fold_sum(plus, zero, s1);
        assert(apply2(plus, zero, a) == a);
        assert(apply2(plus, a, zero) == apply2(plus, zero, a));
    } else {
        lemma_fold_sum_concat(plus, zero, s1, s2.drop_last());
        assert((s1 + s2).drop_last() =~= s1 + s2.drop_last());
        assert((s1 + s2).last() == s2.last());
        let a = fold_sum(plus, zero, s1);
        let b = fold_sum(plus, zero, s2.drop_last());
        assert(apply2(plus, apply2(plus, a, b), s2.last()) == apply2(
            plus,
            a,
            apply2(plus, b, s2.last()),
        ));
    }
}

proof fn lemma_fold_terms_as_sum<T, F: Fn(T, T, T) -> T, G: Fn(T, T) -> T>(
    mul_add: F,
    plus: G,
    zero: T,
    acc: T,
    xs: Seq<T>,
    ys: Seq<T>,
)
    requires
        exact_sum(plus, zero),
        splits_products(mul_add, plus, zero),
        xs.len() == ys.len(),
    ensures
        fold_terms(mul_add, acc, xs, ys) == apply2(
            plus,
            acc,
            fold_sum(plus, zero, products(mul_add, zero, xs, ys)),
        ),
    decreases xs.len(),
{
    let p = products(mul_add, zero, xs, ys);
    if xs.len() == 0 {
        assert(apply2(plus, zero, acc) == acc);
        assert(apply2(plus, acc, zero) == apply2(plus, zero, acc));
    } else {
        let n = xs.len() - 1;
        let xs1 = xs.drop_last();
        let ys1 = ys.subrange(0, n);
        lemma_fold_terms_as_sum(mul_add, plus, zero, acc, xs1, ys1);
        assert(p.drop_last() =~= products(mul_add, zero, xs1, ys1));
        let r = fold_sum(plus, zero, products(mul_add, zero, xs1, ys1));
        let q = apply3(mul_add, zero, xs[n], ys[n]);
        assert(apply3(mul_add, apply2(plus, acc, r), xs[n], ys[n]) == apply2(
            plus,
            apply2(plus, acc, r),
            q,
        ));
        assert(apply2(plus, apply2(plus, acc, r), q) == apply2(plus, acc, apply2(plus, r, q)));
    }
}

proof fn lemma_fold_sum_pointwise<T, G: Fn(T, T) -> T>(plus: G, zero: T, u: Seq<T>, v: Seq<T>)
    requires
        exact_sum(plus, zero),
        u.len() == v.len(),
    ensures
        fold_sum(plus, zero, Seq::new(u.len(), |j: int| apply2(plus, u[j], v[j]))) == apply2(
            plus,
            fold_sum(plus, zero, u),
            fold_sum(plus, zero, v),
        ),
    decreases u.len(),
{
    let w = Seq::new(u.len(), |j: int| apply2(plus, u[j], v[j]));
    if u.len() == 0 {
        assert(apply2(plus, zero, zero) == zero);
    } else {
        let n = u.len() - 1;
        let u1 = u.drop_last();
        let v1 = v.drop_last();
        lemma_fold_sum_pointwise(plus, zero, u1, v1);
        assert(w.drop_last() =~= Seq::new(u1.len(), |j: int| apply2(plus, u1[j], v1[j])));
        let a = fold_sum(plus, zero, u1);
        let b = fold_sum(plus, zero, v1);
        let x = u[n];
        let y = v[n];
        assert(apply2(plus, apply2(plus, a, b), apply2(plus, x, y)) == apply2(
            plus,
            a,
            apply2(plus, b, apply2(plus, x, y)),
        ));
        assert(apply2(plus, b, apply2(plus, x, y)) == apply2(plus, apply2(plus, b, x), y));
        assert(apply2(plus, b, x) == apply2(plus, x, b));
        assert(apply2(plus, apply2(plus, x, b), y) == apply2(plus, x, apply2(plus, b, y)));
        assert(apply2(plus, a, apply2(plus, x, apply2(plus, b, y))) == apply2(
            plus,
            apply2(plus, a, x),
            apply2(plus, b, y),
        ));
    }
}

proof fn lemma_fold_sum_zeros<T, G: Fn(T, T) -> T>(plus: G, zero: T, s: Seq<T>)
    requires
        exact_sum(plus, zero),
        forall|j: int| 0 <= j < s.len() ==> s[j] == zero,
    ensures
        fold_sum(plus, zero, s) == zero,
    decreases s.len(),
{
    if s.len() > 0 {
        lemma_fold_sum_zeros(plus, zero, s.drop_last());
        assert(apply2(plus, zero, zero) == zero);
    }
}

proof fn lemma_fold_sum_first<T, G: Fn(T, T) -> T>(plus: G, zero: T, s: Seq<T>)
    requires
        exact_sum(plus, zero),
        s.len() >= 1,
    ensures
        fold_sum(plus, s[0], s.drop_first()) == fold_sum(plus, zero, s),
{
    let first = seq![s[0]];
    lemma_fold_sum_from(plus, zero, s[0], s.drop_first());
    assert(s =~= first + s.drop_first());
    lemma_fold_sum_concat(plus, zero, first, s.drop_first());
    assert(first.drop_last() =~= Seq::<T>::empty());
    assert(fold_sum(plus, zero, first) == apply2(plus, fold_sum(plus, zero, first.drop_last()), s[0]));
    assert(apply2(plus, zero, s[0]) == s[0]);
}

proof fn lemma_lane_sums_total<T, F: Fn(T, T, T) -> T, G: Fn(T, T) -> T>(
    mul_add: F,
    plus: G,
    zero: T,
    a: Seq<T>,
    b: Seq<T>,
    chunks: int,
)
    requires
        exact_sum(plus, zero),
        splits_products(mul_add, plus, zero),
        0 <= chunks,
        chunks * 8 <= a.len(),
        chunks * 8 <= b.len(),
    ensures
        fold_sum(plus, zero, lane_sums(mul_add, zero, a, b, chunks)) == fold_sum(
            plus,
            zero,
            products(mul_add, zero, a.take(chunks * 8), b.take(chunks * 8)),
        ),
    decreases chunks,
{
    let lanes = lane_sums(mul_add, zero, a, b, chunks);
    if chunks == 0 {
        assert forall|j: int| 0 <= j < lanes.len() implies lanes[j] == zero by {
            assert(lane_terms(a, j, 0).len() == 0);
        }
        lemma_fold_sum_zeros(plus, zero, lanes);
        assert(products(mul_add, zero, a.take(0), b.take(0)).len() == 0);
    } else {
        let c = chunks - 1;
        lemma_lane_sums_total(mul_add, plus, zero, a, b, c);
        let prev = lane_sums(mul_add, zero, a, b, c);
        let p_all = products(mul_add, zero, a.take(chunks * 8), b.take(chunks * 8));
        let p_prev = products(mul_add, zero, a.take(c * 8), b.take(c * 8));
        let block = p_all.subrange(c * 8, chunks * 8);
        assert forall|j: int| 0 <= j < 8 implies #[trigger] lanes[j] == apply2(
            plus,
            prev[j],
            block[j],
        ) by {
            let xs = lane_terms(a, j, chunks);
            let ys = lane_terms(b, j, chunks);
            assert(xs.drop_last() =~= lane_terms(a, j, c));
            assert(ys.subrange(0, c) =~= lane_terms(b, j, c));
            assert(xs.last() == a[c * 8 + j]);
            assert(ys[c] == b[c * 8 + j]);
            assert(block[j] == apply3(mul_add, zero, a[c * 8 + j], b[c * 8 + j]));
            assert(apply3(mul_add, prev[j], a[c * 8 + j], b[c * 8 + j]) == apply2(
                plus,
                prev[j],
                apply3(mul_add, zero, a[c * 8 + j], b[c * 8 + j]),
            ));
        }
        assert(lanes =~= Seq::new(prev.len(), |j: int| apply2(plus, prev[j], block[j])));
        lemma_fold_sum_pointwise(plus, zero, prev, block);
        assert(p_all =~= p_prev + block);
        lemma_fold_sum_concat(plus, zero, p_prev, block);
    }
}

/// With exact arithmetic (an associative and commutative `plus` with
/// identity `zero`, and a `mul_add` that adds a product to the
/// accumulator), the eight-lane dot product equals the plain one: the lanes
/// only regroup the same sum.
pub proof fn lemma_simd_matches_scalar<T, F: Fn(T, T, T) -> T, G: Fn(T, T) -> T>(
    mul_add: F,
    plus: G,
    zero: T,
    a: Seq<T>,
    b: Seq<T>,
)
    requires
        exact_sum(plus, zero),
        splits_products(mul_add, plus, zero),
    ensures
        dot_simd_spec(mul_add, plus, zero, a, b) == dot_scalar_spec(mul_add, zero, a, b),
{
    let n = min_len(a.len() as int, b.len() as int);
    let c = n / 8;
    assert(c * 8 <= n) by (nonlinear_arith)
        requires
            c == n / 8,
            n >= 0,
    ;
    let lanes = lane_sums(mul_add, zero, a, b, c);
    let p = products(mul_add, zero, a.take(n), b.take(n));
    let head = products(mul_add, zero, a.take(c * 8), b.take(c * 8));
    let tail_a = a.subrange(c * 8, n);
    let tail_b = b.subrange(c * 8, n);
    let tail = products(mul_add, zero, tail_a, tail_b);

    lemma_lane_sums_total(mul_add, plus, zero, a, b, c);
    lemma_fold_sum_first(plus, zero, lanes);
    let reduced = fold_sum(plus, lanes[0], lanes.drop_first());

    lemma_fold_terms_as_sum(mul_add, plus, zero, reduced, tail_a, tail_b);
    lemma_fold_terms_as_sum(mul_add, plus, zero, zero, a.take(n), b.take(n));
    assert(head =~= p.take(c * 8));
    assert(tail =~= p.subrange(c * 8, n));
    assert(p =~= head + tail);
    lemma_fold_sum_concat(plus, zero, head, tail);
    assert(apply2(plus, zero, fold_sum(plus, zero, p)) == fold_sum(plus, zero, p));
}

} // verus!

verus! {

/// Both dot products run over every index below the smaller of the two
/// lengths: the plain one folds exactly the pairs `(a[k], b[k])` for
/// `k < min(a.len(), b.len())`, and, with exact arithmetic, both equal the
/// sum of the products `a[k] * b[k]` over those indices.
pub proof fn lemma_dot_covers_common_length<T, F: Fn(T, T, T) -> T, G: Fn(T, T) -> T>(
    mul_add: F,
    plus: G,
    zero: T,
    a: Seq<T>,
    b: Seq<T>,
)
    ensures
        ({
            let n = if a.len() <= b.len() {
                a.len() as int
            } else {
                b.len() as int
            };
            dot_scalar_spec(mul_add, zero, a, b) == fold_terms(
                mul_add,
                zero,
                a.subrange(0, n),
                b.subrange(0, n),
            )
        }),
        exact_sum(plus, zero) && splits_products(mul_add, plus, zero) ==> ({
            let n = if a.len() <= b.len() {
                a.len() as int
            } else {
                b.len() as int
            };
            let sum = fold_sum(
                plus,
                zero,
                Seq::new(n as nat, |k: int| apply3(mul_add, zero, a[k], b[k])),
            );
            &&& dot_scalar_spec(mul_add, zero, a, b) == sum
            &&& dot_simd_spec(mul_add, plus, zero, a, b) == sum
        }),
{
    let n = if a.len() <= b.len() {
        a.len() as int
    } else {
        b.len() as int
    };
    assert(min_len(a.len() as int, b.len() as int) == n);
    assert(a.take(n) =~= a.subrange(0, n));
    assert(b.take(n) =~= b.subrange(0, n));
    if exact_sum(plus, zero) && splits_products(mul_add, plus, zero) {
        lemma_fold_terms_as_sum(mul_add, plus, zero, zero, a.take(n), b.take(n));
        let p = products(mul_add, zero, a.take(n), b.take(n));
        assert(p =~= Seq::new(n as nat, |k: int| apply3(mul_add, zero, a[k], b[k])));
        assert(apply2(plus, zero, fold_sum(plus, zero, p)) == fold_sum(plus, zero, p));
        lemma_simd_matches_scalar(mul_add, plus, zero, a, b);
    }
}

} // verus!
