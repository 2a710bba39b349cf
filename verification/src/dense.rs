//! Dense vectors assembled from (index, value) entries.

use vstd::prelude::*;

verus! {

/// `base` with the first `n` entries written in order: entry `k` stores
/// `values[k]` at position `indices[k]`.
pub open spec fn scatter<T>(base: Seq<T>, indices: Seq<usize>, values: Seq<T>, n: int) -> Seq<T>
    decreases n,
{
    if n <= 0 {
        base
    } else {
        scatter(base, indices, values, n - 1).update(indices[n - 1] as int, values[n - 1])
    }
}

/// Every index of the first `n` entries lies below `len`.
pub open spec fn indices_below(indices: Seq<usize>, n: int, len: int) -> bool {
    forall|k: int| 0 <= k < n ==> indices[k] < len
}

/// Writing entries never changes the length.
pub proof fn lemma_scatter_len<T>(base: Seq<T>, indices: Seq<usize>, values: Seq<T>, n: int)
    requires
        0 <= n <= indices.len(),
        indices_below(indices, n, base.len() as int),
    ensures
        scatter(base, indices, values, n).len() == base.len(),
    decreases n,
{
    if n > 0 {
        lemma_scatter_len(base, indices, values, n - 1);
    }
}

/// Later entries overwrite earlier ones: a position keeps its base value when
/// no entry writes it, and otherwise holds the value of the last entry that
/// writes it.
pub proof fn lemma_scatter_last_write<T>(
    base: Seq<T>,
    indices: Seq<usize>,
    values: Seq<T>,
    n: int,
    i: int,
)
    requires
        0 <= n <= indices.len(),
        n <= values.len(),
        0 <= i < base.len(),
        indices_below(indices, n, base.len() as int),
    ensures
        (forall|k: int| 0 <= k < n ==> indices[k] != i) ==> scatter(base, indices, values, n)[i]
            == base[i],
        forall|k: int|
            0 <= k < n && indices[k] == i && (forall|l: int| k < l < n ==> indices[l] != i)
                ==> scatter(base, indices, values, n)[i] == values[k],
    decreases n,
{
    if n > 0 {
        lemma_scatter_last_write(base, indices, values, n - 1, i);
        lemma_scatter_len(base, indices, values, n - 1);
        assert forall|k: int|
            0 <= k < n && indices[k] == i && (forall|l: int| k < l < n ==> indices[l] != i)
                implies scatter(base, indices, values, n)[i] == values[k] by {
            if k < n - 1 {
                assert(indices[n - 1] != i);
            }
        }
    }
}

/// A vector of length `len` filled with `fill`, into which the entries
/// `(indices[k], values[k])`, for `k` below the shorter of the two lengths,
/// are written in order.
pub fn dense_from_entries<T: Copy>(len: usize, indices: &[usize], values: &[T], fill: T) -> (result:
    Vec<T>)
    requires
        indices_below(
            indices@,
            if indices@.len() <= values@.len() {
                indices@.len() as int
            } else {
                values@.len() as int
            },
            len as int,
        ),
    ensures
        result@.len() == len,
        result@ == scatter(
            Seq::new(len as nat, |i: int| fill),
            indices@,
            values@,
            if indices@.len() <= values@.len() {
                indices@.len() as int
            } else {
                values@.len() as int
            },
        ),
{
    let count = if indices.len() <= values.len() {
        indices.len()
    } else {
        values.len()
    };
    let ghost base = Seq::new(len as nat, |i: int| fill);
    let mut result: Vec<T> = Vec::new();
    let mut i: usize = 0;
    while i < len
        invariant
            i <= len,
            result@.len() == i,
            forall|q: int| 0 <= q < i ==> result@[q] == fill,
        decreases len - i,
    {
        result.push(fill);
        i = i + 1;
    }
    assert(result@ =~= base);
    let mut k: usize = 0;
    while k < count
        invariant
            k <= count,
            count <= indices@.len(),
            count <= values@.len(),
            indices_below(indices@, count as int, len as int),
            base.len() == len,
            result@ == scatter(base, indices@, values@, k as int),
        decreases count - k,
    {
        proof {
            lemma_scatter_len(base, indices@, values@, k as int);
        }
        result.set(indices[k], values[k]);
        k = k + 1;
    }
    proof {
        lemma_scatter_len(base, indices@, values@, count as int);
    }
    result
}

} // verus!
