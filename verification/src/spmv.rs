//! Sparse matrix by dense vector products.

use vstd::prelude::*;
use crate::scalar::{apply3, fold_terms, lemma_apply3, lemma_fold_terms_step, pure_ternary};
use crate::sparse::{columns_below, SparseMatrix};

verus! {

/// The vector entries that the stored entries of row `i` multiply, in storage order.
pub open spec fn gathered<T>(m: SparseMatrix<T>, x: Seq<T>, i: int) -> Seq<T> {
    m.row_columns(i).map_values(|c: usize| x[c as int])
}

/// Row `i` of `m * x`: `mul_add(acc, value, x[column])` folded over the stored
/// entries of the row in storage order, starting from `zero`.
pub open spec fn row_product_spec<T, F: Fn(T, T, T) -> T>(
    mul_add: F,
    zero: T,
    m: SparseMatrix<T>,
    x: Seq<T>,
    i: int,
) -> T {
    fold_terms(mul_add, zero, m.row_values(i), gathered(m, x, i))
}

/// The product `m * x`, one entry per row.
pub open spec fn spmv_spec<T, F: Fn(T, T, T) -> T>(
    mul_add: F,
    zero: T,
    m: SparseMatrix<T>,
    x: Seq<T>,
) -> Seq<T> {
    Seq::new(m.num_rows(), |i: int| row_product_spec(mul_add, zero, m, x, i))
}

/// Sparse matrix by dense vector multiplication.
#[derive(Debug)]
#[must_use]
pub struct Spmv;

fn fold_row<T: Copy, F: Fn(T, T, T) -> T>(
    matrix: &SparseMatrix<T>,
    row: usize,
    vector: &[T],
    zero: T,
    mul_add: &F,
) -> (result: T)
    requires
        matrix.wf(),
        row < matrix.num_rows(),
        columns_below(matrix.row_columns(row as int), vector@.len() as int),
        pure_ternary(*mul_add),
    ensures
        result == row_product_spec(*mul_add, zero, *matrix, vector@, row as int),
{
    proof {
        matrix.lemma_row_bounds(row as int);
    }
    let offsets = matrix.row_offsets();
    let cols = matrix.col_indices();
    let vals = matrix.values();
    let start = offsets[row];
    let end = offsets[row + 1];
    let ghost xs = matrix.row_values(row as int);
    let ghost ys = gathered(*matrix, vector@, row as int);
    let mut acc = zero;
    let mut k = start;
    while k < end
        invariant
            start <= k <= end,
            start == matrix.row_start(row as int),
            end == matrix.row_end(row as int),
            end <= cols@.len(),
            cols@ == matrix.columns(),
            vals@ == matrix.entries(),
            cols@.len() == vals@.len(),
            xs == matrix.row_values(row as int),
            ys == gathered(*matrix, vector@, row as int),
            columns_below(matrix.row_columns(row as int), vector@.len() as int),
            pure_ternary(*mul_add),
            acc == fold_terms(*mul_add, zero, xs.take(k - start), ys.take(k - start)),
        decreases end - k,
    {
        assert(matrix.row_columns(row as int)[k - start] == cols@[k as int]);
        let c = cols[k];
        let next = mul_add(acc, vals[k], vector[c]);
        proof {
            assert(xs[k - start] == vals@[k as int]);
            assert(ys[k - start] == vector@[c as int]);
            lemma_apply3(*mul_add, acc, vals@[k as int], vector@[c as int], next);
            lemma_fold_terms_step(*mul_add, zero, xs, ys, k - start);
        }
        acc = next;
        k = k + 1;
    }
    assert(xs.take(end - start) =~= xs);
    assert(ys.take(end - start) =~= ys);
    acc
}

impl Spmv {
    /// Row `row` of `matrix * vector`. Both the serial product and a caller
    /// that hands rows out to worker threads compute each row with this.
    pub fn row_product<T: Copy, F: Fn(T, T, T) -> T>(
        &self,
        matrix: &SparseMatrix<T>,
        row: usize,
        vector: &[T],
        zero: T,
        mul_add: F,
    ) -> (result: T)
        requires
            matrix.wf(),
            row < matrix.num_rows(),
            columns_below(matrix.row_columns(row as int), vector@.len() as int),
            pure_ternary(mul_add),
        ensures
            result == row_product_spec(mul_add, zero, *matrix, vector@, row as int),
    {
        fold_row(matrix, row, vector, zero, &mul_add)
    }

    /// Serial multiplication of a sparse matrix by a dense vector: entry `i`
    /// of the result accumulates `mul_add(acc, value, vector[column])` over
    /// the stored entries of row `i` in storage order, starting from `zero`.
    pub fn serial<T: Copy, F: Fn(T, T, T) -> T>(
        &self,
        matrix: &SparseMatrix<T>,
        vector: &[T],
        zero: T,
        mul_add: F,
    ) -> (result: Vec<T>)
        requires
            matrix.wf(),
            columns_below(matrix.columns(), vector@.len() as int),
            pure_ternary(mul_add),
        ensures
            result@ == spmv_spec(mul_add, zero, *matrix, vector@),
    {
        let nrows = matrix.nrows();
        let mut result: Vec<T> = Vec::new();
        let mut i: usize = 0;
        while i < nrows
            invariant
                i <= nrows,
                nrows == matrix.num_rows(),
                matrix.wf(),
                columns_below(matrix.columns(), vector@.len() as int),
                pure_ternary(mul_add),
                result@.len() == i,
                forall|r: int|
                    0 <= r < i ==> result@[r] == row_product_spec(
                        mul_add,
                        zero,
                        *matrix,
                        vector@,
                        r,
                    ),
            decreases nrows - i,
        {
            proof {
                matrix.lemma_row_bounds(i as int);
                assert forall|q: int|
                    0 <= q < matrix.row_columns(i as int).len() implies #[trigger] matrix.row_columns(
                    i as int,
                )[q] < vector@.len() by {
                    assert(matrix.row_columns(i as int)[q] == matrix.columns()[matrix.row_start(
                        i as int,
                    ) + q]);
                }
            }
            let value = fold_row(matrix, i, vector, zero, &mul_add);
            result.push(value);
            i = i + 1;
        }
        assert(result@ =~= spmv_spec(mul_add, zero, *matrix, vector@));
        result
    }
}

} // verus!

verus! {

/// Computing the rows one at a time, in any order or on any thread, gives
/// the serial product: entry `i` of the serial product is the value that the
/// row-by-row product gives for row `i`.
pub proof fn lemma_rows_agree_with_serial<T, F: Fn(T, T, T) -> T>(
    mul_add: F,
    zero: T,
    m: SparseMatrix<T>,
    x: Seq<T>,
    i: int,
)
    requires
        0 <= i < m.num_rows(),
    ensures
        spmv_spec(mul_add, zero, m, x).len() == m.num_rows(),
        spmv_spec(mul_add, zero, m, x)[i] == row_product_spec(mul_add, zero, m, x, i),
{
}

} // verus!

verus! {

/// Each stored value of row `i` is paired with the vector entry at its own
/// column: position `p` of the row pairs `m.entries()[start + p]` with
/// `x[m.columns()[start + p]]`, where `start = m.offsets()[i]`, and the row
/// has `m.offsets()[i + 1] - m.offsets()[i]` positions.
pub proof fn lemma_row_terms_pair_values_with_own_columns<T>(
    m: SparseMatrix<T>,
    x: Seq<T>,
    i: int,
    p: int,
)
    requires
        m.wf(),
        0 <= i < m.num_rows(),
        0 <= p < m.offsets()[i + 1] - m.offsets()[i],
    ensures
        gathered(m, x, i).len() == m.offsets()[i + 1] - m.offsets()[i],
        m.row_values(i).len() == m.offsets()[i + 1] - m.offsets()[i],
        m.row_values(i)[p] == m.entries()[m.offsets()[i] + p],
        gathered(m, x, i)[p] == x[m.columns()[m.offsets()[i] + p] as int],
{
    m.lemma_row_bounds(i);
}

} // verus!
