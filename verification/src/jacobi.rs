//! The Jacobi (diagonal) preconditioner.

use vstd::prelude::*;
use crate::scalar::{apply1, lemma_apply1, pure_unary};
use crate::sparse::SparseMatrix;

verus! {

/// `p` is the first position of `target` in `s`.
pub open spec fn is_first_position(s: Seq<usize>, target: usize, p: int) -> bool {
    &&& 0 <= p < s.len()
    &&& s[p] == target
    &&& forall|q: int| 0 <= q < p ==> s[q] != target
}

/// The first position of `target` in `s`, if it occurs.
pub open spec fn first_position(s: Seq<usize>, target: usize) -> Option<int> {
    if exists|p: int| 0 <= p < s.len() && s[p] == target {
        Some(choose|p: int| is_first_position(s, target, p))
    } else {
        None
    }
}

/// A first position is the one `first_position` names.
pub proof fn lemma_first_position(s: Seq<usize>, target: usize, p: int)
    requires
        is_first_position(s, target, p),
    ensures
        first_position(s, target) == Some(p),
{
    assert(exists|q: int| 0 <= q < s.len() && s[q] == target);
    let c = choose|q: int| is_first_position(s, target, q);
    assert(is_first_position(s, target, c));
    if c < p {
        assert(s[c] != target);
    } else if p < c {
        assert(s[p] != target);
    }
}

/// Entry `i` of the Jacobi preconditioner: when row `i` stores an entry in
/// column `i` (the first such entry counts) and `diagonal_inverse` maps its
/// value to `Some(v)`, the entry is `v`; otherwise it is `one`.
pub open spec fn jacobi_entry<T, G: Fn(T) -> Option<T>>(
    diagonal_inverse: G,
    one: T,
    m: SparseMatrix<T>,
    i: int,
) -> T {
    match first_position(m.row_columns(i), i as usize) {
        Some(p) => match apply1(diagonal_inverse, m.row_values(i)[p]) {
            Some(v) => v,
            None => one,
        },
        None => one,
    }
}

/// The preconditioner, one entry per row.
pub open spec fn jacobi_spec<T, G: Fn(T) -> Option<T>>(
    diagonal_inverse: G,
    one: T,
    m: SparseMatrix<T>,
) -> Seq<T> {
    Seq::new(m.num_rows(), |i: int| jacobi_entry(diagonal_inverse, one, m, i))
}

/// Position, within row `row`, of the first stored entry in column `row`.
fn diagonal_position<T>(matrix: &SparseMatrix<T>, row: usize) -> (result: Option<usize>)
    requires
        matrix.wf(),
        row < matrix.num_rows(),
    ensures
        match result {
            Some(p) => is_first_position(matrix.row_columns(row as int), row, p as int)
                && first_position(matrix.row_columns(row as int), row) == Some(p as int),
            None => first_position(matrix.row_columns(row as int), row) is None,
        },
{
    proof {
        matrix.lemma_row_bounds(row as int);
    }
    let offsets = matrix.row_offsets();
    let cols = matrix.col_indices();
    let start = offsets[row];
    let end = offsets[row + 1];
    let ghost s = matrix.row_columns(row as int);
    let mut k = start;
    while k < end
        invariant
            start <= k <= end,
            end <= cols@.len(),
            cols@ == matrix.columns(),
            start == matrix.row_start(row as int),
            end == matrix.row_end(row as int),
            s == matrix.row_columns(row as int),
            forall|q: int| 0 <= q < k - start ==> s[q] != row,
        decreases end - k,
    {
        if cols[k] == row {
            proof {
                assert(s[k - start] == row);
                lemma_first_position(s, row, k - start);
            }
            return Some(k - start);
        }
        k = k + 1;
    }
    assert(!(exists|p: int| 0 <= p < s.len() && s[p] == row));
    None
}

/// The Jacobi preconditioner of `matrix`: entry `i` is `v` when row `i`
/// stores a diagonal entry whose value `diagonal_inverse` maps to `Some(v)`,
/// and `one` otherwise.
pub fn jacobi_preconditioner<T: Copy, G: Fn(T) -> Option<T>>(
    matrix: &SparseMatrix<T>,
    one: T,
    diagonal_inverse: G,
) -> (result: Vec<T>)
    requires
        matrix.wf(),
        pure_unary(diagonal_inverse),
    ensures
        result@ == jacobi_spec(diagonal_inverse, one, *matrix),
{
    let nrows = matrix.nrows();
    let vals = matrix.values();
    let offsets = matrix.row_offsets();
    let mut result: Vec<T> = Vec::new();
    let mut i: usize = 0;
    while i < nrows
        invariant
            i <= nrows,
            nrows == matrix.num_rows(),
            matrix.wf(),
            vals@ == matrix.entries(),
            offsets@ == matrix.offsets(),
            pure_unary(diagonal_inverse),
            result@.len() == i,
            forall|r: int| 0 <= r < i ==> result@[r] == jacobi_entry(diagonal_inverse, one, *matrix, r),
        decreases nrows - i,
    {
        proof {
            matrix.lemma_row_bounds(i as int);
        }
        let entry = match diagonal_position(matrix, i) {
            Some(p) => {
                let value = vals[offsets[i] + p];
                assert(value == matrix.row_values(i as int)[p as int]);
                let inverse = diagonal_inverse(value);
                proof {
                    lemma_apply1(diagonal_inverse, value, inverse);
                }
                match inverse {
                    Some(v) => v,
                    None => one,
                }
            },
            None => one,
        };
        result.push(entry);
        i = i + 1;
    }
    assert(result@ =~= jacobi_spec(diagonal_inverse, one, *matrix));
    result
}

} // verus!

verus! {

/// Entry `i` of the preconditioner reads only the diagonal: when row `i`
/// stores no entry in column `i` it is `one`; otherwise, with `p` the first
/// position of the row whose column is `i`, it is `v` when
/// `diagonal_inverse` maps the value stored there to `Some(v)`, and `one`
/// when it maps it to `None`.
pub proof fn lemma_jacobi_reads_the_diagonal<T, G: Fn(T) -> Option<T>>(
    diagonal_inverse: G,
    one: T,
    m: SparseMatrix<T>,
    i: int,
    p: int,
)
    requires
        m.wf(),
        0 <= i < m.num_rows(),
    ensures
        (forall|q: int|
            m.offsets()[i] <= q < m.offsets()[i + 1] ==> m.columns()[q] != i) ==> jacobi_entry(
            diagonal_inverse,
            one,
            m,
            i,
        ) == one,
        ({
            let k = m.offsets()[i] + p;
            &&& 0 <= p
            &&& k < m.offsets()[i + 1]
            &&& m.columns()[k] == i
            &&& forall|q: int| m.offsets()[i] <= q < k ==> m.columns()[q] != i
        }) ==> jacobi_entry(diagonal_inverse, one, m, i) == match apply1(
            diagonal_inverse,
            m.entries()[m.offsets()[i] + p],
        ) {
            Some(v) => v,
            None => one,
        },
{
    m.lemma_row_bounds(i);
    let s = m.row_columns(i);
    let start = m.offsets()[i] as int;
    let end = m.offsets()[i + 1] as int;
    if forall|q: int| start <= q < end ==> m.columns()[q] != i {
        assert forall|q: int| 0 <= q < s.len() implies s[q] != i by {
            assert(s[q] == m.columns()[start + q]);
        }
        assert(!(exists|q: int| 0 <= q < s.len() && s[q] == i));
    }
    let k = start + p;
    if 0 <= p && k < end && m.columns()[k] == i && (forall|q: int|
        start <= q < k ==> m.columns()[q] != i) {
        assert(s[p] == i);
        assert forall|q: int| 0 <= q < p implies s[q] != i by {
            assert(s[q] == m.columns()[start + q]);
        }
        assert(is_first_position(s, i as usize, p));
        lemma_first_position(s, i as usize, p);
        assert(m.row_values(i)[p] == m.entries()[k]);
    }
}

} // verus!

verus! {

/// The preconditioner has one entry per row, entry `i` being the one for row `i`.
pub proof fn lemma_jacobi_one_entry_per_row<T, G: Fn(T) -> Option<T>>(
    diagonal_inverse: G,
    one: T,
    m: SparseMatrix<T>,
    i: int,
)
    requires
        0 <= i < m.num_rows(),
    ensures
        jacobi_spec(diagonal_inverse, one, m).len() == m.num_rows(),
        jacobi_spec(diagonal_inverse, one, m)[i] == jacobi_entry(diagonal_inverse, one, m, i),
{
}

} // verus!
