//! Matrices of `nalgebra_sparse` brought into [`SparseMatrix`].

use nalgebra_sparse::CsrMatrix;
use vstd::prelude::*;
use vstd::slice::slice_to_vec;
use crate::sparse::{csr_format_error, offsets_monotone, CsrFormatError, SparseMatrix};

verus! {

/// `nalgebra_sparse::CsrMatrix`, carried through as an opaque value.
#[verifier::external_type_specification]
#[verifier::external_body]
#[verifier::reject_recursive_types(T)]
pub struct ExCsrMatrix<T>(CsrMatrix<T>);

/// Calls `CsrMatrix::csr_data`, which returns the row offsets, column indices
/// and values of the matrix. The contract states the format invariants that
/// nalgebra-sparse documents and enforces for every `CsrMatrix`: the offsets
/// start at 0, never decrease and end at the number of stored entries, there
/// is one value per column index, and the column indices of each row increase
/// strictly. That column indices are below `ncols()` is also enforced there,
/// but it relates two calls and is left unsaid; callers check it.
#[verifier::external_body]
fn csr_data<T>(m: &CsrMatrix<T>) -> (r: (&[usize], &[usize], &[T]))
    ensures
        r.0@.len() >= 1,
        r.0@[0] == 0,
        offsets_monotone(r.0@),
        r.0@.last() == r.1@.len(),
        r.2@.len() == r.1@.len(),
        forall|i: int, k: int|
            #![trigger r.0@[i], r.1@[k]]
            0 <= i < r.0@.len() - 1 && r.0@[i] <= k && k + 1 < r.0@[i + 1] ==> r.1@[k] < r.1@[k
                + 1],
{
    m.csr_data()
}

/// Calls `CsrMatrix::ncols`, the number of columns of the matrix; nothing is
/// stated of it.
#[verifier::external_body]
fn csr_ncols<T>(m: &CsrMatrix<T>) -> usize {
    m.ncols()
}

impl<T: Copy> SparseMatrix<T> {
    /// The matrix with the given CSR arrays: one row per offset but the last,
    /// `ncols` columns, and copies of the three arrays, after the same checks
    /// as `try_from_csr_data`.
    pub fn from_csr_parts(
        row_offsets: &[usize],
        col_indices: &[usize],
        values: &[T],
        ncols: usize,
    ) -> (result: Result<Self, CsrFormatError>)
        ensures
            row_offsets@.len() == 0 ==> result == Err::<Self, CsrFormatError>(
                CsrFormatError::OffsetsLength,
            ),
            row_offsets@.len() >= 1 ==> match csr_format_error(
                (row_offsets@.len() - 1) as nat,
                ncols as nat,
                row_offsets@,
                col_indices@,
                values@.len(),
            ) {
                Some(e) => result == Err::<Self, CsrFormatError>(e),
                None => result matches Ok(m) && m.wf() && m.num_rows() + 1 == row_offsets@.len()
                    && m.num_cols() == ncols && m.offsets() == row_offsets@ && m.columns()
                    == col_indices@ && m.entries() == values@,
            },
    {
        if row_offsets.len() == 0 {
            return Err(CsrFormatError::OffsetsLength);
        }
        SparseMatrix::try_from_csr_data(
            row_offsets.len() - 1,
            ncols,
            slice_to_vec(row_offsets),
            slice_to_vec(col_indices),
            slice_to_vec(values),
        )
    }

    /// The same matrix as `m`: its row offsets, column indices and values are
    /// copied, its row count is one less than the number of offsets and its
    /// column count is `m.ncols()`. The only check that can fail is the one on
    /// the column indices.
    pub fn from_csr(m: &CsrMatrix<T>) -> (result: Result<Self, CsrFormatError>)
        ensures
            match result {
                Ok(r) => r.wf(),
                Err(e) => e == CsrFormatError::ColumnOutOfBounds,
            },
    {
        let (offsets, cols, vals) = csr_data(m);
        let ncols = csr_ncols(m);
        SparseMatrix::from_csr_parts(offsets, cols, vals, ncols)
    }
}

} // verus!
