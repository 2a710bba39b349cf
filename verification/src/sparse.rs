//! Compressed sparse row (CSR) storage.

use vstd::prelude::*;

verus! {

/// Why raw CSR data does not describe a matrix, in the order the checks run.
#[derive(Debug, Clone, Copy, PartialEq, Eq, Structural)]
pub enum CsrFormatError {
    /// The offset array does not hold `nrows + 1` entries.
    OffsetsLength,
    /// The first offset is not 0, or the last one is not the number of column indices.
    OffsetsEnds,
    /// Some row ends before it starts.
    OffsetsDecreasing,
    /// The value array and the column index array differ in length.
    LengthMismatch,
    /// Some column index is not below `ncols`.
    ColumnOutOfBounds,
}

/// `offsets` never decreases.
pub open spec fn offsets_monotone(offsets: Seq<usize>) -> bool {
    forall|i: int, j: int| 0 <= i <= j < offsets.len() ==> offsets[i] <= offsets[j]
}

/// Every column index is below `ncols`.
pub open spec fn columns_below(cols: Seq<usize>, ncols: int) -> bool {
    forall|k: int| 0 <= k < cols.len() ==> cols[k] < ncols
}

/// The error the checks report for raw CSR data, or `None` when the data
/// describes an `nrows x ncols` matrix.
pub open spec fn csr_format_error(
    nrows: nat,
    ncols: nat,
    offsets: Seq<usize>,
    cols: Seq<usize>,
    nvalues: nat,
) -> Option<CsrFormatError> {
    if offsets.len() != nrows + 1 {
        Some(CsrFormatError::OffsetsLength)
    } else if offsets[0] != 0 || offsets[nrows as int] != cols.len() {
        Some(CsrFormatError::OffsetsEnds)
    } else if !offsets_monotone(offsets) {
        Some(CsrFormatError::OffsetsDecreasing)
    } else if nvalues != cols.len() {
        Some(CsrFormatError::LengthMismatch)
    } else if !columns_below(cols, ncols as int) {
        Some(CsrFormatError::ColumnOutOfBounds)
    } else {
        None
    }
}

/// An `nrows x ncols` sparse matrix in CSR form: the entries of row `i` are at
/// positions `row_offsets[i] .. row_offsets[i + 1]` of `col_indices` (their
/// columns) and `values` (their values).
pub struct SparseMatrix<T> {
    nrows: usize,
    ncols: usize,
    row_offsets: Vec<usize>,
    col_indices: Vec<usize>,
    values: Vec<T>,
}

impl<T> SparseMatrix<T> {
    pub closed spec fn num_rows(&self) -> nat {
        self.nrows as nat
    }

    pub closed spec fn num_cols(&self) -> nat {
        self.ncols as nat
    }

    pub closed spec fn offsets(&self) -> Seq<usize> {
        self.row_offsets@
    }

    pub closed spec fn columns(&self) -> Seq<usize> {
        self.col_indices@
    }

    pub closed spec fn entries(&self) -> Seq<T> {
        self.values@
    }

    /// The CSR invariant.
    pub open spec fn wf(&self) -> bool {
        csr_format_error(
            self.num_rows(),
            self.num_cols(),
            self.offsets(),
            self.columns(),
            self.entries().len(),
        ) is None
    }

    /// Start of row `i` in the entry arrays.
    pub open spec fn row_start(&self, i: int) -> int {
        self.offsets()[i] as int
    }

    /// End (exclusive) of row `i` in the entry arrays.
    pub open spec fn row_end(&self, i: int) -> int {
        self.offsets()[i + 1] as int
    }

    /// The column indices of row `i`, in storage order.
    pub open spec fn row_columns(&self, i: int) -> Seq<usize> {
        self.columns().subrange(self.row_start(i), self.row_end(i))
    }

    /// The values of row `i`, in storage order.
    pub open spec fn row_values(&self, i: int) -> Seq<T> {
        self.entries().subrange(self.row_start(i), self.row_end(i))
    }

    /// Facts about the rows of a well-formed matrix.
    pub proof fn lemma_row_bounds(&self, i: int)
        requires
            self.wf(),
            0 <= i < self.num_rows(),
        ensures
            0 <= self.row_start(i) <= self.row_end(i) <= self.columns().len(),
            self.columns().len() == self.entries().len(),
            self.offsets().len() == self.num_rows() + 1,
            self.num_rows() <= usize::MAX,
    {
        assert(self.offsets()[0] <= self.offsets()[i]);
        assert(self.offsets()[i] <= self.offsets()[i + 1]);
        assert(self.offsets()[i + 1] <= self.offsets()[self.num_rows() as int]);
    }

    /// Builds a matrix from raw CSR data, checking the CSR invariant; the
    /// error names the first check that fails.
    pub fn try_from_csr_data(
        nrows: usize,
        ncols: usize,
        row_offsets: Vec<usize>,
        col_indices: Vec<usize>,
        values: Vec<T>,
    ) -> (result: Result<Self, CsrFormatError>)
        ensures
            match csr_format_error(
                nrows as nat,
                ncols as nat,
                row_offsets@,
                col_indices@,
                values@.len(),
            ) {
                Some(e) => result == Err::<Self, CsrFormatError>(e),
                None => result matches Ok(m) && m.wf() && m.num_rows() == nrows && m.num_cols()
                    == ncols && m.offsets() == row_offsets@ && m.columns() == col_indices@
                    && m.entries() == values@,
            },
    {
        if row_offsets.len() == 0 || row_offsets.len() - 1 != nrows {
            return Err(CsrFormatError::OffsetsLength);
        }
        if row_offsets[0] != 0 || row_offsets[nrows] != col_indices.len() {
            return Err(CsrFormatError::OffsetsEnds);
        }
        let mut i: usize = 0;
        while i < nrows
            invariant
                i <= nrows,
                row_offsets@.len() == nrows + 1,
                row_offsets@[0] == 0,
                row_offsets@[nrows as int] == col_indices@.len(),
                forall|p: int, q: int|
                    0 <= p <= q <= i ==> row_offsets@[p] <= row_offsets@[q],
            decreases nrows - i,
        {
            if row_offsets[i + 1] < row_offsets[i] {
                assert(!offsets_monotone(row_offsets@)) by {
                    assert(row_offsets@[i as int] > row_offsets@[i + 1]);
                    assert(0 <= i <= i + 1 < row_offsets@.len());
                }
                return Err(CsrFormatError::OffsetsDecreasing);
            }
            i = i + 1;
        }
        if values.len() != col_indices.len() {
            return Err(CsrFormatError::LengthMismatch);
        }
        let mut k: usize = 0;
        while k < col_indices.len()
            invariant
                k <= col_indices@.len(),
                row_offsets@.len() == nrows + 1,
                row_offsets@[0] == 0,
                row_offsets@[nrows as int] == col_indices@.len(),
                offsets_monotone(row_offsets@),
                values@.len() == col_indices@.len(),
                forall|q: int| 0 <= q < k ==> col_indices@[q] < ncols,
            decreases col_indices@.len() - k,
        {
            if col_indices[k] >= ncols {
                assert(!columns_below(col_indices@, ncols as int)) by {
                    assert(col_indices@[k as int] >= ncols);
                }
                return Err(CsrFormatError::ColumnOutOfBounds);
            }
            k = k + 1;
        }
        Ok(SparseMatrix { nrows, ncols, row_offsets, col_indices, values })
    }

    /// The number of rows.
    pub fn nrows(&self) -> (r: usize)
        ensures
            r == self.num_rows(),
    {
        self.nrows
    }

    /// The number of columns.
    pub fn ncols(&self) -> (r: usize)
        ensures
            r == self.num_cols(),
    {
        self.ncols
    }

    /// The number of stored entries.
    pub fn nnz(&self) -> (r: usize)
        ensures
            r == self.columns().len(),
    {
        self.col_indices.len()
    }

    /// The row offsets of the CSR form.
    pub fn row_offsets(&self) -> (r: &[usize])
        ensures
            r@ == self.offsets(),
    {
        self.row_offsets.as_slice()
    }

    /// The column index of every stored entry.
    pub fn col_indices(&self) -> (r: &[usize])
        ensures
            r@ == self.columns(),
    {
        self.col_indices.as_slice()
    }

    /// The value of every stored entry.
    pub fn values(&self) -> (r: &[T])
        ensures
            r@ == self.entries(),
    {
        self.values.as_slice()
    }
}

} // verus!

verus! {

/// Raw CSR data is accepted exactly when it has `nrows + 1` offsets that
/// start at 0, never decrease and end at the number of column indices, one
/// value per column index, and every column index below `ncols`.
pub proof fn lemma_csr_data_accepted_exactly_when_valid(
    nrows: nat,
    ncols: nat,
    offsets: Seq<usize>,
    cols: Seq<usize>,
    nvalues: nat,
)
    ensures
        (csr_format_error(nrows, ncols, offsets, cols, nvalues) is None) <==> ({
            &&& offsets.len() == nrows + 1
            &&& offsets[0] == 0
            &&& offsets[nrows as int] == cols.len()
            &&& forall|p: int, q: int|
                0 <= p <= q <= nrows ==> #[trigger] offsets[p] <= #[trigger] offsets[q]
            &&& nvalues == cols.len()
            &&& forall|k: int| 0 <= k < cols.len() ==> #[trigger] cols[k] < ncols
        }),
{
}

/// The rows partition the stored entries in order: row `i` holds the entries
/// at positions `offsets[i] .. offsets[i + 1]`, its `p`-th column and value
/// being `columns()[offsets[i] + p]` and `entries()[offsets[i] + p]`.
pub proof fn lemma_row_contents<T>(m: SparseMatrix<T>, i: int, p: int)
    requires
        m.wf(),
        0 <= i < m.num_rows(),
        0 <= p < m.offsets()[i + 1] - m.offsets()[i],
    ensures
        m.row_columns(i).len() == m.offsets()[i + 1] - m.offsets()[i],
        m.row_values(i).len() == m.offsets()[i + 1] - m.offsets()[i],
        m.row_columns(i)[p] == m.columns()[m.offsets()[i] + p],
        m.row_values(i)[p] == m.entries()[m.offsets()[i] + p],
{
    m.lemma_row_bounds(i);
}

} // verus!
