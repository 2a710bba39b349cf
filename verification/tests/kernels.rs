use bmstu_os2_matrix_solver::dense::dense_from_entries;
use bmstu_os2_matrix_solver::dot::{dot_product_scalar, dot_product_simd, LANES};
use bmstu_os2_matrix_solver::jacobi::jacobi_preconditioner;
use bmstu_os2_matrix_solver::sparse::{CsrFormatError, SparseMatrix};
use bmstu_os2_matrix_solver::spmv::Spmv;
use bmstu_os2_matrix_solver::{MAX_ITERATIONS, MAX_THREADS};

fn mul_add(acc: f64, a: f64, b: f64) -> f64 {
    acc + a * b
}

fn sum_start() -> f64 {
    std::iter::empty::<f64>().sum()
}

/// The 3 x 4 example of the CSR format:
/// [1 2 0 3]
/// [0 0 0 0]
/// [0 4 5 0]
fn example() -> SparseMatrix<f64> {
    SparseMatrix::try_from_csr_data(
        3,
        4,
        vec![0, 3, 3, 5],
        vec![0, 1, 3, 1, 2],
        vec![1.0, 2.0, 3.0, 4.0, 5.0],
    )
    .unwrap()
}

#[test]
fn csr_accessors_return_the_data() {
    let m = example();
    assert_eq!(m.nrows(), 3);
    assert_eq!(m.ncols(), 4);
    assert_eq!(m.nnz(), 5);
    assert_eq!(m.row_offsets(), &[0, 3, 3, 5]);
    assert_eq!(m.col_indices(), &[0, 1, 3, 1, 2]);
    assert_eq!(m.values(), &[1.0, 2.0, 3.0, 4.0, 5.0]);
}

#[test]
fn csr_rejects_wrong_offset_count() {
    let r = SparseMatrix::try_from_csr_data(3, 4, vec![0, 3, 5], vec![0, 1, 3, 1, 2], vec![1; 5]);
    assert_eq!(r.err(), Some(CsrFormatError::OffsetsLength));
    let r = SparseMatrix::<i32>::try_from_csr_data(0, 4, vec![], vec![], vec![]);
    assert_eq!(r.err(), Some(CsrFormatError::OffsetsLength));
}

#[test]
fn csr_rejects_bad_offset_ends() {
    let r = SparseMatrix::try_from_csr_data(3, 4, vec![1, 3, 3, 5], vec![0, 1, 3, 1, 2], vec![1; 5]);
    assert_eq!(r.err(), Some(CsrFormatError::OffsetsEnds));
    let r = SparseMatrix::try_from_csr_data(3, 4, vec![0, 3, 3, 4], vec![0, 1, 3, 1, 2], vec![1; 5]);
    assert_eq!(r.err(), Some(CsrFormatError::OffsetsEnds));
}

#[test]
fn csr_rejects_decreasing_offsets() {
    let r = SparseMatrix::try_from_csr_data(3, 4, vec![0, 4, 3, 5], vec![0, 1, 3, 1, 2], vec![1; 5]);
    assert_eq!(r.err(), Some(CsrFormatError::OffsetsDecreasing));
}

#[test]
fn csr_rejects_length_mismatch() {
    let r = SparseMatrix::try_from_csr_data(3, 4, vec![0, 3, 3, 5], vec![0, 1, 3, 1, 2], vec![1; 4]);
    assert_eq!(r.err(), Some(CsrFormatError::LengthMismatch));
}

#[test]
fn csr_rejects_column_out_of_bounds() {
    let r = SparseMatrix::try_from_csr_data(3, 3, vec![0, 3, 3, 5], vec![0, 1, 3, 1, 2], vec![1; 5]);
    assert_eq!(r.err(), Some(CsrFormatError::ColumnOutOfBounds));
}

#[test]
fn from_csr_copies_a_nalgebra_matrix() {
    let csr = nalgebra_sparse::CsrMatrix::try_from_csr_data(
        3,
        4,
        vec![0, 3, 3, 5],
        vec![0, 1, 3, 1, 2],
        vec![1.0, 2.0, 3.0, 4.0, 5.0],
    )
    .unwrap();
    let m = SparseMatrix::from_csr(&csr).unwrap();
    assert_eq!(m.nrows(), 3);
    assert_eq!(m.ncols(), 4);
    assert_eq!(m.row_offsets(), csr.row_offsets());
    assert_eq!(m.col_indices(), csr.col_indices());
    assert_eq!(m.values(), csr.values());
}

#[test]
fn serial_spmv_multiplies_rows() {
    let m = example();
    let x = [1.0, 2.0, 3.0, 4.0];
    let y = Spmv.serial(&m, &x, sum_start(), mul_add);
    assert_eq!(y.len(), 3);
    assert_eq!(y[0], 1.0 * 1.0 + 2.0 * 2.0 + 3.0 * 4.0);
    assert_eq!(y[2], 4.0 * 2.0 + 5.0 * 3.0);
    // An empty row is the empty sum.
    assert_eq!(y[1], 0.0);
    assert!(y[1].is_sign_negative());
}

#[test]
fn serial_spmv_agrees_with_nalgebra() {
    let coo = {
        let mut coo = nalgebra_sparse::CooMatrix::<f64>::new(4, 4);
        coo.push(0, 0, 4.0);
        coo.push(0, 3, -1.0);
        coo.push(1, 1, 2.5);
        coo.push(2, 0, 1.0);
        coo.push(2, 2, 3.0);
        coo.push(3, 3, 0.5);
        coo
    };
    let csr = nalgebra_sparse::CsrMatrix::from(&coo);
    let x = nalgebra::DVector::from_vec(vec![1.0, -2.0, 0.5, 8.0]);
    let expected = &csr * &x;
    let m = SparseMatrix::from_csr(&csr).unwrap();
    let y = Spmv.serial(&m, x.as_slice(), sum_start(), mul_add);
    assert_eq!(y.as_slice(), expected.as_slice());
}

#[test]
fn spmv_accumulates_in_storage_order() {
    // An accumulator that records the order of the terms.
    let m = SparseMatrix::try_from_csr_data(1, 3, vec![0, 3], vec![2, 0, 1], vec![1u64, 2, 3]).unwrap();
    let x = [10u64, 20, 30];
    let order = |acc: u64, v: u64, xv: u64| acc.wrapping_mul(1000).wrapping_add(v * xv);
    let y = Spmv.serial(&m, &x, 7, order);
    let expected = ((7 * 1000 + 1 * 30) * 1000 + 2 * 10) * 1000 + 3 * 20;
    assert_eq!(y, vec![expected]);
}

#[test]
fn rows_one_at_a_time_agree_with_serial() {
    let m = example();
    let x = [0.5, -1.0, 2.0, 0.25];
    let serial = Spmv.serial(&m, &x, sum_start(), mul_add);
    for row in (0..m.nrows()).rev() {
        let value = Spmv.row_product(&m, row, &x, sum_start(), mul_add);
        assert_eq!(value.to_bits(), serial[row].to_bits());
    }
}

#[test]
fn spmv_accepts_a_longer_vector() {
    let m = example();
    let x = [1.0, 1.0, 1.0, 1.0, 100.0];
    let y = Spmv.serial(&m, &x, sum_start(), mul_add);
    assert_eq!(y, vec![6.0, -0.0, 9.0]);
}

#[test]
fn dot_scalar_uses_the_common_prefix() {
    let r = dot_product_scalar(&[1.0, 2.0, 3.0], &[4.0, 5.0, 6.0, 7.0], sum_start(), mul_add);
    assert_eq!(r, 32.0);
    let empty: [f64; 0] = [];
    let r = dot_product_scalar(&empty, &[1.0], sum_start(), mul_add);
    assert!(r == 0.0 && r.is_sign_negative());
}

#[test]
fn dot_simd_matches_scalar_on_exact_values() {
    for len in 0..40usize {
        let a: Vec<f64> = (0..len).map(|i| (i % 7) as f64 - 3.0).collect();
        let b: Vec<f64> = (0..len + 3).map(|i| (i % 5) as f64 * 0.5).collect();
        let simd = dot_product_simd(&a, &b, 0.0, mul_add, |x: f64, y: f64| x + y);
        let scalar = dot_product_scalar(&a, &b, sum_start(), mul_add);
        assert_eq!(simd, scalar, "length {len}");
    }
}

#[test]
fn dot_simd_groups_by_lane_then_tail() {
    // Non-commutative bookkeeping operations expose the grouping exactly.
    let a: Vec<u64> = (1..=19).collect();
    let b: Vec<u64> = vec![1; 19];
    let mul_add = |acc: u64, x: u64, y: u64| acc.wrapping_mul(100).wrapping_add(x * y);
    let plus = |x: u64, y: u64| x.wrapping_mul(1_000_003).wrapping_add(y);
    let got = dot_product_simd(&a, &b, 0, mul_add, plus);

    let mut lanes = [0u64; LANES];
    for chunk in 0..2 {
        for (lane, acc) in lanes.iter_mut().enumerate() {
            *acc = mul_add(*acc, a[chunk * 8 + lane], b[chunk * 8 + lane]);
        }
    }
    let mut total = lanes[0];
    for lane in &lanes[1..] {
        total = plus(total, *lane);
    }
    for i in 16..19 {
        total = mul_add(total, a[i], b[i]);
    }
    assert_eq!(got, total);
}

#[test]
fn dot_simd_of_float_vectors() {
    let a: Vec<f64> = (0..20).map(|i| i as f64).collect();
    let b = vec![2.0; 20];
    let r = dot_product_simd(&a, &b, 0.0, mul_add, |x: f64, y: f64| x + y);
    assert_eq!(r, 380.0);
}

fn jacobi_inverse(v: f64) -> Option<f64> {
    if v.abs() <= f64::EPSILON {
        Some(1.0 / v)
    } else {
        None
    }
}

#[test]
fn jacobi_keeps_one_without_a_small_diagonal() {
    // Row 0: diagonal 4.0; row 1: no stored diagonal; row 2: diagonal 0.0.
    let m = SparseMatrix::try_from_csr_data(
        3,
        3,
        vec![0, 2, 3, 5],
        vec![0, 2, 0, 0, 2],
        vec![4.0, 1.0, 7.0, 2.0, 0.0],
    )
    .unwrap();
    let r = jacobi_preconditioner(&m, 1.0, jacobi_inverse);
    assert_eq!(r.len(), 3);
    assert_eq!(r[0], 1.0);
    assert_eq!(r[1], 1.0);
    assert_eq!(r[2], f64::INFINITY);
}

#[test]
fn jacobi_uses_the_first_diagonal_entry() {
    let m = SparseMatrix::try_from_csr_data(1, 1, vec![0, 2], vec![0, 0], vec![-0.0, 5.0]).unwrap();
    let r = jacobi_preconditioner(&m, 1.0, jacobi_inverse);
    assert_eq!(r, vec![f64::NEG_INFINITY]);
    let r = jacobi_preconditioner(&m, 1.0, |v: f64| Some(v + 1.0));
    assert_eq!(r, vec![1.0]);
}

#[test]
fn jacobi_of_an_empty_matrix() {
    let m = SparseMatrix::<f64>::try_from_csr_data(0, 0, vec![0], vec![], vec![]).unwrap();
    assert!(jacobi_preconditioner(&m, 1.0, jacobi_inverse).is_empty());
}

#[test]
fn dense_entries_later_writes_win() {
    let r = dense_from_entries(4, &[1, 3, 1], &[10.0, 20.0, 30.0], 0.0);
    assert_eq!(r, vec![0.0, 30.0, 0.0, 20.0]);
}

#[test]
fn dense_entries_pair_up_to_the_shorter_list() {
    let r = dense_from_entries(3, &[0, 1, 2], &[5, 6], 9);
    assert_eq!(r, vec![5, 6, 9]);
    let r = dense_from_entries::<i32>(2, &[], &[], 0);
    assert_eq!(r, vec![0, 0]);
}

#[test]
fn limits() {
    assert_eq!(MAX_ITERATIONS, 1_000_000);
    assert_eq!(MAX_THREADS, 20);
}
