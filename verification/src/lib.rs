//! Sparse linear-system kernels: CSR storage, sparse matrix-vector products,
//! dot products, the Jacobi preconditioner and the control logic of the
//! preconditioned BiCGSTAB iteration.
//!
//! Every kernel is generic over the scalar type: the caller supplies the
//! scalar operations as pure closures, so the traversal, indexing and
//! accumulation order are verified independently of the number format.

pub mod scalar;
pub mod dot;
pub mod sparse;
pub mod spmv;
pub mod jacobi;
pub mod dense;
pub mod bicgstab;
pub mod cli;
pub mod nalgebra_csr;

use vstd::prelude::*;

verus! {

/// Iteration limit used by the solver front end.
pub const MAX_ITERATIONS: usize = 1_000_000;

/// Largest number of worker threads the benchmark front end uses.
pub const MAX_THREADS: usize = 20;

} // verus!
