//! Command-line options of the benchmark front end.

use std::path::PathBuf;
use vstd::prelude::*;

verus! {

/// `std::path::PathBuf`, carried through as an opaque value.
#[verifier::external_type_specification]
#[verifier::external_body]
pub struct ExPathBuf(PathBuf);

/// What to solve and over which thread counts to benchmark the solver.
#[derive(Debug)]
pub struct Options {
    /// Path to an .mtx file containing the target matrix.
    pub matrix_path: PathBuf,
    /// Path to an .mtx file containing the target RHS.
    pub rhs_path: PathBuf,
    /// From what amount of threads to start benchmarking.
    pub min_threads: u8,
    /// At what amount of threads to stop benchmarking.
    pub max_threads: u8,
}

} // verus!
