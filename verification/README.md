# bmstu_os2_matrix_solver

Sparse linear-system kernels verified with Verus, and a benchmark front end
that solves `A x = b` with Jacobi-preconditioned BiCGSTAB on a range of
thread counts.

- `src/` is the verified library. Its kernels are generic over the scalar
  type; the caller passes the scalar operations as pure closures, so the
  traversal, indexing and accumulation order are proved for every scalar type.
  - `sparse`: CSR storage with a checked constructor.
  - `nalgebra_csr`: bringing a `nalgebra_sparse::CsrMatrix` into CSR storage.
  - `spmv`: serial and per-row sparse matrix by vector products.
  - `dot`: plain and eight-lane dot products, and their agreement under exact
    arithmetic.
  - `jacobi`: the Jacobi preconditioner.
  - `dense`: dense vectors from (index, value) entries.
  - `bicgstab`: the solver's decisions (when to iterate, stop or fail) as a
    state machine, with its laws.
  - `cli`: the command-line options.
- `app/` is the program: Matrix Market I/O, the `f64` instantiation of the
  kernels, the rayon-parallel product, the floating-point steps of BiCGSTAB,
  timing, and plotting.
- `tests/` exercises the library.
