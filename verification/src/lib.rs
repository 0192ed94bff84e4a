//! Arithmetization of a sparse matrix-vector product over a field foreign to
//! the constraint field: a plain-data sparse matrix with its native reference
//! product, its in-circuit mirror, two gadgets computing the product inside
//! the circuit, and a top-level circuit asserting that the product equals a
//! claimed output vector.

pub mod circuit;
pub mod field;
pub mod laws;
pub mod matrix;
pub mod r1cs;
