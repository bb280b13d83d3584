//! Dense, banded and packed matrix-vector kernels over a generic element type,
//! with the vector kernels they build on.
pub mod layout;
pub mod level1;
pub mod level2;
pub mod scalar;
pub mod stride;
