//! Matrix-vector kernels: products, rank-1 and rank-2 updates, triangular
//! multiplication and solution.
pub mod gbmv;
pub mod gemv;
pub mod ger;
pub mod gerc;
pub mod hbmv;
pub mod hemv;
pub mod her;
pub mod her2;
pub mod hpmv;
pub mod hpr;
pub mod hpr2;
pub mod matvec;
pub mod rank;
pub mod sbmv;
pub mod spmv;
pub mod spr;
pub mod spr2;
pub mod symv;
pub mod syr;
pub mod syr2;
pub mod tbmv;
pub mod tbsv;
pub mod tpmv;
pub mod tpsv;
pub mod triangular;
pub mod trmv;
pub mod trsv;
