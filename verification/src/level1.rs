//! Vector kernels: scaling, scaled accumulation, plane rotation and
//! reductions over strided vectors.
pub mod asum;
pub mod axpy;
pub mod cabs;
pub mod dot;
pub mod iamax;
pub mod iamin;
pub mod nrm2;
pub mod rot;
pub mod scal;
