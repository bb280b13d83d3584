//! Sum of the magnitudes of a vector.
use vstd::prelude::*;
use crate::scalar::{RealScalar, Scalar};
use crate::stride::{lemma_logical_len, lemma_spans_index, logical_count, logical_len, spans};

verus! {

/// The sum of the magnitudes of the logical elements `i < count`,
/// accumulated from zero in ascending order of `i`. The magnitude of a
/// complex element is `|re| + |im|`.
pub open spec fn magnitude_sum<T: Scalar>(x: Seq<T>, incx: int, count: int) -> T::Real
    decreases count,
{
    if count <= 0 {
        T::Real::zero_spec()
    } else {
        magnitude_sum(x, incx, count - 1).add_spec(x[(count - 1) * incx].abs1_spec())
    }
}

/// The sum of the magnitudes of the elements.
pub trait Asum {
    type Elem: Scalar;

    type Output;

    /// The elements of the buffer.
    spec fn elems(&self) -> Seq<Self::Elem>;

    /// The sum of magnitudes that [`Asum::asum`] returns.
    spec fn asum_spec(&self, incx: int) -> Self::Output;

    /// Sums the magnitudes of the elements at the offsets
    /// `0, incx, 2 * incx, ...`.
    fn asum(&self, incx: usize) -> (r: Self::Output)
        requires
            incx > 0,
        ensures
            r == self.asum_spec(incx as int),
    ;
}

impl<T: Scalar> Asum for [T] {
    type Elem = T;

    type Output = T::Real;

    open spec fn elems(&self) -> Seq<T> {
        self@
    }

    open spec fn asum_spec(&self, incx: int) -> T::Real {
        magnitude_sum(self@, incx, logical_len(self@.len() as int, incx))
    }

    fn asum(&self, incx: usize) -> (r: T::Real) {
        let m: usize = logical_count(self.len(), incx);
        proof {
            lemma_logical_len(self@.len() as int, incx as int);
        }
        let mut sum: T::Real = T::Real::zero();
        let mut i: usize = 0;
        while i < m
            invariant
                i <= m,
                spans(self@.len() as int, m as int, incx as int),
                sum == magnitude_sum(self@, incx as int, i as int),
            decreases m - i,
        {
            proof {
                lemma_spans_index(self@.len() as int, m as int, incx as int, i as int);
                assert(self@.len() == self.len());
            }
            sum = sum.add(self[i * incx].abs1());
            i = i + 1;
        }
        sum
    }
}

} // verus!
