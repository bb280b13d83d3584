//! Euclidean norm of a vector.
use vstd::prelude::*;
use crate::scalar::{RealScalar, Scalar};
use crate::level1::axpy::accumulated;
use crate::stride::{
    lemma_logical_len, lemma_spans_index, lemma_stride_offset, logical_count, logical_len, spans,
};

verus! {

/// The sum of the squared moduli of the logical elements `i < count`,
/// accumulated from zero in ascending order of `i`.
pub open spec fn square_sum<T: Scalar>(x: Seq<T>, incx: int, count: int) -> T::Real
    decreases count,
{
    if count <= 0 {
        T::Real::zero_spec()
    } else {
        square_sum(x, incx, count - 1).add_spec(x[(count - 1) * incx].norm_sqr_spec())
    }
}

/// The sum of the squared moduli of `a * x(i) + y(i)` over the logical
/// elements `i < count`, accumulated from zero in ascending order of `i`.
/// With `a = -1` this is the squared Euclidean distance between the points
/// `x` and `y`.
pub open spec fn offset_square_sum<T: Scalar>(
    a: T,
    x: Seq<T>,
    incx: int,
    y: Seq<T>,
    incy: int,
    count: int,
) -> T::Real
    decreases count,
{
    if count <= 0 {
        T::Real::zero_spec()
    } else {
        offset_square_sum(a, x, incx, y, incy, count - 1).add_spec(
            a.mul_spec(x[(count - 1) * incx]).add_spec(y[(count - 1) * incy]).norm_sqr_spec(),
        )
    }
}

/// The norm taken after `y := a * x + y` sums the squared moduli of
/// `a * x(i) + y(i)`: for `a = -1`, the norm of the result is the distance
/// between the two points.
pub proof fn lemma_norm_of_accumulated<T: Scalar>(
    a: T,
    x: Seq<T>,
    incx: int,
    y: Seq<T>,
    incy: int,
    count: int,
    k: int,
)
    requires
        incy > 0,
        0 <= k <= count,
        spans(y.len() as int, count, incy),
    ensures
        square_sum(accumulated(a, x, incx, y, incy, count), incy, k) == offset_square_sum(
            a,
            x,
            incx,
            y,
            incy,
            k,
        ),
    decreases k,
{
    if k > 0 {
        lemma_norm_of_accumulated(a, x, incx, y, incy, count, k - 1);
        lemma_stride_offset(k - 1, incy);
        lemma_spans_index(y.len() as int, count, incy, k - 1);
    }
}

/// The square root of the sum of the squared moduli of the elements.
pub trait Nrm2 {
    type Elem: Scalar;

    type Output;

    /// The elements of the buffer.
    spec fn elems(&self) -> Seq<Self::Elem>;

    /// The norm that [`Nrm2::nrm2`] returns.
    spec fn nrm2_spec(&self, incx: int) -> Self::Output;

    /// Takes the norm of the elements at the offsets `0, incx, 2 * incx, ...`.
    fn nrm2(&self, incx: usize) -> (r: Self::Output)
        requires
            incx > 0,
        ensures
            r == self.nrm2_spec(incx as int),
    ;
}

impl<T: Scalar> Nrm2 for [T] {
    type Elem = T;

    type Output = T::Real;

    open spec fn elems(&self) -> Seq<T> {
        self@
    }

    open spec fn nrm2_spec(&self, incx: int) -> T::Real {
        square_sum(self@, incx, logical_len(self@.len() as int, incx)).sqrt_spec()
    }

    fn nrm2(&self, incx: usize) -> (r: T::Real) {
        let m: usize = logical_count(self.len(), incx);
        proof {
            lemma_logical_len(self@.len() as int, incx as int);
        }
        let mut sum: T::Real = T::Real::zero();
        let mut i: usize = 0;
        while i < m
            invariant
                i <= m,
                spans(self@.len() as int, m as int, incx as int),
                sum == square_sum(self@, incx as int, i as int),
            decreases m - i,
        {
            proof {
                lemma_spans_index(self@.len() as int, m as int, incx as int, i as int);
                assert(self@.len() == self.len());
            }
            sum = sum.add(self[i * incx].norm_sqr());
            i = i + 1;
        }
        sum.sqrt()
    }
}

} // verus!
