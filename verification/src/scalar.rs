//! Element types of the kernels.
//!
//! Every kernel is written once, over any type that offers the arithmetic of
//! [`Scalar`]. Each operation has a specification twin (`add_spec` for `add`,
//! and so on) that names its result, so that a kernel's contract can say which
//! operations were applied to which elements, and in which order, without
//! assuming that the arithmetic is exact or associative.
//!
//! The crate itself provides exact integer elements: `i64` with wrapping
//! arithmetic and [`GaussInt`], complex numbers with `i64` parts. Other
//! element types, floating-point numbers among them, come from the caller.
//! What the kernels promise holds of such a type as far as its operations
//! are functions of their arguments: each `_spec` function then stands for
//! what the operation of the same name returns.
use vstd::prelude::*;

verus! {

/// Real quantities that accompany a [`Scalar`]: coefficients of Hermitian
/// updates, magnitudes and norms.
pub trait RealScalar: Copy {
    spec fn zero_spec() -> Self;

    spec fn add_spec(self, rhs: Self) -> Self;

    spec fn mul_spec(self, rhs: Self) -> Self;

    spec fn lt_spec(self, rhs: Self) -> bool;

    spec fn le_spec(self, rhs: Self) -> bool;

    spec fn sqrt_spec(self) -> Self;

    /// The additive identity.
    fn zero() -> (r: Self)
        ensures
            r == Self::zero_spec(),
    ;

    /// `self + rhs`.
    fn add(self, rhs: Self) -> (r: Self)
        ensures
            r == self.add_spec(rhs),
    ;

    /// `self * rhs`.
    fn mul(self, rhs: Self) -> (r: Self)
        ensures
            r == self.mul_spec(rhs),
    ;

    /// Whether `self` is strictly below `rhs`.
    fn lt(self, rhs: Self) -> (r: bool)
        ensures
            r == self.lt_spec(rhs),
    ;

    /// Whether `self` is below or equal to `rhs`. Where two quantities cannot
    /// be compared, both this and [`RealScalar::lt`] are false.
    fn le(self, rhs: Self) -> (r: bool)
        ensures
            r == self.le_spec(rhs),
    ;

    /// The square root of `self`.
    fn sqrt(self) -> (r: Self)
        ensures
            r == self.sqrt_spec(),
    ;
}

/// Matrix and vector elements, real or complex.
pub trait Scalar: Copy {
    /// The type of real coefficients, squared moduli and magnitudes.
    type Real: RealScalar;

    spec fn zero_spec() -> Self;

    spec fn add_spec(self, rhs: Self) -> Self;

    spec fn sub_spec(self, rhs: Self) -> Self;

    spec fn mul_spec(self, rhs: Self) -> Self;

    spec fn div_spec(self, rhs: Self) -> Self;

    spec fn is_zero_spec(self) -> bool;

    spec fn conj_spec(self) -> Self;

    spec fn norm_sqr_spec(self) -> Self::Real;

    spec fn abs1_spec(self) -> Self::Real;

    spec fn order_key_spec(self) -> Self::Real;

    spec fn scale_spec(self, k: Self::Real) -> Self;

    spec fn add_real_spec(self, k: Self::Real) -> Self;

    /// The additive identity, with which every accumulation starts.
    fn zero() -> (r: Self)
        ensures
            r == Self::zero_spec(),
    ;

    /// `self + rhs`.
    fn add(self, rhs: Self) -> (r: Self)
        ensures
            r == self.add_spec(rhs),
    ;

    /// `self - rhs`.
    fn sub(self, rhs: Self) -> (r: Self)
        ensures
            r == self.sub_spec(rhs),
    ;

    /// `self * rhs`.
    fn mul(self, rhs: Self) -> (r: Self)
        ensures
            r == self.mul_spec(rhs),
    ;

    /// `self / rhs`, for a divisor that is not zero.
    fn div(self, rhs: Self) -> (r: Self)
        requires
            !rhs.is_zero_spec(),
        ensures
            r == self.div_spec(rhs),
    ;

    /// Whether `self` is exactly zero.
    fn is_zero(self) -> (r: bool)
        ensures
            r == self.is_zero_spec(),
    ;

    /// The complex conjugate; a real element is its own conjugate.
    fn conj(self) -> (r: Self)
        ensures
            r == self.conj_spec(),
    ;

    /// The squared modulus, a real quantity.
    fn norm_sqr(self) -> (r: Self::Real)
        ensures
            r == self.norm_sqr_spec(),
    ;

    /// The magnitude used by sums of magnitudes: `|x|` for a real element,
    /// `|re| + |im|` for a complex one (not the Euclidean modulus).
    fn abs1(self) -> (r: Self::Real)
        ensures
            r == self.abs1_spec(),
    ;

    /// The real quantity by which a search for an extremal element ranks
    /// `self`: a real element itself, and `|re| + |im|` for a complex one.
    fn order_key(self) -> (r: Self::Real)
        ensures
            r == self.order_key_spec(),
    ;

    /// `k * self` for a real coefficient `k`.
    fn scale(self, k: Self::Real) -> (r: Self)
        ensures
            r == self.scale_spec(k),
    ;

    /// `self + k` for a real quantity `k`: only the real part changes.
    fn add_real(self, k: Self::Real) -> (r: Self)
        ensures
            r == self.add_real_spec(k),
    ;
}

/// Truncating quotient of two `i64` that never fails: the dividend itself
/// where the divisor is zero, and `i64::MIN` for `i64::MIN / -1`.
pub open spec fn quot(a: i64, b: i64) -> i64 {
    match a.checked_div(b) {
        Some(q) => q,
        None => a,
    }
}

/// Computes [`quot`].
pub fn wrapping_quot(a: i64, b: i64) -> (r: i64)
    ensures
        r == quot(a, b),
{
    match a.checked_div(b) {
        Some(q) => q,
        None => a,
    }
}

/// `|a|` in wrapping arithmetic: `i64::MIN` is its own magnitude.
pub open spec fn magnitude(a: i64) -> i64 {
    if a < 0 {
        0i64.wrapping_sub(a)
    } else {
        a
    }
}

/// Computes [`magnitude`].
pub fn wrapping_magnitude(a: i64) -> (r: i64)
    ensures
        r == magnitude(a),
{
    if a < 0 {
        0i64.wrapping_sub(a)
    } else {
        a
    }
}

/// Whether `r` is the integer square root of `a`, rounded down.
pub open spec fn is_floor_sqrt(a: int, r: int) -> bool {
    0 <= r && r * r <= a && a < (r + 1) * (r + 1)
}

/// The largest `r >= 0` with `r * r <= a`, and 0 for a negative `a`.
pub open spec fn isqrt(a: i64) -> i64 {
    if a <= 0 {
        0i64
    } else {
        choose|r: i64| is_floor_sqrt(a as int, r as int)
    }
}

/// Two square roots of one number are equal.
pub proof fn lemma_isqrt_unique(a: int, r: int, s: int)
    requires
        is_floor_sqrt(a, r),
        is_floor_sqrt(a, s),
    ensures
        r == s,
{
    if r < s {
        assert((r + 1) * (r + 1) <= s * s) by (nonlinear_arith)
            requires
                0 <= r,
                r + 1 <= s,
        ;
    }
    if s < r {
        assert((s + 1) * (s + 1) <= r * r) by (nonlinear_arith)
            requires
                0 <= s,
                s + 1 <= r,
        ;
    }
}

/// Every natural number has an integer square root, which is not above it.
pub proof fn lemma_floor_sqrt_exists(a: int) -> (r: int)
    requires
        0 <= a,
    ensures
        is_floor_sqrt(a, r),
        r <= a,
    decreases a,
{
    if a == 0 {
        0
    } else {
        let s = lemma_floor_sqrt_exists(a - 1);
        if (s + 1) * (s + 1) <= a {
            assert(a < (s + 2) * (s + 2)) by (nonlinear_arith)
                requires
                    a - 1 < (s + 1) * (s + 1),
                    0 <= s,
            ;
            assert(s + 1 <= a) by (nonlinear_arith)
                requires
                    (s + 1) * (s + 1) <= a,
                    0 <= s,
            ;
            s + 1
        } else {
            assert(s * s <= a);
            s
        }
    }
}

/// [`isqrt`] is the integer square root: it is never negative, its square
/// is not above a positive `a`, and the square of the next integer is.
pub proof fn lemma_isqrt(a: i64)
    ensures
        0 <= isqrt(a),
        a > 0 ==> is_floor_sqrt(a as int, isqrt(a) as int),
        a <= 0 ==> isqrt(a) == 0,
{
    if a > 0 {
        let r = lemma_floor_sqrt_exists(a as int);
        assert(is_floor_sqrt(a as int, (r as i64) as int));
    }
}

/// Computes [`isqrt`] by bisection.
pub fn integer_sqrt(a: i64) -> (r: i64)
    ensures
        r == isqrt(a),
        0 <= r,
        a > 0 ==> is_floor_sqrt(a as int, r as int),
        a <= 0 ==> r == 0,
{
    if a <= 0 {
        return 0;
    }
    // 3037000500^2 exceeds i64::MAX, so the root lies below it.
    let mut lo: i64 = 0;
    let mut hi: i64 = 3037000500;
    assert(3037000500int * 3037000500int > a) by (nonlinear_arith)
        requires
            a <= 0x7fff_ffff_ffff_ffff,
    ;
    while hi - lo > 1
        invariant
            0 <= lo < hi <= 3037000500,
            lo * lo <= a < hi * hi,
        decreases hi - lo,
    {
        let mid: i64 = lo + (hi - lo) / 2;
        assert(mid * mid <= 3037000500int * 3037000500int) by (nonlinear_arith)
            requires
                0 <= mid <= 3037000500,
        ;
        assert(mid * mid >= 0) by (nonlinear_arith);
        let sq: i128 = (mid as i128) * (mid as i128);
        if sq <= a as i128 {
            lo = mid;
        } else {
            hi = mid;
        }
    }
    proof {
        let s = isqrt(a);
        assert(is_floor_sqrt(a as int, lo as int));
        lemma_isqrt_unique(a as int, lo as int, s as int);
    }
    lo
}

impl RealScalar for i64 {
    open spec fn zero_spec() -> i64 {
        0i64
    }

    open spec fn add_spec(self, rhs: i64) -> i64 {
        self.wrapping_add(rhs)
    }

    open spec fn mul_spec(self, rhs: i64) -> i64 {
        self.wrapping_mul(rhs)
    }

    open spec fn lt_spec(self, rhs: i64) -> bool {
        self < rhs
    }

    open spec fn le_spec(self, rhs: i64) -> bool {
        self <= rhs
    }

    open spec fn sqrt_spec(self) -> i64 {
        isqrt(self)
    }

    fn zero() -> (r: i64) {
        0i64
    }

    fn add(self, rhs: i64) -> (r: i64) {
        self.wrapping_add(rhs)
    }

    fn mul(self, rhs: i64) -> (r: i64) {
        self.wrapping_mul(rhs)
    }

    fn lt(self, rhs: i64) -> (r: bool) {
        self < rhs
    }

    fn le(self, rhs: i64) -> (r: bool) {
        self <= rhs
    }

    fn sqrt(self) -> (r: i64) {
        integer_sqrt(self)
    }
}

/// Integers modulo 2^64, read as signed: sums, differences and products
/// wrap, quotients truncate.
impl Scalar for i64 {
    type Real = i64;

    open spec fn zero_spec() -> i64 {
        0i64
    }

    open spec fn add_spec(self, rhs: i64) -> i64 {
        self.wrapping_add(rhs)
    }

    open spec fn sub_spec(self, rhs: i64) -> i64 {
        self.wrapping_sub(rhs)
    }

    open spec fn mul_spec(self, rhs: i64) -> i64 {
        self.wrapping_mul(rhs)
    }

    open spec fn div_spec(self, rhs: i64) -> i64 {
        quot(self, rhs)
    }

    open spec fn is_zero_spec(self) -> bool {
        self == 0
    }

    open spec fn conj_spec(self) -> i64 {
        self
    }

    open spec fn norm_sqr_spec(self) -> i64 {
        self.wrapping_mul(self)
    }

    open spec fn abs1_spec(self) -> i64 {
        magnitude(self)
    }

    open spec fn order_key_spec(self) -> i64 {
        self
    }

    open spec fn scale_spec(self, k: i64) -> i64 {
        k.wrapping_mul(self)
    }

    open spec fn add_real_spec(self, k: i64) -> i64 {
        self.wrapping_add(k)
    }

    fn zero() -> (r: i64) {
        0i64
    }

    fn add(self, rhs: i64) -> (r: i64) {
        self.wrapping_add(rhs)
    }

    fn sub(self, rhs: i64) -> (r: i64) {
        self.wrapping_sub(rhs)
    }

    fn mul(self, rhs: i64) -> (r: i64) {
        self.wrapping_mul(rhs)
    }

    fn div(self, rhs: i64) -> (r: i64) {
        wrapping_quot(self, rhs)
    }

    fn is_zero(self) -> (r: bool) {
        self == 0
    }

    fn conj(self) -> (r: i64) {
        self
    }

    fn norm_sqr(self) -> (r: i64) {
        self.wrapping_mul(self)
    }

    fn abs1(self) -> (r: i64) {
        wrapping_magnitude(self)
    }

    fn order_key(self) -> (r: i64) {
        self
    }

    fn scale(self, k: i64) -> (r: i64) {
        k.wrapping_mul(self)
    }

    fn add_real(self, k: i64) -> (r: i64) {
        self.wrapping_add(k)
    }
}

/// A complex number with `i64` real and imaginary parts, in wrapping
/// arithmetic.
#[derive(Clone, Copy, Debug, PartialEq, Eq, Structural)]
pub struct GaussInt {
    pub re: i64,
    pub im: i64,
}

impl GaussInt {
    /// The number `re + im * i`.
    pub fn new(re: i64, im: i64) -> (r: GaussInt)
        ensures
            r == (GaussInt { re, im }),
    {
        GaussInt { re, im }
    }
}

impl Scalar for GaussInt {
    type Real = i64;

    open spec fn zero_spec() -> GaussInt {
        GaussInt { re: 0, im: 0 }
    }

    open spec fn add_spec(self, rhs: GaussInt) -> GaussInt {
        GaussInt { re: self.re.wrapping_add(rhs.re), im: self.im.wrapping_add(rhs.im) }
    }

    open spec fn sub_spec(self, rhs: GaussInt) -> GaussInt {
        GaussInt { re: self.re.wrapping_sub(rhs.re), im: self.im.wrapping_sub(rhs.im) }
    }

    open spec fn mul_spec(self, rhs: GaussInt) -> GaussInt {
        GaussInt {
            re: self.re.wrapping_mul(rhs.re).wrapping_sub(self.im.wrapping_mul(rhs.im)),
            im: self.re.wrapping_mul(rhs.im).wrapping_add(self.im.wrapping_mul(rhs.re)),
        }
    }

    /// `self * conj(rhs)` with each part divided by the squared modulus of
    /// `rhs`, truncating.
    open spec fn div_spec(self, rhs: GaussInt) -> GaussInt {
        let d = rhs.norm_sqr_spec();
        GaussInt {
            re: quot(self.re.wrapping_mul(rhs.re).wrapping_add(self.im.wrapping_mul(rhs.im)), d),
            im: quot(self.im.wrapping_mul(rhs.re).wrapping_sub(self.re.wrapping_mul(rhs.im)), d),
        }
    }

    open spec fn is_zero_spec(self) -> bool {
        self.re == 0 && self.im == 0
    }

    open spec fn conj_spec(self) -> GaussInt {
        GaussInt { re: self.re, im: 0i64.wrapping_sub(self.im) }
    }

    open spec fn norm_sqr_spec(self) -> i64 {
        self.re.wrapping_mul(self.re).wrapping_add(self.im.wrapping_mul(self.im))
    }

    open spec fn abs1_spec(self) -> i64 {
        magnitude(self.re).wrapping_add(magnitude(self.im))
    }

    open spec fn order_key_spec(self) -> i64 {
        magnitude(self.re).wrapping_add(magnitude(self.im))
    }

    open spec fn scale_spec(self, k: i64) -> GaussInt {
        GaussInt { re: k.wrapping_mul(self.re), im: k.wrapping_mul(self.im) }
    }

    open spec fn add_real_spec(self, k: i64) -> GaussInt {
        GaussInt { re: self.re.wrapping_add(k), im: self.im }
    }

    fn zero() -> (r: GaussInt) {
        GaussInt { re: 0, im: 0 }
    }

    fn add(self, rhs: GaussInt) -> (r: GaussInt) {
        GaussInt { re: self.re.wrapping_add(rhs.re), im: self.im.wrapping_add(rhs.im) }
    }

    fn sub(self, rhs: GaussInt) -> (r: GaussInt) {
        GaussInt { re: self.re.wrapping_sub(rhs.re), im: self.im.wrapping_sub(rhs.im) }
    }

    fn mul(self, rhs: GaussInt) -> (r: GaussInt) {
        GaussInt {
            re: self.re.wrapping_mul(rhs.re).wrapping_sub(self.im.wrapping_mul(rhs.im)),
            im: self.re.wrapping_mul(rhs.im).wrapping_add(self.im.wrapping_mul(rhs.re)),
        }
    }

    fn div(self, rhs: GaussInt) -> (r: GaussInt) {
        let d: i64 = rhs.norm_sqr();
        GaussInt {
            re: wrapping_quot(
                self.re.wrapping_mul(rhs.re).wrapping_add(self.im.wrapping_mul(rhs.im)),
                d,
            ),
            im: wrapping_quot(
                self.im.wrapping_mul(rhs.re).wrapping_sub(self.re.wrapping_mul(rhs.im)),
                d,
            ),
        }
    }

    fn is_zero(self) -> (r: bool) {
        self.re == 0 && self.im == 0
    }

    fn conj(self) -> (r: GaussInt) {
        GaussInt { re: self.re, im: 0i64.wrapping_sub(self.im) }
    }

    fn norm_sqr(self) -> (r: i64) {
        self.re.wrapping_mul(self.re).wrapping_add(self.im.wrapping_mul(self.im))
    }

    fn abs1(self) -> (r: i64) {
        wrapping_magnitude(self.re).wrapping_add(wrapping_magnitude(self.im))
    }

    fn order_key(self) -> (r: i64) {
        wrapping_magnitude(self.re).wrapping_add(wrapping_magnitude(self.im))
    }

    fn scale(self, k: i64) -> (r: GaussInt) {
        GaussInt { re: k.wrapping_mul(self.re), im: k.wrapping_mul(self.im) }
    }

    fn add_real(self, k: i64) -> (r: GaussInt) {
        GaussInt { re: self.re.wrapping_add(k), im: self.im }
    }
}

/// `one` is neutral for the multiplication, on either side.
pub open spec fn is_unit<T: Scalar>(one: T) -> bool {
    &&& forall|v: T| #[trigger] one.mul_spec(v) == v
    &&& forall|v: T| #[trigger] v.mul_spec(one) == v
}

/// Zero times anything is zero, and adding zero changes nothing. This holds
/// of exact arithmetic; it fails where a product with zero can be undefined.
pub open spec fn zero_vanishes<T: Scalar>() -> bool {
    &&& forall|v: T| #[trigger] T::zero_spec().mul_spec(v) == T::zero_spec()
    &&& forall|v: T| #[trigger] v.add_spec(T::zero_spec()) == v
}

/// Adding a sum and taking it away again restores a value. This holds of
/// exact and of wrapping arithmetic, not of rounding arithmetic.
pub open spec fn sums_cancel<T: Scalar>() -> bool {
    forall|u: T, s: T| #[trigger] u.add_spec(s).sub_spec(s) == u
}

/// Sums cancel in `i64`.
pub proof fn lemma_i64_sums_cancel()
    ensures
        sums_cancel::<i64>(),
{
}

/// Sums cancel in [`GaussInt`].
pub proof fn lemma_gauss_sums_cancel()
    ensures
        sums_cancel::<GaussInt>(),
{
}

/// `lt` is a strict weak order: nothing is below what is below it, and
/// what is below neither of two quantities in turn is not below across them.
/// This holds of numbers that can all be compared.
pub open spec fn strict_weak_order<R: RealScalar>() -> bool {
    &&& forall|a: R, b: R| #[trigger] a.lt_spec(b) ==> !b.lt_spec(a)
    &&& forall|a: R, b: R, c: R|
        !(#[trigger] a.lt_spec(b)) && !(#[trigger] b.lt_spec(c)) ==> !a.lt_spec(c)
}

/// `le` is a total preorder: any two quantities compare one way or the
/// other, and the comparison is transitive.
pub open spec fn total_preorder<R: RealScalar>() -> bool {
    &&& forall|a: R, b: R| #[trigger] a.le_spec(b) || b.le_spec(a)
    &&& forall|a: R, b: R, c: R| #[trigger] a.le_spec(b) && #[trigger] b.le_spec(c) ==> a.le_spec(c)
}

/// The integers are ordered in both senses.
pub proof fn lemma_i64_ordered()
    ensures
        strict_weak_order::<i64>(),
        total_preorder::<i64>(),
{
}

/// 1 is the unit of `i64`.
pub proof fn lemma_i64_unit()
    ensures
        is_unit(1i64),
{
    assert forall|v: i64| #[trigger] Scalar::mul_spec(1i64, v) == v by {
        assert(1 * v == v);
    }
    assert forall|v: i64| #[trigger] Scalar::mul_spec(v, 1i64) == v by {
        assert(v * 1 == v);
    }
}

/// Zero vanishes in `i64`.
pub proof fn lemma_i64_zero_vanishes()
    ensures
        zero_vanishes::<i64>(),
{
    assert forall|v: i64| #[trigger] Scalar::mul_spec(<i64 as Scalar>::zero_spec(), v) == <i64 as Scalar>::zero_spec() by {
        assert(0 * v == 0);
    }
}

/// `1 + 0i` is the unit of [`GaussInt`].
pub proof fn lemma_gauss_unit()
    ensures
        is_unit(GaussInt { re: 1, im: 0 }),
{
    let one = GaussInt { re: 1, im: 0 };
    assert forall|v: GaussInt| #[trigger] one.mul_spec(v) == v by {
        assert(1 * v.re == v.re && 1 * v.im == v.im && 0 * v.re == 0 && 0 * v.im == 0);
    }
    assert forall|v: GaussInt| #[trigger] v.mul_spec(one) == v by {
        assert(v.re * 1 == v.re && v.im * 1 == v.im && v.re * 0 == 0 && v.im * 0 == 0);
    }
}

/// Zero vanishes in [`GaussInt`].
pub proof fn lemma_gauss_zero_vanishes()
    ensures
        zero_vanishes::<GaussInt>(),
{
    assert forall|v: GaussInt| #[trigger]
        GaussInt::zero_spec().mul_spec(v) == GaussInt::zero_spec() by {
        assert(0 * v.re == 0 && 0 * v.im == 0);
    }
}

} // verus!
