//! Strided vectors: logical element `i` of a vector with increment `inc`
//! lives at offset `i * inc` of its buffer.
use vstd::prelude::*;
use vstd::arithmetic::div_mod::{lemma_fundamental_div_mod, lemma_fundamental_div_mod_converse};

verus! {

/// Logical element `i` of the buffer `x` with increment `inc`.
pub open spec fn elem<T>(x: Seq<T>, inc: int, i: int) -> T {
    x[i * inc]
}

/// A buffer of `len` elements holds `n` logical elements spaced `inc` apart.
pub open spec fn spans(len: int, n: int, inc: int) -> bool {
    n <= 0 || (n - 1) * inc < len
}

/// `p` is the offset of one of the first `n` logical elements.
pub open spec fn on_stride(p: int, inc: int, n: int) -> bool {
    inc > 0 && p % inc == 0 && p / inc < n
}

/// The number of logical elements in a buffer of `len` elements: the offsets
/// `0, inc, 2 * inc, ...` below `len`.
pub open spec fn logical_len(len: int, inc: int) -> int {
    if len <= 0 {
        0
    } else {
        (len - 1) / inc + 1
    }
}

/// The number of pairs that two strided buffers yield when their logical
/// elements are taken side by side: the length of the shorter one.
pub open spec fn paired_len(xlen: int, incx: int, ylen: int, incy: int) -> int {
    if logical_len(xlen, incx) <= logical_len(ylen, incy) {
        logical_len(xlen, incx)
    } else {
        logical_len(ylen, incy)
    }
}

/// Every logical element of a spanning buffer is inside it.
pub proof fn lemma_spans_index(len: int, n: int, inc: int, i: int)
    requires
        spans(len, n, inc),
        0 <= i < n,
        0 <= inc,
    ensures
        0 <= i * inc < len,
{
    assert(0 <= i * inc <= (n - 1) * inc) by (nonlinear_arith)
        requires
            0 <= i <= n - 1,
            0 <= inc,
    ;
}

/// The offset of logical element `i` is on the stride, and belongs to no
/// other logical element.
pub proof fn lemma_stride_offset(i: int, inc: int)
    requires
        inc > 0,
    ensures
        (i * inc) % inc == 0,
        (i * inc) / inc == i,
{
    assert(i * inc == inc * i + 0) by (nonlinear_arith);
    lemma_fundamental_div_mod_converse(i * inc, inc, i, 0);
}

/// Going from `i` to `i + 1` logical elements adds exactly the offset
/// `i * inc`.
pub proof fn lemma_stride_step(p: int, inc: int, i: int)
    requires
        inc > 0,
    ensures
        on_stride(p, inc, i + 1) <==> (on_stride(p, inc, i) || p == i * inc),
        on_stride(p, inc, i) ==> p != i * inc,
{
    lemma_stride_offset(i, inc);
    lemma_fundamental_div_mod(p, inc);
    if p % inc == 0 && p / inc == i {
        assert(inc * (p / inc) == i * inc) by (nonlinear_arith)
            requires
                p / inc == i,
        ;
    }
}

/// A buffer spans its logical elements, and every aligned offset inside it
/// belongs to one of them.
pub proof fn lemma_logical_len(len: int, inc: int)
    requires
        inc > 0,
        0 <= len,
    ensures
        0 <= logical_len(len, inc),
        spans(len, logical_len(len, inc), inc),
        forall|p: int| 0 <= p < len && p % inc == 0 ==> #[trigger] on_stride(p, inc, logical_len(len, inc)),
{
    if len > 0 {
        let m = logical_len(len, inc);
        lemma_fundamental_div_mod(len - 1, inc);
        assert((m - 1) * inc == inc * ((len - 1) / inc)) by (nonlinear_arith)
            requires
                m - 1 == (len - 1) / inc,
        ;
        assert(0 <= (len - 1) / inc) by (nonlinear_arith)
            requires
                0 <= len - 1,
                inc > 0,
        ;
        assert forall|p: int| 0 <= p < len && p % inc == 0 implies #[trigger] on_stride(
            p,
            inc,
            m,
        ) by {
            vstd::arithmetic::div_mod::lemma_div_is_ordered(p, len - 1, inc);
        }
    }
}

/// Computes [`logical_len`].
pub fn logical_count(len: usize, inc: usize) -> (m: usize)
    requires
        inc > 0,
    ensures
        m == logical_len(len as int, inc as int),
{
    if len == 0 {
        0
    } else {
        proof {
            lemma_fundamental_div_mod(len - 1, inc as int);
            assert(inc * ((len - 1) / (inc as int)) >= (len - 1) / (inc as int)) by (nonlinear_arith)
                requires
                    inc >= 1,
                    (len - 1) / (inc as int) >= 0,
            ;
        }
        (len - 1) / inc + 1
    }
}

/// Computes [`spans`]: whether a buffer of `len` elements holds `n` logical
/// elements spaced `inc` apart.
pub fn holds(len: usize, n: usize, inc: usize) -> (r: bool)
    ensures
        r == spans(len as int, n as int, inc as int),
{
    if n == 0 {
        true
    } else {
        match (n - 1).checked_mul(inc) {
            Some(last) => last < len,
            None => false,
        }
    }
}

/// Fewer logical elements span whatever more do.
pub proof fn lemma_spans_fewer(len: int, n: int, k: int, inc: int)
    requires
        spans(len, n, inc),
        k <= n,
        0 <= inc,
    ensures
        spans(len, k, inc),
{
    if k > 0 {
        lemma_spans_index(len, n, inc, k - 1);
    }
}

/// Computes [`paired_len`].
pub fn paired_count(xlen: usize, incx: usize, ylen: usize, incy: usize) -> (m: usize)
    requires
        incx > 0,
        incy > 0,
    ensures
        m == paired_len(xlen as int, incx as int, ylen as int, incy as int),
        spans(xlen as int, m as int, incx as int),
        spans(ylen as int, m as int, incy as int),
{
    let mx: usize = logical_count(xlen, incx);
    let my: usize = logical_count(ylen, incy);
    proof {
        lemma_logical_len(xlen as int, incx as int);
        lemma_logical_len(ylen as int, incy as int);
        if mx <= my {
            lemma_spans_fewer(ylen as int, my as int, mx as int, incy as int);
        } else {
            lemma_spans_fewer(xlen as int, mx as int, my as int, incx as int);
        }
    }
    if mx <= my {
        mx
    } else {
        my
    }
}

} // verus!
