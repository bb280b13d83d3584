use blas_rs::level2::ger::Ger;
use blas_rs::level2::gerc::Gerc;
use blas_rs::level2::her::Her;
use blas_rs::level2::her2::Her2;
use blas_rs::level2::hpr::Hpr;
use blas_rs::level2::hpr2::Hpr2;
use blas_rs::level2::rank::{update_at, update_entry, Rank};
use blas_rs::level2::spr::Spr;
use blas_rs::level2::spr2::Spr2;
use blas_rs::level2::syr::Syr;
use blas_rs::level2::syr2::Syr2;
use blas_rs::scalar::GaussInt;

fn g(re: i64, im: i64) -> GaussInt {
    GaussInt::new(re, im)
}

#[test]
fn ger_adds_the_outer_product() {
    let mut a: Vec<i64> = vec![1, 1, 1, 1, 1, 1];
    let x: Vec<i64> = vec![1, 2];
    let y: Vec<i64> = vec![3, 4, 5];
    a.as_mut_slice().ger(2, 3, 2, x.as_slice(), y.as_slice(), 1, 1);
    assert_eq!(a, vec![7, 9, 11, 13, 17, 21]);
}

#[test]
fn ger_honours_increments_and_spares_further_rows() {
    let mut a: Vec<i64> = vec![0, 0, 0, 0, 9, 9];
    let x: Vec<i64> = vec![1, 70, 2];
    let y: Vec<i64> = vec![3, 80, 80, 4];
    a.as_mut_slice().ger(2, 2, 1, x.as_slice(), y.as_slice(), 2, 3);
    assert_eq!(a, vec![3, 4, 6, 8, 9, 9]);
}

#[test]
fn ger_passes_over_what_the_buffer_does_not_hold() {
    let mut a: Vec<i64> = vec![0, 0, 0];
    let x: Vec<i64> = vec![1, 2];
    let y: Vec<i64> = vec![3, 4];
    a.as_mut_slice().ger(2, 2, 1, x.as_slice(), y.as_slice(), 1, 1);
    assert_eq!(a, vec![3, 4, 6]);
}

#[test]
fn gerc_conjugates_y() {
    let mut a = vec![g(0, 0), g(0, 0), g(0, 0), g(0, 0)];
    let x = vec![g(1, 0), g(0, 2)];
    let y = vec![g(1, 1), g(2, 2)];
    a.as_mut_slice().gerc(2, 2, g(1, 0), x.as_slice(), y.as_slice(), 1, 1);
    // 2i * (1 - i) = 2 + 2i, 2i * (2 - 2i) = 4 + 4i
    assert_eq!(a, vec![g(1, -1), g(2, -2), g(2, 2), g(4, 4)]);
}

#[test]
fn syr_updates_both_triangles() {
    let mut a: Vec<i64> = vec![0, 0, 0, 0];
    let x: Vec<i64> = vec![1, 2];
    a.as_mut_slice().syr(2, 3, x.as_slice(), 1);
    assert_eq!(a, vec![3, 6, 6, 12]);
}

#[test]
fn syr2_updates_both_triangles() {
    let mut a: Vec<i64> = vec![0, 0, 0, 0];
    let x: Vec<i64> = vec![1, 2];
    let y: Vec<i64> = vec![3, 5];
    a.as_mut_slice().syr2(2, 1, x.as_slice(), y.as_slice(), 1, 1);
    // x y^T + y x^T = [[6, 11], [11, 20]]
    assert_eq!(a, vec![6, 11, 11, 20]);
}

#[test]
fn spr_updates_the_packed_triangle() {
    let mut ap: Vec<i64> = vec![0, 0, 0, 5];
    let x: Vec<i64> = vec![1, 2];
    ap.as_mut_slice().spr(2, 3, x.as_slice(), 1);
    assert_eq!(ap, vec![3, 6, 12, 5]);
}

#[test]
fn spr2_updates_the_packed_triangle() {
    let mut ap: Vec<i64> = vec![0, 0, 0];
    let x: Vec<i64> = vec![1, 2];
    let y: Vec<i64> = vec![3, 5];
    ap.as_mut_slice().spr2(2, 1, x.as_slice(), y.as_slice(), 1, 1);
    assert_eq!(ap, vec![6, 11, 20]);
}

#[test]
fn her_writes_the_diagonal_and_the_upper_triangle() {
    let mut a = vec![g(0, 0), g(0, 0), g(7, 7), g(0, 0)];
    let x = vec![g(1, 1), g(2, 0)];
    a.as_mut_slice().her(2, 2, x.as_slice(), 1);
    // diagonal: 2 * |1 + i|^2 = 4 and 2 * |2|^2 = 8
    // (0, 1): (2 * (1 + i)) * conj(2) = 4 + 4i
    assert_eq!(a, vec![g(4, 0), g(4, 4), g(7, 7), g(8, 0)]);
}

#[test]
fn her_keeps_the_diagonal_real() {
    let mut a = vec![g(5, 0), g(1, 2), g(0, 0), g(-3, 0)];
    let x = vec![g(3, -4), g(-1, 6)];
    a.as_mut_slice().her(2, -7, x.as_slice(), 1);
    assert_eq!(a[0].im, 0);
    assert_eq!(a[3].im, 0);
    assert_eq!(a[0].re, 5 - 7 * 25);
    assert_eq!(a[3].re, -3 - 7 * 37);
}

#[test]
fn her2_writes_the_diagonal_and_the_upper_triangle() {
    let mut a = vec![g(0, 0), g(0, 0), g(7, 7), g(0, 0)];
    let x = vec![g(1, 0), g(0, 1)];
    let y = vec![g(1, 1), g(2, 0)];
    a.as_mut_slice().her2(2, g(1, 0), x.as_slice(), y.as_slice(), 1, 1);
    // (0, 0): x0 conj(y0) + y0 conj(x0) = (1 - i) + (1 + i) = 2
    // (0, 1): x0 conj(y1) + y0 conj(x1) = 2 + (1 + i)(-i) = 3 - i
    // (1, 1): x1 conj(y1) + y1 conj(x1) = 2i - 2i = 0
    assert_eq!(a, vec![g(2, 0), g(3, -1), g(7, 7), g(0, 0)]);
}

#[test]
fn hpr_updates_the_packed_triangle() {
    let mut ap = vec![g(0, 0), g(0, 0), g(0, 0)];
    let x = vec![g(1, 1), g(2, 0)];
    ap.as_mut_slice().hpr(2, 2, x.as_slice(), 1);
    // (1, 0): (2 * 2) * conj(1 + i) = 4 - 4i
    assert_eq!(ap, vec![g(4, 0), g(4, -4), g(8, 0)]);
}

#[test]
fn hpr_keeps_the_diagonal_real() {
    let mut ap = vec![g(5, 0), g(1, 2), g(-3, 0)];
    let x = vec![g(3, -4), g(-1, 6)];
    ap.as_mut_slice().hpr(2, -7, x.as_slice(), 1);
    assert_eq!(ap[0], g(5 - 7 * 25, 0));
    assert_eq!(ap[2], g(-3 - 7 * 37, 0));
}

#[test]
fn hpr2_updates_the_packed_triangle() {
    let mut ap = vec![g(0, 0), g(0, 0), g(0, 0)];
    let x = vec![g(1, 0), g(0, 1)];
    let y = vec![g(1, 1), g(2, 0)];
    ap.as_mut_slice().hpr2(2, g(1, 0), x.as_slice(), y.as_slice(), 1, 1);
    // (1, 0): x1 conj(y0) + y1 conj(x0) = i (1 - i) + 2 = 3 + i
    assert_eq!(ap, vec![g(2, 0), g(3, 1), g(0, 0)]);
}

#[test]
fn her2_conjugates_alpha_in_the_second_term() {
    let mut a = vec![g(0, 0)];
    let x = vec![g(1, 0)];
    let y = vec![g(0, 1)];
    a.as_mut_slice().her2(1, g(0, 1), x.as_slice(), y.as_slice(), 1, 1);
    // i * 1 * conj(i) + conj(i) * i * conj(1) = 1 + 1
    assert_eq!(a, vec![g(2, 0)]);
}

#[test]
fn single_entries() {
    let x: Vec<i64> = vec![2, 3];
    let y: Vec<i64> = vec![5, 7];
    assert_eq!(update_entry(&Rank::Outer(10), &x, 1, &y, 1, 1, 0, 1), 1 + 10 * 3 * 5);
    assert_eq!(update_entry(&Rank::OuterConj(10), &x, 1, &y, 1, 0, 1, 1), 1 + 10 * 2 * 7);
    assert_eq!(update_entry(&Rank::Symmetric2(10), &x, 1, &y, 1, 1, 0, 1), 1 + 10 * (3 * 5 + 7 * 2));
    assert_eq!(update_entry(&Rank::Hermitian(10), &x, 1, &x, 1, 1, 1, 1), 1 + 10 * 9);
    assert_eq!(update_entry(&Rank::Hermitian(10), &x, 1, &x, 1, 0, 1, 1), 1 + 10 * 2 * 3);
    assert_eq!(update_entry(&Rank::Hermitian2(10), &x, 1, &y, 1, 0, 1, 1), 1 + 10 * 2 * 7 + 10 * 5 * 3);
}

#[test]
fn update_at_touches_what_the_update_writes() {
    let x: Vec<i64> = vec![2, 3];
    let y: Vec<i64> = vec![5, 7];
    // offset 2 of a 2 by 2 matrix is the entry (1, 0)
    assert_eq!(update_at(&Rank::Outer(10), 2, 2, &x, 1, &y, 1, 2, 1), 1 + 10 * 3 * 5);
    // beyond the rows of the matrix
    assert_eq!(update_at(&Rank::Outer(10), 2, 2, &x, 1, &y, 1, 4, 1), 1);
    // a Hermitian update keeps to the diagonal and above
    assert_eq!(update_at(&Rank::Hermitian(10), 2, 2, &x, 1, &x, 1, 2, 1), 1);
    assert_eq!(update_at(&Rank::Hermitian(10), 2, 2, &x, 1, &x, 1, 1, 1), 1 + 10 * 2 * 3);
    assert_eq!(update_at(&Rank::Hermitian(10), 2, 2, &x, 1, &x, 1, 3, 1), 1 + 10 * 9);
    // a matrix without columns
    assert_eq!(update_at(&Rank::Outer(10), 2, 0, &x, 1, &y, 1, 0, 1), 1);
}
