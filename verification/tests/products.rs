use blas_rs::layout::Layout;
use blas_rs::level2::gbmv::Gbmv;
use blas_rs::level2::gemv::Gemv;
use blas_rs::level2::hbmv::Hbmv;
use blas_rs::level2::hemv::Hemv;
use blas_rs::level2::hpmv::Hpmv;
use blas_rs::level2::matvec::{axpby, product, product_at, row_sum};
use blas_rs::level2::sbmv::Sbmv;
use blas_rs::level2::spmv::Spmv;
use blas_rs::level2::symv::Symv;
use blas_rs::scalar::GaussInt;

fn g(re: i64, im: i64) -> GaussInt {
    GaussInt::new(re, im)
}

#[test]
fn gemv_two_by_three() {
    let a: Vec<i64> = vec![1, 2, 3, 4, 5, 6];
    let x: Vec<i64> = vec![1, 2, 3];
    let mut y: Vec<i64> = vec![0, 0];
    a.as_slice().gemv(3, 1, x.as_slice(), 0, &mut y, 1, 1);
    assert_eq!(y, vec![14, 32]);
}

#[test]
fn gemv_scales_and_accumulates() {
    let a: Vec<i64> = vec![1, 2, 3, 4, 5, 6];
    let x: Vec<i64> = vec![1, 2, 3];
    let mut y: Vec<i64> = vec![1, -1];
    a.as_slice().gemv(3, 2, x.as_slice(), 3, &mut y, 1, 1);
    assert_eq!(y, vec![2 * 14 + 3, 2 * 32 - 3]);
}

#[test]
fn gemv_honours_both_increments() {
    let a: Vec<i64> = vec![1, 2, 3, 4, 5, 6];
    let x: Vec<i64> = vec![1, 90, 2, 90, 3];
    let mut y: Vec<i64> = vec![100, 7, 200];
    a.as_slice().gemv(3, 1, x.as_slice(), 1, &mut y, 2, 2);
    assert_eq!(y, vec![114, 7, 232]);
}

#[test]
fn gemv_with_zero_beta_does_not_read_y() {
    let a: Vec<i64> = vec![1, 2, 3, 4, 5, 6];
    let x: Vec<i64> = vec![1, 2, 3];
    let mut y1: Vec<i64> = vec![i64::MAX, i64::MIN];
    let mut y2: Vec<i64> = vec![-5, 12345];
    a.as_slice().gemv(3, 1, x.as_slice(), 0, &mut y1, 1, 1);
    a.as_slice().gemv(3, 1, x.as_slice(), 0, &mut y2, 1, 1);
    assert_eq!(y1, vec![14, 32]);
    assert_eq!(y1, y2);
}

#[test]
fn gemv_without_rows_or_columns() {
    let a: Vec<i64> = vec![];
    let x: Vec<i64> = vec![];
    let mut y: Vec<i64> = vec![5, 6];
    a.as_slice().gemv(0, 1, x.as_slice(), 2, &mut y, 1, 1);
    assert_eq!(y, vec![10, 12]);
    let mut none: Vec<i64> = vec![];
    a.as_slice().gemv(3, 1, &[1, 2, 3], 2, &mut none, 1, 1);
    assert_eq!(none, Vec::<i64>::new());
}

#[test]
fn row_sums_and_combination() {
    let a: Vec<i64> = vec![1, 2, 3, 4, 5, 6];
    let x: Vec<i64> = vec![1, 2, 3];
    assert_eq!(row_sum(Layout::Dense, &a, 3, &x, 1, 1, 0, 3), 32);
    assert_eq!(row_sum(Layout::Dense, &a, 3, &x, 1, 1, 1, 3), 28);
    assert_eq!(row_sum(Layout::Dense, &a, 3, &x, 1, 1, 3, 3), 0);
    assert_eq!(axpby(2i64, 10, 3, 4), 32);
    assert_eq!(axpby(2i64, 10, 0, 4), 20);
}

#[test]
fn gbmv_tridiagonal() {
    // [[1, 2, 0], [3, 4, 5], [0, 6, 7]] with the sub-diagonal in band row 0,
    // the diagonal in band row 1 and the super-diagonal in band row 2
    let ab: Vec<i64> = vec![3, 6, 0, 1, 4, 7, 0, 2, 5];
    let x: Vec<i64> = vec![1, 1, 1];
    let mut y: Vec<i64> = vec![0, 0, 0];
    ab.as_slice().gbmv(3, 3, 1, 1, 1, x.as_slice(), 0, &mut y, 1, 1);
    assert_eq!(y, vec![3, 12, 13]);
}

#[test]
fn gbmv_counts_entries_beyond_the_buffer_as_zero() {
    // the super-diagonal row is missing
    let ab: Vec<i64> = vec![3, 6, 0, 1, 4, 7];
    let x: Vec<i64> = vec![1, 1, 1];
    let mut y: Vec<i64> = vec![0, 0, 0];
    ab.as_slice().gbmv(3, 3, 1, 1, 1, x.as_slice(), 0, &mut y, 1, 1);
    assert_eq!(y, vec![1, 7, 13]);
}

#[test]
fn gbmv_keeps_the_diagonal_in_band_row_ku() {
    // kl = 0, ku = 1: the diagonal is [2, 0] in band row 1, the entry (1, 0)
    // is in band row 0, and (0, 1) would be in band row 2, which is not kept
    let ab: Vec<i64> = vec![0, 1, 2, 0, 3, 4];
    let x: Vec<i64> = vec![1, 2];
    let mut y: Vec<i64> = vec![0, 0];
    ab.as_slice().gbmv(2, 2, 0, 1, 1, x.as_slice(), 0, &mut y, 1, 1);
    assert_eq!(y, vec![2, 0]);
}

#[test]
fn gbmv_with_unequal_bandwidths() {
    // kl = 1, ku = 0: band row 0 holds the diagonal [1, 3, 5] and band row 1
    // the entries (0, 1) = 2 and (1, 2) = 4, in their columns
    let ab: Vec<i64> = vec![1, 3, 5, 0, 2, 4];
    let x: Vec<i64> = vec![1, 10, 100];
    let mut y: Vec<i64> = vec![0, 0, 0];
    ab.as_slice().gbmv(3, 3, 1, 0, 1, x.as_slice(), 0, &mut y, 1, 1);
    assert_eq!(y, vec![1 + 20, 30 + 400, 500]);
}

#[test]
fn symv_reads_the_upper_triangle_only() {
    let a: Vec<i64> = vec![1, 2, 99, 3];
    let x: Vec<i64> = vec![1, 2];
    let mut y: Vec<i64> = vec![0, 0];
    a.as_slice().symv(2, 1, x.as_slice(), 0, &mut y, 1, 1);
    assert_eq!(y, vec![5, 8]);
}

#[test]
fn symv_agrees_with_gemv_on_the_full_matrix() {
    let upper: Vec<i64> = vec![1, 2, 3, 0, 4, 5, 0, 0, 6];
    let full: Vec<i64> = vec![1, 2, 3, 2, 4, 5, 3, 5, 6];
    let x: Vec<i64> = vec![1, -2, 3];
    let mut y1: Vec<i64> = vec![1, 2, 3];
    let mut y2: Vec<i64> = vec![1, 2, 3];
    upper.as_slice().symv(3, 2, x.as_slice(), -1, &mut y1, 1, 1);
    full.as_slice().gemv(3, 2, x.as_slice(), -1, &mut y2, 1, 1);
    assert_eq!(y1, y2);
    assert_eq!(y1, vec![2 * 6 - 1, 2 * 9 - 2, 2 * 11 - 3]);
}

#[test]
fn spmv_agrees_with_gemv_on_the_full_matrix() {
    // lower triangle by rows: (0,0), (1,0), (1,1), (2,0), (2,1), (2,2)
    let packed: Vec<i64> = vec![1, 2, 4, 3, 5, 6];
    let full: Vec<i64> = vec![1, 2, 3, 2, 4, 5, 3, 5, 6];
    let x: Vec<i64> = vec![1, -2, 3];
    let mut y1: Vec<i64> = vec![0, 0, 0];
    let mut y2: Vec<i64> = vec![0, 0, 0];
    packed.as_slice().spmv(3, 1, x.as_slice(), 0, &mut y1, 1, 1);
    full.as_slice().gemv(3, 1, x.as_slice(), 0, &mut y2, 1, 1);
    assert_eq!(y1, y2);
    assert_eq!(y1, vec![6, 9, 11]);
}

#[test]
fn sbmv_agrees_with_gemv_on_the_full_matrix() {
    // [[1, 2, 0], [2, 3, 4], [0, 4, 5]]: diagonal in band row 1,
    // super-diagonal in band row 2, band row 0 is not read
    let ab: Vec<i64> = vec![77, 77, 77, 1, 3, 5, 0, 2, 4];
    let full: Vec<i64> = vec![1, 2, 0, 2, 3, 4, 0, 4, 5];
    let x: Vec<i64> = vec![1, 1, 1];
    let mut y1: Vec<i64> = vec![0, 0, 0];
    let mut y2: Vec<i64> = vec![0, 0, 0];
    ab.as_slice().sbmv(3, 1, 1, x.as_slice(), 0, &mut y1, 1, 1);
    full.as_slice().gemv(3, 1, x.as_slice(), 0, &mut y2, 1, 1);
    assert_eq!(y1, vec![3, 9, 9]);
    assert_eq!(y1, y2);
}

#[test]
fn hemv_conjugates_the_mirrored_half() {
    let a = vec![g(1, 0), g(2, 1), g(50, 50), g(3, 0)];
    let x = vec![g(1, 0), g(1, 0)];
    let mut y = vec![g(0, 0), g(0, 0)];
    a.as_slice().hemv(2, g(1, 0), x.as_slice(), g(0, 0), &mut y, 1, 1);
    assert_eq!(y, vec![g(3, 1), g(5, -1)]);
}

#[test]
fn hemv_agrees_with_gemv_on_the_full_matrix() {
    let upper = vec![g(1, 0), g(2, 1), g(0, 0), g(3, 0)];
    let full = vec![g(1, 0), g(2, 1), g(2, -1), g(3, 0)];
    let x = vec![g(1, 1), g(0, 2)];
    let mut y1 = vec![g(1, 0), g(0, 1)];
    let mut y2 = vec![g(1, 0), g(0, 1)];
    upper.as_slice().hemv(2, g(0, 1), x.as_slice(), g(2, 0), &mut y1, 1, 1);
    full.as_slice().gemv(2, g(0, 1), x.as_slice(), g(2, 0), &mut y2, 1, 1);
    assert_eq!(y1, y2);
}

#[test]
fn hpmv_conjugates_the_mirrored_half() {
    let ap = vec![g(1, 0), g(2, 1), g(3, 0)];
    let x = vec![g(1, 0), g(1, 0)];
    let mut y = vec![g(0, 0), g(0, 0)];
    ap.as_slice().hpmv(2, g(1, 0), x.as_slice(), g(0, 0), &mut y, 1, 1);
    assert_eq!(y, vec![g(3, -1), g(5, 1)]);
}

#[test]
fn hbmv_conjugates_the_mirrored_half() {
    // [[1, 2+i], [2-i, 3]]: diagonal in band row 1, super-diagonal in row 2
    let ab = vec![g(0, 0), g(0, 0), g(1, 0), g(3, 0), g(0, 0), g(2, 1)];
    let x = vec![g(1, 0), g(1, 0)];
    let mut y = vec![g(0, 0), g(0, 0)];
    ab.as_slice().hbmv(2, 1, g(1, 0), x.as_slice(), g(0, 0), &mut y, 1, 1);
    assert_eq!(y, vec![g(3, 1), g(5, -1)]);
}

#[test]
fn product_leaves_the_elements_between_strides() {
    let a: Vec<i64> = vec![2, 0, 0, 2];
    let x: Vec<i64> = vec![1, 1];
    let mut y: Vec<i64> = vec![10, 11, 12, 13, 14];
    product(Layout::Dense, &a, 2, 2, 1, &x, 1, 1, &mut y, 3);
    assert_eq!(y, vec![12, 11, 12, 15, 14]);
}

#[test]
fn product_reads_one_element_of_x_for_a_zero_increment() {
    let a: Vec<i64> = vec![1, 2, 3, 4];
    let x: Vec<i64> = vec![5];
    let mut y: Vec<i64> = vec![0, 0];
    a.as_slice().gemv(2, 1, x.as_slice(), 0, &mut y, 0, 1);
    assert_eq!(y, vec![15, 35]);
}

#[test]
fn product_at_replaces_the_logical_elements_only() {
    let a: Vec<i64> = vec![1, 2, 3, 4, 5, 6];
    let x: Vec<i64> = vec![1, 2, 3];
    assert_eq!(product_at(Layout::Dense, &a, 2, 3, 2, &x, 1, 3, 10, 0, 2), 2 * 14 + 30);
    assert_eq!(product_at(Layout::Dense, &a, 2, 3, 2, &x, 1, 3, 10, 1, 2), 10);
    assert_eq!(product_at(Layout::Dense, &a, 2, 3, 2, &x, 1, 3, 10, 2, 2), 2 * 32 + 30);
    assert_eq!(product_at(Layout::Dense, &a, 2, 3, 2, &x, 1, 3, 10, 4, 2), 10);
    assert_eq!(product_at(Layout::Dense, &a, 2, 3, 2, &x, 1, 0, 10, 2, 2), 2 * 32);
}
