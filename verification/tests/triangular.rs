use blas_rs::level2::tbmv::Tbmv;
use blas_rs::level2::tbsv::Tbsv;
use blas_rs::level2::tpmv::Tpmv;
use blas_rs::level2::tpsv::Tpsv;
use blas_rs::level2::trmv::Trmv;
use blas_rs::level2::trsv::Trsv;
use blas_rs::scalar::GaussInt;

fn g(re: i64, im: i64) -> GaussInt {
    GaussInt::new(re, im)
}

#[test]
fn trmv_multiplies_by_the_vector_as_it_was() {
    let a: Vec<i64> = vec![1, 2, 0, 3];
    let mut x: Vec<i64> = vec![1, 2];
    a.as_slice().trmv(2, &mut x, 1);
    // [[1, 2], [0, 3]] times [1, 2]
    assert_eq!(x, vec![5, 6]);
}

#[test]
fn trmv_does_not_read_below_the_diagonal() {
    let a: Vec<i64> = vec![1, 2, 4, 55, 3, 5, 55, 55, 6];
    let mut x: Vec<i64> = vec![1, 10, 100];
    a.as_slice().trmv(3, &mut x, 1);
    assert_eq!(x, vec![1 + 20 + 400, 30 + 500, 600]);
}

#[test]
fn trmv_honours_the_increment() {
    let a: Vec<i64> = vec![1, 2, 0, 3];
    let mut x: Vec<i64> = vec![1, 40, 2, 41];
    a.as_slice().trmv(2, &mut x, 2);
    assert_eq!(x, vec![5, 40, 6, 41]);
}

#[test]
fn trmv_over_complex_elements() {
    // [[i, 1], [0, 1 + i]] times [1, i]
    let a = vec![g(0, 1), g(1, 0), g(0, 0), g(1, 1)];
    let mut x = vec![g(1, 0), g(0, 1)];
    a.as_slice().trmv(2, &mut x, 1);
    assert_eq!(x, vec![g(0, 2), g(-1, 1)]);
}

#[test]
fn trsv_substitutes_backwards() {
    let a: Vec<i64> = vec![2, 1, 0, 3];
    let mut x: Vec<i64> = vec![4, 6];
    a.as_slice().trsv(2, &mut x, 1);
    // x1 = 6 / 3, x0 = (4 - 1 * 2) / 2
    assert_eq!(x, vec![1, 2]);
}

#[test]
fn trsv_skips_a_zero_diagonal() {
    let a: Vec<i64> = vec![0, 1, 0, 3];
    let mut x: Vec<i64> = vec![5, 6];
    a.as_slice().trsv(2, &mut x, 1);
    assert_eq!(x, vec![5, 2]);
    let singular: Vec<i64> = vec![2, 1, 0, 0];
    let mut z: Vec<i64> = vec![8, 6];
    singular.as_slice().trsv(2, &mut z, 1);
    // x1 stays 6, x0 = (8 - 1 * 6) / 2
    assert_eq!(z, vec![1, 6]);
}

#[test]
fn trsv_solves_a_unit_triangular_system() {
    let a: Vec<i64> = vec![1, 2, 4, 0, 1, 5, 0, 0, 1];
    let mut x: Vec<i64> = vec![7, 6, 1];
    a.as_slice().trsv(3, &mut x, 1);
    assert_eq!(x, vec![1, 1, 1]);
}

#[test]
fn trsv_over_complex_elements() {
    // [[i, 1], [0, 1 + i]] x = [1 + i, 2i]  gives  x1 = 1 + i, x0 = 0
    let a = vec![g(0, 1), g(1, 0), g(0, 0), g(1, 1)];
    let mut x = vec![g(1, 1), g(0, 2)];
    a.as_slice().trsv(2, &mut x, 1);
    assert_eq!(x, vec![g(0, 0), g(1, 1)]);
}

#[test]
fn tbmv_reads_the_band() {
    // [[1, 2, 0], [0, 3, 4], [0, 0, 5]]: diagonal in band row 1,
    // super-diagonal in band row 2
    let ab: Vec<i64> = vec![0, 0, 0, 1, 3, 5, 0, 2, 4];
    let mut x: Vec<i64> = vec![1, 10, 100];
    ab.as_slice().tbmv(3, 1, &mut x, 1);
    assert_eq!(x, vec![1 + 20, 30 + 400, 500]);
}

#[test]
fn tbmv_without_stored_super_diagonals() {
    let ab: Vec<i64> = vec![0, 1, 0, 2, 0, 3];
    let mut x: Vec<i64> = vec![1, 2, 3];
    ab.as_slice().tbmv(3, 1, &mut x, 1);
    assert_eq!(x, vec![2, 0, 9]);
}

#[test]
fn tbsv_reads_the_band() {
    // [[1, 2, 0], [0, 1, 4], [0, 0, 1]] x = [3, 5, 1]
    let ab: Vec<i64> = vec![0, 0, 0, 1, 1, 1, 0, 2, 4];
    let mut x: Vec<i64> = vec![3, 5, 1];
    ab.as_slice().tbsv(3, 1, &mut x, 1);
    assert_eq!(x, vec![1, 1, 1]);
}

#[test]
fn tbsv_undoes_tbmv_on_a_diagonal_matrix() {
    let ab: Vec<i64> = vec![2, -3, 5];
    let before: Vec<i64> = vec![7, 11, -13];
    let mut x = before.clone();
    ab.as_slice().tbmv(3, 0, &mut x, 1);
    assert_eq!(x, vec![14, -33, -65]);
    ab.as_slice().tbsv(3, 0, &mut x, 1);
    assert_eq!(x, before);
}

#[test]
fn trsv_undoes_trmv() {
    let a: Vec<i64> = vec![1, 2, 0, 3];
    let mut x: Vec<i64> = vec![1, 2];
    a.as_slice().trmv(2, &mut x, 1);
    assert_eq!(x, vec![5, 6]);
    a.as_slice().trsv(2, &mut x, 1);
    assert_eq!(x, vec![1, 2]);
}

#[test]
fn tpsv_undoes_tpmv_and_tbsv_undoes_tbmv() {
    let before: Vec<i64> = vec![7, -11, 13];
    // [[1, 2, 4], [0, -1, 5], [0, 0, 1]], upper triangle column by column
    let ap: Vec<i64> = vec![1, 2, -1, 4, 5, 1];
    let mut x = before.clone();
    ap.as_slice().tpmv(3, &mut x, 1);
    assert_eq!(x, vec![7 - 22 + 52, 11 + 65, 13]);
    ap.as_slice().tpsv(3, &mut x, 1);
    assert_eq!(x, before);
    // [[1, 2, 0], [0, -1, 5], [0, 0, 1]] as a band with one super-diagonal
    let ab: Vec<i64> = vec![0, 0, 0, 1, -1, 1, 0, 2, 5];
    let mut z = before.clone();
    ab.as_slice().tbmv(3, 1, &mut z, 1);
    assert_eq!(z, vec![7 - 22, 11 + 65, 13]);
    ab.as_slice().tbsv(3, 1, &mut z, 1);
    assert_eq!(z, before);
}

#[test]
fn tpmv_reads_the_packed_columns() {
    // [[1, 2, 4], [0, 3, 5], [0, 0, 6]], upper triangle column by column
    let ap: Vec<i64> = vec![1, 2, 3, 4, 5, 6];
    let mut x: Vec<i64> = vec![1, 10, 100];
    ap.as_slice().tpmv(3, &mut x, 1);
    assert_eq!(x, vec![1 + 20 + 400, 30 + 500, 600]);
}

#[test]
fn tpsv_reads_the_packed_columns() {
    // [[1, 2, 4], [0, 1, 5], [0, 0, 1]] x = [7, 6, 1]
    let ap: Vec<i64> = vec![1, 2, 1, 4, 5, 1];
    let mut x: Vec<i64> = vec![7, 6, 1];
    ap.as_slice().tpsv(3, &mut x, 1);
    assert_eq!(x, vec![1, 1, 1]);
}

#[test]
fn empty_systems() {
    let a: Vec<i64> = vec![];
    let mut x: Vec<i64> = vec![4, 5];
    a.as_slice().trmv(0, &mut x, 1);
    a.as_slice().trsv(0, &mut x, 1);
    a.as_slice().tbmv(0, 3, &mut x, 1);
    a.as_slice().tbsv(0, 3, &mut x, 1);
    a.as_slice().tpmv(0, &mut x, 1);
    a.as_slice().tpsv(0, &mut x, 1);
    assert_eq!(x, vec![4, 5]);
}
