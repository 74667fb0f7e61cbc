use bowtie::math::matrix::{Determinant, IdentityMatrix, Matrix, ScaleMatrix};
use bowtie::math::trig::{checked_factorial, factorial};

#[test]
fn scalar_matrix_multiply_ok() {
    let matrix = Matrix::new(vec![vec![1, 2, 3], vec![4, 5, 6]]);
    let test_matrix = Matrix::new(vec![vec![2, 4, 6], vec![8, 10, 12]]);
    assert_eq!(matrix * 2, test_matrix);
}

#[test]
fn scalar_matrix_multiply_bad() {
    let matrix = Matrix::new(vec![vec![1, 2, 3], vec![4, 5, 6]]);
    let test_matrix = Matrix::new(vec![vec![2, 4, 6], vec![8, 10, 12]]);
    assert_ne!(matrix * 3, test_matrix);
}

#[test]
fn matrix_matrix_add_ok() {
    let matrix = Matrix::new(vec![vec![1, -7, 5], vec![0, 3, -10]]);
    let rhs_matrix = Matrix::new(vec![vec![5, 0, 3], vec![11, -1, 7]]);
    let test_matrix = Matrix::new(vec![vec![6, -7, 8], vec![11, 2, -3]]);
    assert_eq!(matrix + rhs_matrix, test_matrix);
}

#[test]
fn matrix_matrix_add_bad() {
    let matrix = Matrix::new(vec![vec![1, -7, 5], vec![0, 3, -10]]);
    let rhs_matrix = Matrix::new(vec![vec![5, 0, 3], vec![11, -1, 7]]);
    let test_matrix = Matrix::new(vec![vec![6, 0, 0], vec![11, 2, -3]]);
    assert_ne!(matrix + rhs_matrix, test_matrix);
}

#[test]
fn matrix_2x2_determinant() {
    let matrix = Matrix::new(vec![vec![1, 2], vec![3, 4]]);
    let test_det = -2;
    assert_eq!(matrix.det(), test_det);
}

#[test]
fn matrix_3x3_determinant() {
    let matrix = Matrix::new(vec![vec![6, 1, 1], vec![4, -2, 5], vec![2, 8, 7]]);
    let test_det = -306;
    assert_eq!(matrix.det(), test_det);
}

#[test]
fn matrix_4x4_determinant() {
    let matrix = Matrix::new(vec![
        vec![6, 1, 1, 3],
        vec![4, -2, 5, 10],
        vec![2, 8, 7, -8],
        vec![7, 9, 10, -9],
    ]);
    let test_det = 1464;
    assert_eq!(matrix.det(), test_det);
}

#[test]
fn matrix_5x5_determinant() {
    let matrix = Matrix::new(vec![
        vec![5, 6, 19, 10, 0],
        vec![12, 17, 8, 18, 9],
        vec![10, 10, 22, 2, 3],
        vec![67, 8, 9, 0, 0],
        vec![-3, 45, 3, 2, 1],
    ]);
    let test_det = 6709072;
    assert_eq!(matrix.det(), test_det);
}

#[test]
fn matrix_2x3_dot_3x2_ok() {
    let matrix = Matrix::new(vec![vec![0, 3, 5], vec![5, 5, 2]]);
    let rhs = Matrix::new(vec![vec![3, 4], vec![3, -2], vec![4, -2]]);
    let test_mat = Matrix::new(vec![vec![29, -16], vec![38, 6]]);
    assert_eq!(matrix * rhs, test_mat);
}

#[test]
fn matrix_3x3_dot_3x3_ok() {
    let matrix = Matrix::new(vec![vec![12, 7, 8], vec![99, -1, 8], vec![7, 6, -1]]);
    let rhs = Matrix::new(vec![vec![28, 9, 0], vec![0, 12, 3], vec![-9, 8, 10]]);
    let test_mat = Matrix::new(vec![
        vec![264, 256, 101],
        vec![2700, 943, 77],
        vec![205, 127, 8],
    ]);
    assert_eq!(matrix * rhs, test_mat);
}

#[test]
fn matrix_identity() {
    let matrix = Matrix::new(vec![vec![0, 3, 5], vec![5, 5, 2], vec![4, 4, 4]]);
    let test_mat = Matrix::new(vec![vec![1, 0, 0], vec![0, 1, 0], vec![0, 0, 1]]);
    assert_eq!(matrix.identity(), test_mat);
}

#[test]
fn matrix_creation_is_refused_for_ragged_rows() {
    assert!(Matrix::checked_new(vec![vec![1, 2], vec![1, 2, 3]]).is_none());
    assert!(Matrix::<i32>::checked_new(vec![]).is_none());
    assert!(!Matrix::is_valid_matrix(&vec![vec![1, 2], vec![1, 2, 3]]));
    assert!(Matrix::is_valid_matrix(&vec![vec![1, 2], vec![1, 2]]));
}

#[test]
fn matrix_keeps_its_items_row_after_row() {
    let matrix = Matrix::new(vec![vec![1, 2, 3], vec![4, 5, 6]]);
    assert_eq!(matrix.get_num_rows(), 2);
    assert_eq!(matrix.len(), 2);
    assert_eq!(matrix.get_num_columns(), 3);
    assert_eq!(matrix.get_inner_ptr(), &vec![1, 2, 3, 4, 5, 6]);
    assert_eq!(matrix.row(1), &vec![4, 5, 6]);
    assert_eq!(matrix.get(1, 0), 4);
    assert_eq!(
        Matrix::flatted_matrix_vec(&vec![vec![7, 8], vec![9, 10]]),
        vec![7, 8, 9, 10]
    );
}

#[test]
fn matrix_scale_and_identity_are_diagonal() {
    let scale = Matrix::generate_scale_matrix(2, 3, 4);
    let expected = Matrix::new(vec![
        vec![2, 0, 0, 0],
        vec![0, 3, 0, 0],
        vec![0, 0, 4, 0],
        vec![0, 0, 0, 1],
    ]);
    assert_eq!(scale, expected);
    assert_eq!(
        Matrix::<i32>::generate_identity(2),
        Matrix::new(vec![vec![1, 0], vec![0, 1]])
    );
}

#[test]
fn factorial_of_small_numbers() {
    assert_eq!(factorial(0), 1);
    assert_eq!(factorial(1), 1);
    assert_eq!(factorial(5), 120);
    assert_eq!(factorial(12), 479001600);
    assert_eq!(checked_factorial(12), Some(479001600));
    assert_eq!(checked_factorial(13), None);
    assert_eq!(checked_factorial(-1), None);
}

#[test]
fn shapes_that_do_not_fit_are_told_apart() {
    let matrix = Matrix::new(vec![vec![1, -7, 5], vec![0, 3, -10]]);
    let narrow = Matrix::new(vec![vec![5, 0], vec![11, -1]]);
    assert!(!matrix.has_shape_of(&narrow));
    assert!(matrix.has_shape_of(&matrix));
    // Two columns meet two rows; three columns do not.
    assert!(!matrix.fits_before(&narrow));
    assert!(narrow.fits_before(&matrix));
    let tall = Matrix::new(vec![vec![6, 1, 1], vec![4, -2, 5], vec![2, 8, 7], vec![7, 9, 10]]);
    assert!(!tall.is_square());
    assert!(narrow.is_square());
}
