use matrices::{Matrix, MatrixError};

fn grid(rows: &[&[i64]]) -> Matrix {
    Matrix::from(rows.iter().map(|r| r.to_vec()).collect()).unwrap()
}

#[test]
fn multiply_two_by_two() {
    let a = grid(&[&[1, 2], &[3, 4]]);
    let b = grid(&[&[5, 6], &[7, 8]]);
    let c = a.multiply(&b).unwrap();
    assert_eq!(c.rows, 2);
    assert_eq!(c.cols, 2);
    assert_eq!(c.data, vec![vec![19, 22], vec![43, 50]]);
}

#[test]
fn multiply_non_square() {
    let a = grid(&[&[1, 2, 3], &[4, 5, 6]]);
    let b = grid(&[&[7], &[8], &[9]]);
    let c = a.multiply(&b).unwrap();
    assert_eq!((c.rows, c.cols), (2, 1));
    assert_eq!(c.data, vec![vec![50], vec![122]]);
}

#[test]
fn multiply_shape_mismatch_is_error() {
    let a = grid(&[&[1, 2, 3], &[4, 5, 6]]);
    let b = grid(&[&[1, 2], &[3, 4]]);
    assert_eq!(a.multiply(&b).unwrap_err(), MatrixError::MultiplicationError);
}

#[test]
fn multiply_wraps_on_overflow() {
    let a = grid(&[&[i64::MAX, 1]]);
    let b = grid(&[&[1], &[1]]);
    assert_eq!(a.multiply(&b).unwrap().data, vec![vec![i64::MIN]]);
}

#[test]
fn add_subtract_dot_multiply_values() {
    let a = grid(&[&[1, -2], &[3, 4]]);
    let b = grid(&[&[10, 20], &[-30, 40]]);
    assert_eq!(a.add(&b).unwrap().data, vec![vec![11, 18], vec![-27, 44]]);
    assert_eq!(a.subtract(&b).unwrap().data, vec![vec![-9, -22], vec![33, -36]]);
    assert_eq!(a.dot_multiply(&b).unwrap().data, vec![vec![10, -40], vec![-90, 160]]);
}

#[test]
fn elementwise_shape_mismatch_errors() {
    let a = grid(&[&[1, 2], &[3, 4]]);
    let b = grid(&[&[1, 2, 3], &[4, 5, 6]]);
    let c = grid(&[&[1, 2]]);
    assert_eq!(a.add(&b).unwrap_err(), MatrixError::AdditionError);
    assert_eq!(a.subtract(&b).unwrap_err(), MatrixError::SubtractionError);
    assert_eq!(a.dot_multiply(&b).unwrap_err(), MatrixError::DotMultiplicationError);
    assert_eq!(a.add(&c).unwrap_err(), MatrixError::AdditionError);
}

#[test]
fn subtract_undoes_add() {
    let a = grid(&[&[i64::MAX, -5], &[0, i64::MIN]]);
    let b = grid(&[&[1, 7], &[-3, -1]]);
    let sum = a.add(&b).unwrap();
    assert_eq!(sum.data, vec![vec![i64::MIN, 2], vec![-3, i64::MAX]]);
    assert_eq!(sum.subtract(&b).unwrap().data, a.data);
}

#[test]
fn dot_multiply_commutes() {
    let a = grid(&[&[1, 2, 3], &[4, 5, 6]]);
    let b = grid(&[&[-1, 0, 2], &[7, -3, 9]]);
    assert_eq!(a.dot_multiply(&b).unwrap().data, b.dot_multiply(&a).unwrap().data);
    let same = a.map(&|x| x);
    assert_eq!(same.dot_multiply(&b).unwrap().data, a.dot_multiply(&b).unwrap().data);
}

#[test]
fn transpose_of_product() {
    let a = grid(&[&[1, 2, 3], &[4, 5, 6]]);
    let b = grid(&[&[7, 8], &[9, 10], &[11, 12]]);
    let left = a.multiply(&b).unwrap().transpose();
    let right = b.transpose().multiply(&a.transpose()).unwrap();
    assert_eq!(left.data, right.data);
    assert_eq!(left.data, vec![vec![58, 139], vec![64, 154]]);
}

#[test]
fn transpose_shape_and_round_trip() {
    let a = grid(&[&[1, 2, 3], &[4, 5, 6]]);
    let t = a.transpose();
    assert_eq!((t.rows, t.cols), (3, 2));
    assert_eq!(t.data, vec![vec![1, 4], vec![2, 5], vec![3, 6]]);
    let back = t.transpose();
    assert_eq!((back.rows, back.cols), (2, 3));
    assert_eq!(back.data, a.data);
}

#[test]
fn map_identity_and_constant() {
    let a = grid(&[&[1, 2], &[3, 4], &[5, 6]]);
    assert_eq!(a.map(&|x| x).data, a.data);
    let c = a.map(&|_x| 9);
    assert_eq!((c.rows, c.cols), (3, 2));
    assert_eq!(c.data, vec![vec![9, 9]; 3]);
    assert_eq!(a.map(&|x| x * 10).data, vec![vec![10, 20], vec![30, 40], vec![50, 60]]);
}

#[test]
fn from_rejects_empty_and_ragged() {
    assert_eq!(Matrix::from(vec![]).unwrap_err(), MatrixError::ShapeError);
    assert_eq!(Matrix::from(vec![vec![1, 2], vec![3]]).unwrap_err(), MatrixError::ShapeError);
    let m = Matrix::from(vec![vec![], vec![]]).unwrap();
    assert_eq!((m.rows, m.cols), (2, 0));
}

#[test]
fn constant_constructors() {
    let z = Matrix::zeros(2, 3);
    assert_eq!((z.rows, z.cols), (2, 3));
    assert_eq!(z.data, vec![vec![0; 3]; 2]);
    let o = Matrix::ones(3, 1);
    assert_eq!(o.data, vec![vec![1]; 3]);
    let e = Matrix::zeros(0, 4);
    assert_eq!((e.rows, e.cols), (0, 4));
    assert!(e.data.is_empty());
}

#[test]
fn diagonal_non_square() {
    let d = Matrix::diagonal(2, 3);
    assert_eq!((d.rows, d.cols), (2, 3));
    assert_eq!(d.data, vec![vec![1, 0, 0], vec![0, 1, 0]]);
    let e = Matrix::diagonal(3, 2);
    assert_eq!(e.data, vec![vec![1, 0], vec![0, 1], vec![0, 0]]);
}

#[test]
fn random_entries_in_unit_range() {
    let r = Matrix::random(20, 30);
    assert_eq!((r.rows, r.cols), (20, 30));
    assert_eq!(r.data.len(), 20);
    let mut seen = std::collections::BTreeSet::new();
    for row in &r.data {
        assert_eq!(row.len(), 30);
        for &v in row {
            assert!((-1..=1).contains(&v));
            seen.insert(v);
        }
    }
    assert!(seen.len() > 1);
}
