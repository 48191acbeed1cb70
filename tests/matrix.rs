use neuro_matrix::matrix::{Matrix, MatrixError, MatrixOperation};

fn grid(rows: Vec<Vec<i16>>) -> Matrix {
    let mut m = Matrix::new(rows.len(), rows[0].len());
    m.data = rows;
    m
}

#[test]
fn initializer() {
    let m = Matrix::new(5, 4);
    assert_eq!(m.rows, 5);
    assert_eq!(m.cols, 4);
}

#[test]
fn product() {
    let mut a = Matrix::new(2, 3);
    a.data[0] = vec![1, 2, 3];
    a.data[1] = vec![4, 5, 6];

    let mut b = Matrix::new(3, 2);
    b.data[0] = vec![7, 8];
    b.data[1] = vec![9, 10];
    b.data[2] = vec![11, 12];

    let ab = Matrix::product(&a, &b).unwrap();

    assert_eq!(ab.data, vec![vec![58, 64], vec![139, 154]]);
}

#[test]
fn from_array() {
    let m = Matrix::from_array(&[1, 2, 3, 4]);

    assert_eq!(m.data, vec![vec![1], vec![2], vec![3], vec![4]]);
}

#[test]
fn to_array() {
    let mut m = Matrix::new(2, 2);
    m.data[0] = vec![1, 2];
    m.data[1] = vec![3, 4];

    let arr = m.to_array();

    assert_eq!(arr, vec![1, 2, 3, 4]);
}

#[test]
fn copy() {
    let mut m = Matrix::new(3, 3);
    m.randomize();

    let c = m.copy();

    assert_eq!(c.data, m.data);
    assert_eq!(c.rows, m.rows);
    assert_eq!(c.cols, m.cols);
}

#[test]
fn new_is_all_zero() {
    let m = Matrix::new(2, 3);
    assert_eq!(m.data, vec![vec![0, 0, 0], vec![0, 0, 0]]);
    let empty = Matrix::new(0, 0);
    assert_eq!(empty.rows, 0);
    assert!(empty.data.is_empty());
}

#[test]
fn product_shape_mismatch() {
    let a = Matrix::new(2, 3);
    let b = Matrix::new(2, 3);
    assert_eq!(Matrix::product(&a, &b).unwrap_err(), MatrixError::ShapeMismatch);
}

#[test]
fn product_is_associative_on_values() {
    let a = grid(vec![vec![1, 2], vec![3, 4]]);
    let b = grid(vec![vec![0, 1, -1], vec![2, 1, 0]]);
    let c = grid(vec![vec![1], vec![2], vec![3]]);
    let left = Matrix::product(&Matrix::product(&a, &b).unwrap(), &c).unwrap();
    let right = Matrix::product(&a, &Matrix::product(&b, &c).unwrap()).unwrap();
    assert_eq!(left.data, right.data);
    assert_eq!(left.data, vec![vec![7], vec![13]]);
}

#[test]
fn transpose_values_and_twice() {
    let m = grid(vec![vec![1, 2, 3], vec![4, 5, 6]]);
    let t = Matrix::transpose(&m);
    assert_eq!(t.rows, 3);
    assert_eq!(t.cols, 2);
    assert_eq!(t.data, vec![vec![1, 4], vec![2, 5], vec![3, 6]]);
    let back = Matrix::transpose(&t);
    assert_eq!(back.data, m.data);
    assert_eq!(back.rows, 2);
    assert_eq!(back.cols, 3);
}

#[test]
fn map_identity_keeps_matrix() {
    let mut m = grid(vec![vec![5, -6], vec![7, 8]]);
    let before = m.copy();
    m.map(|x| x);
    assert_eq!(m.data, before.data);
}

#[test]
fn map_applies_function() {
    let mut m = grid(vec![vec![1, 2], vec![3, 4]]);
    m.map(|x| x * 10);
    assert_eq!(m.data, vec![vec![10, 20], vec![30, 40]]);
}

#[test]
fn map_with_location_sees_positions() {
    let m = Matrix::new(2, 3);
    let r = m.map_with_location(|x, i, j| x + (10 * i + j) as i16);
    assert_eq!(r.data, vec![vec![0, 1, 2], vec![10, 11, 12]]);
}

#[test]
fn static_map_consumes_and_maps() {
    let m = grid(vec![vec![1, 2], vec![3, 4]]);
    let r = Matrix::static_map(m, |x, i, _j| x - i as i16);
    assert_eq!(r.data, vec![vec![1, 2], vec![2, 3]]);
}

#[test]
fn copy_is_independent() {
    let m = grid(vec![vec![1, 2]]);
    let mut c = m.copy();
    c.data[0][0] = 9;
    assert_eq!(m.data, vec![vec![1, 2]]);
}

#[test]
fn scalar_operations() {
    let m = grid(vec![vec![1, -2], vec![3, 4]]);
    assert_eq!(m.add_scalar(5).data, vec![vec![6, 3], vec![8, 9]]);
    assert_eq!(m.scale(-3).data, vec![vec![-3, 6], vec![-9, -12]]);
    let mut n = m.copy();
    assert_eq!(MatrixOperation::<i16>::add(&mut n, 1), Ok(()));
    assert_eq!(MatrixOperation::<i16>::multiply(&mut n, 2), Ok(()));
    assert_eq!(n.data, vec![vec![4, -2], vec![8, 10]]);
}

#[test]
fn elementwise_operations() {
    let a = grid(vec![vec![1, 2], vec![3, 4]]);
    let b = grid(vec![vec![5, 6], vec![7, 8]]);
    assert_eq!(a.add_elementwise(&b).unwrap().data, vec![vec![6, 8], vec![10, 12]]);
    assert_eq!(a.hadamard(&b).unwrap().data, vec![vec![5, 12], vec![21, 32]]);
    let mut c = a.copy();
    assert_eq!(c.add(b.copy()), Ok(()));
    assert_eq!(c.multiply(b.copy()), Ok(()));
    assert_eq!(c.data, vec![vec![30, 48], vec![70, 96]]);
}

#[test]
fn elementwise_shape_mismatch() {
    let a = Matrix::new(2, 2);
    let b = Matrix::new(2, 3);
    assert_eq!(a.add_elementwise(&b).unwrap_err(), MatrixError::ShapeMismatch);
    assert_eq!(a.hadamard(&b).unwrap_err(), MatrixError::ShapeMismatch);
    let mut c = grid(vec![vec![1, 2], vec![3, 4]]);
    assert_eq!(c.add(b.copy()), Err(MatrixError::ShapeMismatch));
    assert_eq!(c.multiply(b.copy()), Err(MatrixError::ShapeMismatch));
    assert_eq!(c.data, vec![vec![1, 2], vec![3, 4]]);
}

#[test]
fn from_array_then_to_array() {
    let m = Matrix::from_array(&[3, -1, 4]);
    assert_eq!(m.rows, 3);
    assert_eq!(m.cols, 1);
    assert_eq!(m.to_array(), vec![3, -1, 4]);
    assert!(Matrix::from_array(&[]).to_array().is_empty());
}

#[test]
fn randomize_stays_in_range() {
    let mut m = Matrix::new(6, 7);
    m.randomize();
    assert_eq!(m.rows, 6);
    assert_eq!(m.cols, 7);
    assert_eq!(m.data.len(), 6);
    for row in &m.data {
        assert_eq!(row.len(), 7);
        for &x in row {
            assert!((-10..10).contains(&x));
        }
    }
    assert!(m.data.iter().flatten().any(|&x| x != m.data[0][0]));
}
