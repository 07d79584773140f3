use matrices::{Matrix, Network, NetworkError};

fn grid(rows: &[&[i64]]) -> Matrix {
    Matrix::from(rows.iter().map(|r| r.to_vec()).collect()).unwrap()
}

#[test]
fn feed_forward_identity_scenario() {
    let weights = vec![grid(&[&[1, 0], &[0, 1]]), grid(&[&[1, 1]])];
    let biases = vec![Matrix::zeros(2, 1), Matrix::zeros(1, 1)];
    let mut net = Network::with_parameters(vec![2, 2, 1], weights, biases, |x: i64| x).unwrap();
    assert_eq!(net.feed_forward(vec![1, 1]).unwrap(), vec![2]);
    let trail = net.layer_activations();
    assert_eq!(trail.len(), 3);
    assert_eq!(trail[0].data, vec![vec![1], vec![1]]);
    assert_eq!(trail[1].data, vec![vec![1], vec![1]]);
    assert_eq!(trail[2].data, vec![vec![2]]);
}

#[test]
fn feed_forward_applies_bias_and_activation() {
    let weights = vec![grid(&[&[2, -1], &[0, 3], &[1, 1]])];
    let biases = vec![grid(&[&[1], &[-20], &[0]])];
    let relu = |x: i64| if x < 0 { 0 } else { x };
    let mut net = Network::with_parameters(vec![2, 3], weights, biases, relu).unwrap();
    assert_eq!(net.feed_forward(vec![4, 5]).unwrap(), vec![4, 0, 9]);
}

#[test]
fn feed_forward_wrong_input_length() {
    let mut net = Network::new(vec![3, 4, 2], |x: i64| x).unwrap();
    let weights: Vec<Vec<Vec<i64>>> = net.weights().iter().map(|m| m.data.clone()).collect();
    let biases: Vec<Vec<Vec<i64>>> = net.biases().iter().map(|m| m.data.clone()).collect();
    assert_eq!(net.feed_forward(vec![1, 2]).unwrap_err(), NetworkError::InputShapeError);
    assert_eq!(net.feed_forward(vec![1, 2, 3, 4]).unwrap_err(), NetworkError::InputShapeError);
    let after_w: Vec<Vec<Vec<i64>>> = net.weights().iter().map(|m| m.data.clone()).collect();
    let after_b: Vec<Vec<Vec<i64>>> = net.biases().iter().map(|m| m.data.clone()).collect();
    assert_eq!(weights, after_w);
    assert_eq!(biases, after_b);
    assert!(net.layer_activations().is_empty());
}

#[test]
fn zero_parameters_give_activation_of_zero() {
    let weights = vec![Matrix::zeros(3, 2), Matrix::zeros(4, 3)];
    let biases = vec![Matrix::zeros(3, 1), Matrix::zeros(4, 1)];
    let mut net = Network::with_parameters(vec![2, 3, 4], weights, biases, |x: i64| 2 * x + 7).unwrap();
    assert_eq!(net.feed_forward(vec![123, -456]).unwrap(), vec![7; 4]);
    assert_eq!(net.feed_forward(vec![0, 1]).unwrap(), vec![7; 4]);
}

#[test]
fn new_builds_shapes_from_layer_sizes() {
    let mut net = Network::new(vec![3, 5, 2], |x: i64| x).unwrap();
    assert_eq!(net.layers(), &vec![3, 5, 2]);
    let w = net.weights();
    assert_eq!(w.len(), 2);
    assert_eq!((w[0].rows, w[0].cols), (5, 3));
    assert_eq!((w[1].rows, w[1].cols), (2, 5));
    let b = net.biases();
    assert_eq!((b[0].rows, b[0].cols), (5, 1));
    assert_eq!((b[1].rows, b[1].cols), (2, 1));
    for m in w.iter().chain(b.iter()) {
        for row in &m.data {
            for &v in row {
                assert!((-1..=1).contains(&v));
            }
        }
    }
    let out = net.feed_forward(vec![1, 0, -1]).unwrap();
    assert_eq!(out.len(), 2);
    assert_eq!(net.layer_activations().len(), 3);
}

#[test]
fn new_rejects_bad_layer_sizes() {
    assert_eq!(Network::new(vec![3], |x: i64| x).err(), Some(NetworkError::ConfigurationError));
    assert_eq!(Network::new(vec![], |x: i64| x).err(), Some(NetworkError::ConfigurationError));
    assert_eq!(Network::new(vec![2, 0, 1], |x: i64| x).err(), Some(NetworkError::ConfigurationError));
}

#[test]
fn with_parameters_rejects_misfit_shapes() {
    let weights = vec![Matrix::zeros(2, 2)];
    let biases = vec![Matrix::zeros(2, 2)];
    let r = Network::with_parameters(vec![2, 2], weights, biases, |x: i64| x);
    assert_eq!(r.err(), Some(NetworkError::ConfigurationError));
    let weights = vec![Matrix::zeros(2, 2)];
    let r = Network::with_parameters(vec![2, 2], weights, vec![], |x: i64| x);
    assert_eq!(r.err(), Some(NetworkError::ConfigurationError));
    let ragged = Matrix { rows: 2, cols: 2, data: vec![vec![1, 2], vec![3]] };
    let r = Network::with_parameters(vec![2, 2], vec![ragged], vec![Matrix::zeros(2, 1)], |x: i64| x);
    assert_eq!(r.err(), Some(NetworkError::ConfigurationError));
}
