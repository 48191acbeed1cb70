use neuro_matrix::matrix::MatrixError;
use neuro_matrix::network::Topology;

#[test]
fn topology_shapes() {
    let t = Topology::new(2, 4, 1);
    assert_eq!(t.parameter_shapes(), [(4, 2), (1, 4), (4, 1), (1, 1)]);
}

#[test]
fn topology_checks_lengths() {
    let t = Topology::new(2, 4, 1);
    assert_eq!(t.check_input(2), Ok(()));
    assert_eq!(t.check_input(3), Err(MatrixError::DimensionMismatch));
    assert_eq!(t.check_target(1), Ok(()));
    assert_eq!(t.check_target(0), Err(MatrixError::DimensionMismatch));
}
