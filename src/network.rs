use vstd::prelude::*;
use crate::matrix::MatrixError;

verus! {

/// The node counts of a three-layer network (input, hidden, output), which fix
/// the shape of every weight and bias matrix and of every vector it accepts.
#[derive(Debug, Clone, Copy, PartialEq, Eq, Structural)]
pub struct Topology {
    pub input_nodes: usize,
    pub hidden_nodes: usize,
    pub output_nodes: usize,
}

impl Topology {
    pub fn new(input_nodes: usize, hidden_nodes: usize, output_nodes: usize) -> (r: Topology)
        ensures
            r.input_nodes == input_nodes,
            r.hidden_nodes == hidden_nodes,
            r.output_nodes == output_nodes,
    {
        Topology { input_nodes, hidden_nodes, output_nodes }
    }

    /// `(rows, cols)` of the input-to-hidden weights, hidden-to-output weights,
    /// hidden bias and output bias, in that order.
    pub fn parameter_shapes(&self) -> (r: [(usize, usize); 4])
        ensures
            r@ == seq![
                (self.hidden_nodes, self.input_nodes),
                (self.output_nodes, self.hidden_nodes),
                (self.hidden_nodes, 1usize),
                (self.output_nodes, 1usize),
            ],
    {
        let r = [
            (self.hidden_nodes, self.input_nodes),
            (self.output_nodes, self.hidden_nodes),
            (self.hidden_nodes, 1),
            (self.output_nodes, 1),
        ];
        assert(r@ =~= seq![
            (self.hidden_nodes, self.input_nodes),
            (self.output_nodes, self.hidden_nodes),
            (self.hidden_nodes, 1usize),
            (self.output_nodes, 1usize),
        ]);
        r
    }

    /// Accepts an input vector of `len` values exactly when `len` is the
    /// number of input nodes.
    pub fn check_input(&self, len: usize) -> (r: Result<(), MatrixError>)
        ensures
            r is Ok <==> len == self.input_nodes,
            r is Err ==> r == Err::<(), MatrixError>(MatrixError::DimensionMismatch),
    {
        if len == self.input_nodes {
            Ok(())
        } else {
            Err(MatrixError::DimensionMismatch)
        }
    }

    /// Accepts a target vector of `len` values exactly when `len` is the
    /// number of output nodes.
    pub fn check_target(&self, len: usize) -> (r: Result<(), MatrixError>)
        ensures
            r is Ok <==> len == self.output_nodes,
            r is Err ==> r == Err::<(), MatrixError>(MatrixError::DimensionMismatch),
    {
        if len == self.output_nodes {
            Ok(())
        } else {
            Err(MatrixError::DimensionMismatch)
        }
    }
}

} // verus!
