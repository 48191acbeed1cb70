//! Dense integer matrices with verified shape bookkeeping and arithmetic.

pub mod matrix;
pub mod laws;
pub mod network;
