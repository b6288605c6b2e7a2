pub mod matrix;
pub mod matrix_iter;
pub mod matrix_ops;
pub mod vector;
pub mod laws;
