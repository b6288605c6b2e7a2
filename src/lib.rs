pub mod linalg;
