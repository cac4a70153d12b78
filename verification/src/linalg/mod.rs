pub mod laws;
pub mod math;
pub mod matrix;
pub mod model;
pub mod sums;
pub mod vector;
