pub mod function;
pub mod laws;
pub mod variable;
