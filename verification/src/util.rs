//! Small numeric and text helpers.

pub mod biggernum;
pub mod text;

pub use biggernum::BiggerNum;
