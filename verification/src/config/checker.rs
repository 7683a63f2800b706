//! Checking a rule file: the errors, the checked model and the checker.

pub mod checker;
pub mod error;
pub mod guarantees;
pub mod model;

pub use checker::{check_program, process_define_rule, process_when_rule};
pub use error::{
    NumBoundary, ProgramCheckError, ProgramCheckErrorView, ProgramCheckResult, SemanticError,
};
