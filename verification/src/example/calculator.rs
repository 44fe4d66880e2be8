//! The calculator's error type.
use vstd::prelude::*;

verus! {

/// Errors that can occur during calculation operations.
#[derive(Debug, Clone, Copy, PartialEq, Eq, Structural)]
pub enum CalculatorError {
    /// Attempted division by zero.
    DivisionByZero,
}

impl CalculatorError {
    /// The human-readable description of the error.
    pub fn message(&self) -> (s: String)
        ensures
            s@ == "cannot divide by zero"@,
    {
        match self {
            CalculatorError::DivisionByZero => String::from_str("cannot divide by zero"),
        }
    }
}

} // verus!
