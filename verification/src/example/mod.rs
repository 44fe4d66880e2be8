//! Example domain: the calculator's error type.
pub mod calculator;
