//! Validation of user input with regular expressions.

pub mod str_validators;
