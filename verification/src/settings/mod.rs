//! The deployment settings read from a JSON file.

pub mod model;
