//! Product search.

pub mod models;
pub mod queries;
pub mod routes;
