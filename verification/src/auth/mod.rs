//! Login: checking credentials against the users table, and the answers of
//! the login pages.

pub mod backend;
pub mod routes;
