//! Sales: the day's listing and summary, and the registration of a sale.

pub mod models;
pub mod queries;
pub mod routes;
