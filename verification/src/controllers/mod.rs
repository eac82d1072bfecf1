//! The answers of the account pages.

pub mod account_controller;
