//! The forms of the public pages.

pub mod account_models;
pub mod home_models;
