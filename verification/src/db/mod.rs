//! Business parameters stored in the database.

pub mod settings;
