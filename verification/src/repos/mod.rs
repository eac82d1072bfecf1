//! Users stored with a PBKDF2 password hash.

pub mod users_repo;
