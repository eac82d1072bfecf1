//! Verified core of the point-of-sale and inventory system of a stationery
//! shop: money arithmetic, sales grouping and daily summaries, wallet
//! (cashback) redemption, product and customer search planning, login
//! decisions and input validation.

pub mod app_state;
pub mod auth;
pub mod controllers;
pub mod db;
pub mod dinero;
pub mod error;
pub mod identificador;
pub mod texto;
pub mod validators;
pub mod models;
pub mod modules;
pub mod repos;
pub mod settings;
