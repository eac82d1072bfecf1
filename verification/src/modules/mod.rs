//! The point-of-sale modules: customers, products and sales.

pub mod clientes;
pub mod productos;
pub mod ventas;
