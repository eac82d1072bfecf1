//! A product as the search returns it.

use crate::dinero::Dinero;
use vstd::prelude::*;

verus! {

/// One product found by the search; the id is the UUID as a 128-bit number.
#[derive(Debug)]
pub struct ProductoBuscado {
    pub id: u128,
    pub nid: i32,
    pub nombre: String,
    pub esservicio: bool,
    pub unidadmedida: String,
    pub precio_venta: Dinero,
    pub precio_compra_promedio: Dinero,
    pub stock: Dinero,
    pub codigobarrasitem: String,
    pub codigobarrascaja: String,
}

} // verus!
