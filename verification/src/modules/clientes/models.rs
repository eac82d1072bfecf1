//! A customer as the search returns it.

use vstd::prelude::*;

verus! {

/// One customer found by the search; the id is the UUID as a 128-bit number.
#[derive(Debug)]
pub struct ClienteBuscado {
    pub id: u128,
    pub nombre: String,
    pub telefono: String,
    pub email: String,
}

} // verus!
