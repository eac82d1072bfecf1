//! The query parameters of the product search.

use crate::texto::{recortado, recortar};
use vstd::prelude::*;

verus! {

/// `?q=&stock=` of the product search.
#[derive(Debug)]
pub struct BuscarParams {
    pub q: Option<String>,
    pub stock: Option<bool>,
}

/// The trimmed text of `q` (empty when absent), or `None` when nothing is left.
pub open spec fn consulta_de(q: Option<String>) -> Option<Seq<char>> {
    let t = match q {
        Some(s) => recortado(s@),
        None => Seq::<char>::empty(),
    };
    if t.len() == 0 {
        None
    } else {
        Some(t)
    }
}

impl BuscarParams {
    /// The text to search for: `q` trimmed; `None` when it is missing or
    /// blank, in which case the search answers an empty list.
    pub fn consulta(&self) -> (r: Option<String>)
        ensures
            r matches Some(s) ==> consulta_de(self.q) == Some(s@),
            r is None ==> consulta_de(self.q) is None,
    {
        match &self.q {
            Some(q) => {
                let t = recortar(q.as_str());
                if t.is_empty() {
                    None
                } else {
                    Some(String::from_str(t))
                }
            },
            None => None,
        }
    }

    /// Whether only products in stock are wanted; not asked means no.
    pub fn solo_con_stock(&self) -> (r: bool)
        ensures
            r == (self.stock == Some(true)),
    {
        match self.stock {
            Some(b) => b,
            None => false,
        }
    }
}

} // verus!
