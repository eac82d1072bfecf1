//! The deployment settings: the database file and where the server listens.

use crate::texto::{agregar_caracter, agregar_decimal, en_decimal};
use vstd::prelude::*;

verus! {

/// The deployment settings.
pub struct Settings {
    pub db: String,
    pub hosting: Hosting,
}

/// Where the server listens.
pub struct Hosting {
    pub protocol: String,
    pub ip: String,
    pub port: u16,
}

/// `base` joined with `ruta` as a Unix path: an absolute `ruta` replaces the
/// base; otherwise a `/` separates them unless the base is empty or already
/// ends with one.
pub open spec fn unir_ruta(base: Seq<char>, ruta: Seq<char>) -> Seq<char> {
    if ruta.len() > 0 && ruta[0] == '/' {
        ruta
    } else if base.len() > 0 && base.last() != '/' {
        base + seq!['/'] + ruta
    } else {
        base + ruta
    }
}

/// Joins `ruta` to `base`.
fn unir(base: &str, ruta: &str) -> (r: String)
    ensures
        r@ == unir_ruta(base@, ruta@),
{
    let n = base.unicode_len();
    let m = ruta.unicode_len();
    if m > 0 && ruta.get_char(0) == '/' {
        String::from_str(ruta)
    } else if n > 0 && base.get_char(n - 1) != '/' {
        let mut r = String::from_str(base);
        agregar_caracter(&mut r, '/');
        r.append(ruta);
        r
    } else {
        let mut r = String::from_str(base);
        r.append(ruta);
        r
    }
}

impl Hosting {
    /// `protocol://ip:port`, the port in decimal.
    pub fn descripcion(&self) -> (r: String)
        ensures
            r@ == self.protocol@ + "://"@ + self.ip@ + seq![':'] + en_decimal(self.port as nat),
    {
        let mut r = String::from_str(self.protocol.as_str());
        r.append("://");
        r.append(self.ip.as_str());
        agregar_caracter(&mut r, ':');
        agregar_decimal(&mut r, self.port as u64);
        r
    }
}

impl Settings {
    /// The path of the database file: the `settings` directory of the
    /// working directory, joined with `db`.
    pub fn cnn_str(&self, directorio_actual: &str) -> (r: String)
        ensures
            r@ == unir_ruta(unir_ruta(directorio_actual@, "settings"@), self.db@),
    {
        let dir = unir(directorio_actual, "settings");
        unir(dir.as_str(), self.db.as_str())
    }
}

} // verus!
