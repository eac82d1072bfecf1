//! Users, credentials and their verification (HMAC-SHA512 with the stored
//! salt as key).

use hmac::{Hmac, Mac};
use sha2::Sha512;
use vstd::prelude::*;
use vstd::utf8::encode_utf8;

verus! {

/// The user kept in the session of an authenticated request.
#[derive(Clone, Debug)]
pub struct User {
    pub id: u128,
    pub email: String,
    pub is_active: bool,
    pub es_socio: bool,
}

impl User {
    /// The identifier of the user.
    pub fn id(&self) -> (r: u128)
        ensures
            r == self.id,
    {
        self.id
    }

    /// The value whose change invalidates the session: the bytes of the
    /// email, so that changing the email ends every session.
    pub fn session_auth_hash(&self) -> (r: &[u8])
        ensures
            r@ == encode_utf8(self.email@),
    {
        self.email.as_str().as_bytes()
    }
}

/// The credentials of the login form.
#[derive(Debug)]
pub struct Credentials {
    pub email: String,
    pub password: String,
}

/// The row of the users table that authentication reads.
#[derive(Debug)]
pub struct FilaCredenciales {
    pub id: u128,
    pub email: String,
    pub isactive: Option<bool>,
    pub essocio: bool,
    pub passwordhash: Vec<u8>,
    pub passwordsalt: Vec<u8>,
}

/// The row of the users table that loads the user of a session.
#[derive(Debug)]
pub struct FilaUsuario {
    pub id: u128,
    pub email: String,
    pub isactive: Option<bool>,
    pub essocio: bool,
}

/// The HMAC-SHA512 tag of `mensaje` under the key `clave` (64 bytes).
pub uninterp spec fn hmac_sha512(clave: Seq<u8>, mensaje: Seq<u8>) -> Seq<u8>;

/// Calls `Hmac::<Sha512>::new_from_slice` with the key, `Mac::update` with
/// the message and `Mac::verify_slice` with the tag. Claims: the answer is
/// whether the tag equals the HMAC-SHA512 of the message under the key,
/// and a tag whose length is not the 64 bytes of that output is refused.
/// (HMAC accepts keys of any length, so the key never fails.) Not stated:
/// that the tag is compared in constant time.
#[verifier::external_body]
fn verificar_hmac_sha512(clave: &[u8], mensaje: &[u8], etiqueta: &[u8]) -> (r: bool)
    ensures
        r == (etiqueta@ == hmac_sha512(clave@, mensaje@)),
        etiqueta@.len() != 64 ==> !r,
{
    match <Hmac<Sha512> as Mac>::new_from_slice(clave) {
        Ok(mut mac) => {
            mac.update(mensaje);
            mac.verify_slice(etiqueta).is_ok()
        },
        Err(_) => false,
    }
}

/// The stored hash is the HMAC-SHA512 of the UTF-8 password with the salt as key.
pub open spec fn password_correcto(password: Seq<char>, hash: Seq<u8>, salt: Seq<u8>) -> bool {
    hash == hmac_sha512(salt, encode_utf8(password))
}

/// Whether `hash` is the HMAC-SHA512 of the password's UTF-8 bytes with
/// `salt` as the key; a hash that is not 64 bytes long never is.
pub fn verify_hmac_sha512(password: &str, hash: &[u8], salt: &[u8]) -> (r: bool)
    ensures
        r == password_correcto(password@, hash@, salt@),
        hash@.len() != 64 ==> !r,
{
    verificar_hmac_sha512(salt, password.as_bytes(), hash)
}

/// The user that the login authenticates: none without a row for the
/// email, none when the row is not active (no value counts as inactive),
/// none when the password does not match; otherwise the active user of the
/// row.
pub fn authenticate(fila: Option<FilaCredenciales>, creds: &Credentials) -> (r: Option<User>)
    ensures
        match fila {
            None => r is None,
            Some(f) => if f.isactive != Some(true) || !password_correcto(
                creds.password@,
                f.passwordhash@,
                f.passwordsalt@,
            ) {
                r is None
            } else {
                r matches Some(u) && u.id == f.id && u.email == f.email && u.is_active && u.es_socio
                    == f.essocio
            },
        },
{
    let f = match fila {
        Some(f) => f,
        None => return None,
    };
    let activo = match f.isactive {
        Some(b) => b,
        None => false,
    };
    if !activo {
        return None;
    }
    if !verify_hmac_sha512(creds.password.as_str(), f.passwordhash.as_slice(), f.passwordsalt.as_slice()) {
        return None;
    }
    Some(User { id: f.id, email: f.email, is_active: activo, es_socio: f.essocio })
}

/// The user of a session, loaded from its row; a row without an active value
/// counts as inactive.
pub fn get_user(fila: Option<FilaUsuario>) -> (r: Option<User>)
    ensures
        match fila {
            None => r is None,
            Some(f) => r matches Some(u) && u.id == f.id && u.email == f.email && u.is_active == (
            f.isactive == Some(true)) && u.es_socio == f.essocio,
        },
{
    match fila {
        Some(f) => {
            let activo = match f.isactive {
                Some(b) => b,
                None => false,
            };
            Some(User { id: f.id, email: f.email, is_active: activo, es_socio: f.essocio })
        },
        None => None,
    }
}

} // verus!
