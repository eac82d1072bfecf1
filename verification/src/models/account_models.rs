//! The login form and its validation.

use crate::validators::str_validators::{coincide, compilar, patron_correo, regex_coincide};
use vstd::prelude::*;

verus! {

/// The login form.
#[derive(Debug)]
pub struct LoginModel {
    pub email: String,
    pub password: String,
}

impl Default for LoginModel {
    fn default() -> (r: LoginModel)
        ensures
            r.email@.len() == 0,
            r.password@.len() == 0,
    {
        LoginModel { email: String::new(), password: String::new() }
    }
}

/// Validation of a form: the list of (field, message) of its invalid fields.
pub trait Validate {
    fn run(&self) -> Vec<(String, String)>;
}

/// Whether a text is an email address.
pub fn validate_email(email_address: &str) -> (r: bool)
    ensures
        r == regex_coincide(patron_correo(), email_address@),
{
    match compilar("^\\w+([-+.']\\w+)*@\\w+([-.]\\w+)*\\.\\w+([-.]\\w+)*$") {
        Some(p) => coincide(&p, email_address),
        None => false,
    }
}

/// A password has 8 to 255 characters.
pub open spec fn password_valido(pwd: Seq<char>) -> bool {
    8 <= pwd.len() <= 255
}

/// Whether a password is long enough: from 8 to 255 characters.
pub fn validate_password(pwd: &str) -> (r: bool)
    ensures
        r == password_valido(pwd@),
{
    match compilar("(?s)^.{8,255}$") {
        Some(p) => coincide(&p, pwd),
        None => false,
    }
}

/// The message of an invalid email.
pub open spec fn mensaje_correo() -> Seq<char> {
    "El correo electrónico no es válido"@
}

/// The message of a password that is too short.
pub open spec fn mensaje_password() -> Seq<char> {
    "El password dete tener mínimo 8 carácteres de longitud"@
}

impl Validate for LoginModel {
    /// One error per invalid field, email first: `("email", ...)` when the
    /// email is not an address, `("password", ...)` when the password is
    /// not 8 to 255 characters long.
    fn run(&self) -> (r: Vec<(String, String)>)
        ensures
            ({
                let correo_ok = regex_coincide(patron_correo(), self.email@);
                let password_ok = password_valido(self.password@);
                &&& r@.len() == (if correo_ok {
                    0int
                } else {
                    1int
                }) + (if password_ok {
                    0int
                } else {
                    1int
                })
                &&& !correo_ok ==> r@[0].0@ == "email"@ && r@[0].1@ == mensaje_correo()
                &&& !password_ok ==> r@[r@.len() - 1].0@ == "password"@ && r@[r@.len()
                    - 1].1@ == mensaje_password()
            }),
    {
        let mut errores: Vec<(String, String)> = Vec::new();
        if !validate_email(self.email.as_str()) {
            errores.push(
                (
                    String::from_str("email"),
                    String::from_str("El correo electrónico no es válido"),
                ),
            );
        }
        if !validate_password(self.password.as_str()) {
            errores.push(
                (
                    String::from_str("password"),
                    String::from_str("El password dete tener mínimo 8 carácteres de longitud"),
                ),
            );
        }
        errores
    }
}

} // verus!
