//! The answers of the login and logout pages.

use super::backend::User;
use crate::error::AppError;
use vstd::prelude::*;

verus! {

/// What a login page answers: a redirect, or the login form with an
/// optional error message.
#[derive(Debug)]
pub enum RespuestaLogin {
    Redirigir(String),
    Formulario(Option<String>),
}

/// `GET /login`: a user with a session goes to the sales page; anyone else
/// gets the empty form.
pub fn login_get(hay_usuario: bool) -> (r: RespuestaLogin)
    ensures
        hay_usuario ==> (r matches RespuestaLogin::Redirigir(url) && url@ == "/ventas"@),
        !hay_usuario ==> r matches RespuestaLogin::Formulario(None),
{
    if hay_usuario {
        RespuestaLogin::Redirigir(String::from_str("/ventas"))
    } else {
        RespuestaLogin::Formulario(None)
    }
}

/// `POST /login`, after authenticating: an authenticated user goes to the
/// sales page; wrong credentials show the form with "Correo o contraseña
/// incorrectos."; a failure of the authentication itself shows the form
/// with "Error interno. Intenta de nuevo.".
pub fn login_post(resultado: &Result<Option<User>, AppError>) -> (r: RespuestaLogin)
    ensures
        resultado matches Ok(Some(_)) ==> (r matches RespuestaLogin::Redirigir(url) && url@
            == "/ventas"@),
        resultado matches Ok(None) ==> (r matches RespuestaLogin::Formulario(Some(m)) && m@
            == "Correo o contraseña incorrectos."@),
        resultado is Err ==> (r matches RespuestaLogin::Formulario(Some(m)) && m@
            == "Error interno. Intenta de nuevo."@),
{
    match resultado {
        Ok(Some(_)) => RespuestaLogin::Redirigir(String::from_str("/ventas")),
        Ok(None) => RespuestaLogin::Formulario(
            Some(String::from_str("Correo o contraseña incorrectos.")),
        ),
        Err(_) => RespuestaLogin::Formulario(Some(String::from_str("Error interno. Intenta de nuevo."))),
    }
}

/// `GET /logout`: after ending the session, go to the login page.
pub fn logout() -> (r: String)
    ensures
        r@ == "/login"@,
{
    String::from_str("/login")
}

} // verus!
