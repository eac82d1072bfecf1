//! The answer to the submitted login form.

use vstd::prelude::*;

verus! {

/// What the login form's submission answers: a redirect (302 Found) to the
/// home page, or the form again with an error for the user.
#[derive(Debug)]
pub enum RespuestaSubmit {
    Redirigir(String),
    Formulario(String),
}

/// A valid form whose user has access is logged in and sent to the home
/// page; any other submission shows the form again with "Su contraseña es
/// incorrecta".
pub fn submit(is_valid: bool, has_access: bool) -> (r: RespuestaSubmit)
    ensures
        is_valid && has_access ==> (r matches RespuestaSubmit::Redirigir(url) && url@
            == "/home/index"@),
        !(is_valid && has_access) ==> (r matches RespuestaSubmit::Formulario(m) && m@
            == "Su contraseña es incorrecta"@),
{
    if is_valid && has_access {
        RespuestaSubmit::Redirigir(String::from_str("/home/index"))
    } else {
        RespuestaSubmit::Formulario(String::from_str("Su contraseña es incorrecta"))
    }
}

} // verus!
