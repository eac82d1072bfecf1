//! The errors that the request handlers answer with.

use vstd::prelude::*;

verus! {

/// An error of a request: a database error or an internal error, with its
/// message, a missing resource, or a request whose data break a rule, with
/// the rule's message.
#[derive(Debug)]
pub enum AppError {
    Db(String),
    Internal(String),
    NotFound,
    Validacion(String),
}

/// The text that an error shows.
pub open spec fn mensaje_de(e: AppError) -> Seq<char> {
    match e {
        AppError::Db(m) => "Error de base de datos: "@ + m@,
        AppError::Internal(m) => "Error interno: "@ + m@,
        AppError::NotFound => "No encontrado"@,
        AppError::Validacion(m) => m@,
    }
}

impl AppError {
    /// The HTTP status of the answer: 404 for a missing resource, 422
    /// (Unprocessable Entity) for data that break a rule, 500 otherwise.
    pub fn codigo_estado(&self) -> (r: u16)
        ensures
            r == (if *self is NotFound {
                404u16
            } else if *self is Validacion {
                422u16
            } else {
                500u16
            }),
    {
        match self {
            AppError::NotFound => 404,
            AppError::Validacion(_) => 422,
            _ => 500,
        }
    }

    /// The text of the error, which is also the body of the answer.
    pub fn mensaje(&self) -> (r: String)
        ensures
            r@ == mensaje_de(*self),
    {
        match self {
            AppError::Db(m) => {
                let mut r = String::from_str("Error de base de datos: ");
                r.append(m.as_str());
                r
            },
            AppError::Internal(m) => {
                let mut r = String::from_str("Error interno: ");
                r.append(m.as_str());
                r
            },
            AppError::NotFound => String::from_str("No encontrado"),
            AppError::Validacion(m) => m.clone(),
        }
    }
}

} // verus!
