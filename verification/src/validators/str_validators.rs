//! Regular expressions, and the check for blank text.

use crate::texto::todo_espacio;
use regex::Regex;
use vstd::prelude::*;

verus! {

#[verifier::external_type_specification]
#[verifier::external_body]
pub struct ExRegex(Regex);

/// A compiled regular expression together with the pattern it was compiled from.
pub struct Patron {
    re: Regex,
    fuente: String,
}

impl View for Patron {
    type V = Seq<char>;

    /// The pattern the expression was compiled from.
    closed spec fn view(&self) -> Seq<char> {
        self.fuente@
    }
}

/// A pattern that matches a whole text made only of white space.
pub open spec fn patron_blanco() -> Seq<char> {
    "^\\s*$"@
}

/// A pattern that matches a whole text of 8 to 255 characters, any of
/// them (`s` lets `.` match a line feed too).
pub open spec fn patron_longitud() -> Seq<char> {
    "(?s)^.{8,255}$"@
}

/// The pattern of an email address.
pub open spec fn patron_correo() -> Seq<char> {
    "^\\w+([-+.']\\w+)*@\\w+([-.]\\w+)*\\.\\w+([-.]\\w+)*$"@
}

/// Whether `Regex::new` accepts a pattern.
pub uninterp spec fn regex_valido(patron: Seq<char>) -> bool;

/// Calls `regex::Regex::new`. Claims: it succeeds exactly on the patterns
/// named valid by `regex_valido`, among them the three patterns of this
/// module, whose syntax the crate documents; the compiled expression keeps
/// its pattern.
#[verifier::external_body]
pub(crate) fn compilar(patron: &str) -> (r: Option<Patron>)
    ensures
        r is Some <==> regex_valido(patron@),
        r matches Some(p) ==> p@ == patron@,
        patron@ == patron_blanco() ==> r is Some,
        patron@ == patron_longitud() ==> r is Some,
        patron@ == patron_correo() ==> r is Some,
{
    match Regex::new(patron) {
        Ok(re) => Some(Patron { re, fuente: patron.to_string() }),
        Err(_) => None,
    }
}

/// Whether the expression of `patron` matches somewhere in `texto`.
pub uninterp spec fn regex_coincide(patron: Seq<char>, texto: Seq<char>) -> bool;

/// Calls `regex::Regex::is_match`. Claims: the answer is the one named
/// `regex_coincide`; for the blank pattern (`^` start, `\s` a character of
/// the Unicode `White_Space` property, `*` any number, `$` end) it is
/// whether every character is white space; for the length pattern (`(?s)`
/// makes `.` any character, `{8,255}` that many) it is whether the text has
/// 8 to 255 characters.
#[verifier::external_body]
pub(crate) fn coincide(p: &Patron, texto: &str) -> (r: bool)
    ensures
        r == regex_coincide(p@, texto@),
        p@ == patron_blanco() ==> (r <==> todo_espacio(texto@)),
        p@ == patron_longitud() ==> (r <==> 8 <= texto@.len() <= 255),
{
    p.re.is_match(texto)
}

/// Whether the text is empty or made only of white space.
pub fn is_empty_string(val: &str) -> (r: bool)
    ensures
        r == todo_espacio(val@),
{
    match compilar("^\\s*$") {
        Some(p) => coincide(&p, val),
        None => false,
    }
}

} // verus!
