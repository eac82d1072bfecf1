//! UUIDs as 128-bit numbers, and reading them from text.

use uuid::Uuid;
use vstd::prelude::*;

verus! {

/// What `Uuid::from_str` returns for a text: the UUID as a 128-bit number,
/// or the text of its error.
pub uninterp spec fn uuid_de_texto(s: Seq<char>) -> Result<u128, Seq<char>>;

/// A parse outcome with its error text as a sequence of characters.
pub open spec fn vista_uuid(r: Result<u128, String>) -> Result<u128, Seq<char>> {
    match r {
        Ok(v) => Ok(v),
        Err(e) => Err(e@),
    }
}

/// Calls `<Uuid as FromStr>::from_str`, then `Uuid::as_u128` on success or
/// the error's `to_string` on failure. Claims only that the outcome is the
/// one named `uuid_de_texto`.
#[verifier::external_body]
pub(crate) fn leer_uuid(s: &str) -> (r: Result<u128, String>)
    ensures
        uuid_de_texto(s@) == vista_uuid(r),
{
    match s.parse::<Uuid>() {
        Ok(u) => Ok(u.as_u128()),
        Err(e) => Err(e.to_string()),
    }
}

} // verus!
