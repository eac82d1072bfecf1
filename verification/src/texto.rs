//! Text helpers: Unicode white space, trimming, ASCII digits, integer
//! parsing and decimal formatting.

use vstd::prelude::*;

verus! {

/// The Unicode `White_Space` property: what `char::is_whitespace`,
/// `str::trim` and the regex class `\s` treat as white space.
pub open spec fn es_espacio_blanco(c: char) -> bool {
    ||| '\u{9}' <= c <= '\u{d}'
    ||| c == ' '
    ||| c == '\u{85}'
    ||| c == '\u{a0}'
    ||| c == '\u{1680}'
    ||| '\u{2000}' <= c <= '\u{200a}'
    ||| c == '\u{2028}'
    ||| c == '\u{2029}'
    ||| c == '\u{202f}'
    ||| c == '\u{205f}'
    ||| c == '\u{3000}'
}

/// Every character is white space (the empty text included).
pub open spec fn todo_espacio(s: Seq<char>) -> bool {
    forall|i: int| 0 <= i < s.len() ==> es_espacio_blanco(#[trigger] s[i])
}

/// `s` without its leading white space.
pub open spec fn sin_espacios_al_inicio(s: Seq<char>) -> Seq<char>
    decreases s.len(),
{
    if s.len() > 0 && es_espacio_blanco(s[0]) {
        sin_espacios_al_inicio(s.drop_first())
    } else {
        s
    }
}

/// `s` without its trailing white space.
pub open spec fn sin_espacios_al_final(s: Seq<char>) -> Seq<char>
    decreases s.len(),
{
    if s.len() > 0 && es_espacio_blanco(s.last()) {
        sin_espacios_al_final(s.drop_last())
    } else {
        s
    }
}

/// `s` without leading and trailing white space.
pub open spec fn recortado(s: Seq<char>) -> Seq<char> {
    sin_espacios_al_final(sin_espacios_al_inicio(s))
}

/// Calls `str::trim`, which removes leading and trailing white space as
/// the Unicode `White_Space` property defines it.
#[verifier::external_body]
pub(crate) fn recortar(s: &str) -> (r: &str)
    ensures
        r@ == recortado(s@),
{
    s.trim()
}

/// An ASCII digit, `'0'..='9'`.
pub open spec fn es_digito(c: char) -> bool {
    '0' <= c <= '9'
}

/// The ASCII digits of `s`, in order.
pub open spec fn solo_digitos(s: Seq<char>) -> Seq<char>
    decreases s.len(),
{
    if s.len() == 0 {
        s
    } else if es_digito(s.last()) {
        solo_digitos(s.drop_last()).push(s.last())
    } else {
        solo_digitos(s.drop_last())
    }
}

/// Calls `String::push`, which appends one character.
#[verifier::external_body]
pub(crate) fn agregar_caracter(s: &mut String, c: char)
    ensures
        final(s)@ == old(s)@.push(c),
{
    s.push(c);
}

/// The ASCII digits of `s`, in order, as a new string.
pub fn digitos_de(s: &str) -> (r: String)
    ensures
        r@ == solo_digitos(s@),
{
    let mut r = String::new();
    let ghost vista = s@;
    for c in it: s.chars()
        invariant
            it.seq() == vista,
            r@ == solo_digitos(vista.take(it.index() as int)),
    {
        proof {
            assert(vista.take(it.index() + 1).drop_last() =~= vista.take(it.index() as int));
        }
        if '0' <= c && c <= '9' {
            agregar_caracter(&mut r, c);
        }
    }
    proof {
        assert(vista.take(vista.len() as int) =~= vista);
    }
    r
}

/// The ASCII digit of `d`, for `d < 10`.
pub open spec fn caracter_digito(d: nat) -> char {
    (d + 48) as char
}

/// The ASCII digit of `d`.
pub fn digito(d: u8) -> (r: char)
    requires
        d < 10,
    ensures
        r == caracter_digito(d as nat),
        es_digito(r),
{
    let b: u8 = d + 48;
    b as char
}

/// The two digits of `n` (`00` to `99`).
pub open spec fn dos_digitos(n: nat) -> Seq<char> {
    seq![caracter_digito(n / 10), caracter_digito(n % 10)]
}

/// The decimal digits of `n`, without leading zeros (`"0"` for zero), as
/// `Display` writes an unsigned integer.
pub open spec fn en_decimal(n: nat) -> Seq<char>
    decreases n,
{
    if n < 10 {
        seq![caracter_digito(n)]
    } else {
        en_decimal(n / 10).push(caracter_digito(n % 10))
    }
}

/// Appends `n` written in decimal to `s`.
pub fn agregar_decimal(s: &mut String, n: u64)
    ensures
        final(s)@ == old(s)@ + en_decimal(n as nat),
    decreases n,
{
    if n < 10 {
        agregar_caracter(s, digito(n as u8));
    } else {
        agregar_decimal(s, n / 10);
        agregar_caracter(s, digito((n % 10) as u8));
        proof {
            assert(final(s)@ =~= old(s)@ + en_decimal(n as nat));
        }
    }
}

/// Every character is an ASCII digit.
pub open spec fn todos_digitos(s: Seq<char>) -> bool {
    forall|i: int| 0 <= i < s.len() ==> es_digito(#[trigger] s[i])
}

/// The number that the decimal digits `s` spell.
pub open spec fn valor_decimal(s: Seq<char>) -> int
    decreases s.len(),
{
    if s.len() == 0 {
        0
    } else {
        valor_decimal(s.drop_last()) * 10 + (s.last() as int - 48)
    }
}

/// The integer that `s` spells as `FromStr` for the integer types reads
/// it: an optional `+` or `-` followed by one or more ASCII digits and
/// nothing else; `None` for any other text.
pub open spec fn entero_de_texto(s: Seq<char>) -> Option<int> {
    if s.len() > 0 && (s[0] == '+' || s[0] == '-') {
        let d = s.drop_first();
        if d.len() > 0 && todos_digitos(d) {
            Some(
                if s[0] == '-' {
                    -valor_decimal(d)
                } else {
                    valor_decimal(d)
                },
            )
        } else {
            None
        }
    } else if s.len() > 0 && todos_digitos(s) {
        Some(valor_decimal(s))
    } else {
        None
    }
}

/// Calls `<i32 as FromStr>::from_str`, which accepts an optional sign and
/// ASCII digits whose value fits in an `i32`.
#[verifier::external_body]
pub(crate) fn leer_i32(s: &str) -> (r: Option<i32>)
    ensures
        r == (match entero_de_texto(s@) {
            Some(v) => if i32::MIN <= v <= i32::MAX {
                Some(v as i32)
            } else {
                None::<i32>
            },
            None => None::<i32>,
        }),
{
    match s.parse::<i32>() {
        Ok(v) => Some(v),
        Err(_) => None,
    }
}

/// What `<i64 as FromStr>::from_str` returns for a text: the number, or the
/// text of its error.
pub uninterp spec fn i64_de_texto(s: Seq<char>) -> Result<i64, Seq<char>>;

/// A parse outcome with its error text as a sequence of characters.
pub open spec fn vista_i64(r: Result<i64, String>) -> Result<i64, Seq<char>> {
    match r {
        Ok(v) => Ok(v),
        Err(e) => Err(e@),
    }
}

/// Calls `<i64 as FromStr>::from_str`, and on failure the error's
/// `to_string`. Claims: the outcome is the one named `i64_de_texto`; the
/// text is accepted exactly when it is an optional sign and ASCII digits
/// whose value fits in an `i64`, and then the value is that number. The
/// text of the error is not stated.
#[verifier::external_body]
pub(crate) fn leer_i64(s: &str) -> (r: Result<i64, String>)
    ensures
        i64_de_texto(s@) == vista_i64(r),
        r is Ok <==> (entero_de_texto(s@) matches Some(v) && i64::MIN <= v <= i64::MAX),
        r matches Ok(v) ==> entero_de_texto(s@) == Some(v as int),
{
    match s.parse::<i64>() {
        Ok(v) => Ok(v),
        Err(e) => Err(e.to_string()),
    }
}

/// `%x%`: the SQL `LIKE` pattern of the texts that contain `x`.
pub open spec fn patron_contiene(x: Seq<char>) -> Seq<char> {
    seq!['%'] + x + seq!['%']
}

/// The SQL `LIKE` pattern `%q%` of the texts that contain `q`.
pub fn patron_de_contenido(q: &str) -> (r: String)
    ensures
        r@ == patron_contiene(q@),
{
    let mut patron = String::new();
    agregar_caracter(&mut patron, '%');
    patron.append(q);
    agregar_caracter(&mut patron, '%');
    proof {
        assert(patron@ =~= patron_contiene(q@));
    }
    patron
}

} // verus!
