//! How a customer search is carried out: by phone number when the text
//! looks like one, otherwise by name, company, email or phone.

use crate::texto::{
    digitos_de, es_digito, patron_contiene, patron_de_contenido, solo_digitos, todos_digitos,
};
use vstd::multiset::Multiset;
use vstd::prelude::*;
use vstd::string::StrSliceExecFns;

verus! {

/// The last ten digits of `input` (all of them when there are ten or fewer).
pub open spec fn telefono_normalizado(input: Seq<char>) -> Seq<char> {
    let d = solo_digitos(input);
    if d.len() > 10 {
        d.subrange(d.len() - 10, d.len() as int)
    } else {
        d
    }
}

/// At least 70 % of the characters of a non-empty text are ASCII digits.
pub open spec fn es_como_telefono(input: Seq<char>) -> bool {
    input.len() > 0 && solo_digitos(input).len() * 10 >= input.len() * 7
}

proof fn lema_solo_digitos(s: Seq<char>)
    ensures
        todos_digitos(solo_digitos(s)),
        solo_digitos(s).len() <= s.len(),
    decreases s.len(),
{
    if s.len() > 0 {
        lema_solo_digitos(s.drop_last());
    }
}

/// A text made only of digits keeps all of them.
proof fn lema_solo_digitos_de_digitos(s: Seq<char>)
    requires
        todos_digitos(s),
    ensures
        solo_digitos(s) == s,
    decreases s.len(),
{
    if s.len() > 0 {
        lema_solo_digitos_de_digitos(s.drop_last());
        assert(s.drop_last().push(s.last()) =~= s);
    }
}

/// A normalized phone number has at most ten characters, all of them ASCII
/// digits; any text with at least ten digits normalizes to exactly ten; and
/// normalizing a normalized number changes nothing.
pub proof fn ley_telefono_normalizado(input: Seq<char>)
    ensures
        telefono_normalizado(input).len() <= 10,
        todos_digitos(telefono_normalizado(input)),
        solo_digitos(input).len() >= 10 ==> telefono_normalizado(input).len() == 10,
        telefono_normalizado(telefono_normalizado(input)) == telefono_normalizado(input),
{
    lema_solo_digitos(input);
    let d = solo_digitos(input);
    if d.len() > 10 {
        let t = d.subrange(d.len() - 10, d.len() as int);
        assert forall|i: int| 0 <= i < t.len() implies es_digito(#[trigger] t[i]) by {
            assert(t[i] == d[d.len() - 10 + i]);
        }
    }
    lema_solo_digitos_de_digitos(telefono_normalizado(input));
}

/// Appending a digit to a text that looks like a phone number keeps it
/// looking like one, and appending anything else to a text that does not
/// keep it from looking like one.
pub proof fn ley_telefono_al_agregar(s: Seq<char>, d: char, c: char)
    requires
        es_digito(d),
        !es_digito(c),
    ensures
        es_como_telefono(s) ==> es_como_telefono(s.push(d)),
        !es_como_telefono(s) ==> !es_como_telefono(s.push(c)),
{
    assert(s.push(d).drop_last() =~= s);
    assert(s.push(c).drop_last() =~= s);
    assert(solo_digitos(s.push(d)).len() == solo_digitos(s).len() + 1);
    assert(solo_digitos(s.push(c)).len() == solo_digitos(s).len());
}

/// The ASCII digits counted in a multiset of characters.
pub open spec fn digitos_en(m: Multiset<char>) -> nat {
    m.count('0') + m.count('1') + m.count('2') + m.count('3') + m.count('4') + m.count('5')
        + m.count('6') + m.count('7') + m.count('8') + m.count('9')
}

proof fn lema_digitos_en_multiconjunto(s: Seq<char>)
    ensures
        solo_digitos(s).len() == digitos_en(s.to_multiset()),
    decreases s.len(),
{
    broadcast use vstd::seq_lib::group_to_multiset_ensures, vstd::multiset::group_multiset_axioms;

    if s.len() == 0 {
        assert(s.to_multiset() =~= Multiset::empty());
    } else {
        let p = s.drop_last();
        lema_digitos_en_multiconjunto(p);
        assert(p.push(s.last()) =~= s);
        assert(s.to_multiset() =~= p.to_multiset().insert(s.last()));
    }
}

/// Whether a text looks like a phone number does not depend on the order of
/// its characters.
pub proof fn ley_telefono_sin_orden(s: Seq<char>, t: Seq<char>)
    requires
        s.to_multiset() == t.to_multiset(),
    ensures
        es_como_telefono(s) == es_como_telefono(t),
{
    broadcast use vstd::seq_lib::group_to_multiset_ensures;

    lema_digitos_en_multiconjunto(s);
    lema_digitos_en_multiconjunto(t);
    assert(s.len() == s.to_multiset().len());
    assert(t.len() == t.to_multiset().len());
}

/// Keeps the ASCII digits of `input` and returns the last ten of them.
pub fn normalizar_telefono(input: &str) -> (r: String)
    ensures
        r@ == telefono_normalizado(input@),
{
    let digitos = digitos_de(input);
    let n = digitos.as_str().unicode_len();
    if n > 10 {
        let ultimos = digitos.as_str().substring_char(n - 10, n);
        String::from_str(ultimos)
    } else {
        digitos
    }
}

/// The number of ASCII digits of `s`.
fn contar_digitos(s: &str) -> (r: usize)
    ensures
        r == solo_digitos(s@).len(),
{
    let mut cuenta: usize = 0;
    let total = s.unicode_len();
    let ghost vista = s@;
    for c in it: s.chars()
        invariant
            it.seq() == vista,
            vista.len() == total,
            cuenta == solo_digitos(vista.take(it.index() as int)).len(),
            cuenta <= it.index(),
    {
        proof {
            assert(vista.take(it.index() + 1).drop_last() =~= vista.take(it.index() as int));
        }
        if '0' <= c && c <= '9' {
            cuenta = cuenta + 1;
        }
    }
    proof {
        assert(vista.take(vista.len() as int) =~= vista);
    }
    cuenta
}

/// Whether at least 70 % of the characters of `input` are ASCII digits;
/// an empty text is no phone number.
pub fn parece_telefono(input: &str) -> (r: bool)
    ensures
        r == es_como_telefono(input@),
{
    let total = input.unicode_len();
    if total == 0 {
        return false;
    }
    let digitos = contar_digitos(input);
    (digitos as u128) * 10 >= (total as u128) * 7
}

/// The search to run for a (trimmed) query text.
#[derive(Debug)]
pub enum BusquedaCliente {
    /// Customers whose phone, stripped of non-digits, contains the pattern.
    PorTelefono { patron: String },
    /// Customers whose name, company, email or phone contains the pattern.
    General { patron: String },
}

/// The search that the customer lookup runs for `q`: by the normalized
/// phone number when `q` looks like a phone number, otherwise a general
/// search for `q`.
pub fn plan_busqueda(q: &str) -> (r: BusquedaCliente)
    ensures
        es_como_telefono(q@) ==> (r matches BusquedaCliente::PorTelefono { patron }
            && patron@ == patron_contiene(telefono_normalizado(q@))),
        !es_como_telefono(q@) ==> (r matches BusquedaCliente::General { patron }
            && patron@ == patron_contiene(q@)),
{
    if parece_telefono(q) {
        let normalizado = normalizar_telefono(q);
        BusquedaCliente::PorTelefono { patron: patron_de_contenido(normalizado.as_str()) }
    } else {
        BusquedaCliente::General { patron: patron_de_contenido(q) }
    }
}

} // verus!
