//! Decimal amounts of money.
//!
//! A `Dinero` holds the two plain numbers that describe a
//! `rust_decimal::Decimal`: its mantissa and its scale. Every arithmetic
//! operation is carried out by `rust_decimal` itself.

use rust_decimal::Decimal;
use vstd::prelude::*;

verus! {

/// Largest magnitude of a mantissa: 2^96 - 1.
pub const MANTISA_MAXIMA: i128 = 0xFFFF_FFFF_FFFF_FFFF_FFFF_FFFFi128;

/// Largest scale: 28 decimal places.
pub const ESCALA_MAXIMA: u32 = 28u32;

/// The number `mantisa / 10^escala`.
#[derive(Clone, Copy, Debug)]
pub struct Dinero {
    pub mantisa: i128,
    pub escala: u32,
}

/// `10^n`.
pub open spec fn pot10(n: nat) -> int
    decreases n,
{
    if n == 0 {
        1
    } else {
        10 * pot10((n - 1) as nat)
    }
}

/// `10^n` is positive.
pub proof fn lema_pot10_positiva(n: nat)
    ensures
        pot10(n) > 0,
    decreases n,
{
    if n > 0 {
        lema_pot10_positiva((n - 1) as nat);
    }
}

impl Dinero {
    /// The ranges of a `Decimal`: a 96-bit magnitude and a scale of at most 28.
    pub open spec fn wf(self) -> bool {
        &&& -MANTISA_MAXIMA <= self.mantisa <= MANTISA_MAXIMA
        &&& self.escala <= ESCALA_MAXIMA
    }

    /// `self < otro` as numbers: `m1 / 10^s1 < m2 / 10^s2`.
    pub open spec fn menor_que(self, otro: Dinero) -> bool {
        self.mantisa * pot10(otro.escala as nat) < otro.mantisa * pot10(self.escala as nat)
    }

    /// `Decimal::ZERO`.
    pub fn cero() -> (r: Dinero)
        ensures
            r == (Dinero { mantisa: 0, escala: 0 }),
            r.wf(),
    {
        Dinero { mantisa: 0, escala: 0 }
    }

    /// The amount `mantisa / 10^escala`, or `None` outside the ranges of a `Decimal`.
    pub fn nuevo(mantisa: i128, escala: u32) -> (r: Option<Dinero>)
        ensures
            r == (if -MANTISA_MAXIMA <= mantisa <= MANTISA_MAXIMA && escala <= ESCALA_MAXIMA {
                Some(Dinero { mantisa, escala })
            } else {
                None::<Dinero>
            }),
    {
        if -MANTISA_MAXIMA <= mantisa && mantisa <= MANTISA_MAXIMA && escala <= ESCALA_MAXIMA {
            Some(Dinero { mantisa, escala })
        } else {
            None
        }
    }
}

/// Largest magnitude below which a mantissa fits in 64 bits: 2^64.
pub open spec fn limite_64() -> int {
    0x1_0000_0000_0000_0000
}

/// The larger of two scales.
pub open spec fn escala_mayor(a: Dinero, b: Dinero) -> u32 {
    if a.escala <= b.escala {
        b.escala
    } else {
        a.escala
    }
}

/// The mantissa of `d` written in scale `s` (at least its own): `d.mantisa
/// * 10^(s - d.escala)`, the same number.
pub open spec fn en_escala(d: Dinero, s: u32) -> int {
    d.mantisa * pot10((s - d.escala) as nat)
}

/// Both mantissas are nonzero and below 2^64 in magnitude, and the scales
/// differ by at most 19: then `Decimal` adds and subtracts aligned in 128
/// bits.
pub open spec fn alineables(a: Dinero, b: Dinero) -> bool {
    &&& a.mantisa != 0 && b.mantisa != 0
    &&& -limite_64() < a.mantisa < limite_64()
    &&& -limite_64() < b.mantisa < limite_64()
    &&& a.escala <= b.escala + 19 && b.escala <= a.escala + 19
}

/// `10^(x + y) = 10^x * 10^y`.
pub proof fn lema_pot10_suma(x: nat, y: nat)
    ensures
        pot10(x + y) == pot10(x) * pot10(y),
    decreases y,
{
    if y > 0 {
        lema_pot10_suma(x, (y - 1) as nat);
        let (a, b) = (pot10(x), pot10((y - 1) as nat));
        assert(pot10((x + y) as nat) == 10 * pot10((x + y - 1) as nat));
        assert(a * (10 * b) == 10 * (a * b)) by (nonlinear_arith);
    }
}

/// A mantissa written in scale `s` and then in scale `t >= s` is the
/// mantissa written directly in scale `t`.
pub proof fn lema_en_escala_doble(d: Dinero, s: u32, t: u32)
    requires
        d.escala <= s <= t,
    ensures
        en_escala(Dinero { mantisa: 0, escala: s }, t) == 0,
        en_escala(d, s) * pot10((t - s) as nat) == en_escala(d, t),
{
    lema_pot10_suma((s - d.escala) as nat, (t - s) as nat);
    let (m, p, q) = (d.mantisa as int, pot10((s - d.escala) as nat), pot10((t - s) as nat));
    assert(m * p * q == m * (p * q)) by (nonlinear_arith);
}

/// Two amounts whose scales are at most `s` compare as their mantissas
/// written in scale `s`.
pub proof fn lema_menor_en_escala(a: Dinero, b: Dinero, s: u32)
    requires
        a.escala <= s,
        b.escala <= s,
    ensures
        a.menor_que(b) <==> en_escala(a, s) < en_escala(b, s),
{
    let (pa, pb) = (pot10(a.escala as nat), pot10(b.escala as nat));
    let (qa, qb) = (pot10((s - a.escala) as nat), pot10((s - b.escala) as nat));
    lema_pot10_suma(a.escala as nat, (s - a.escala) as nat);
    lema_pot10_suma(b.escala as nat, (s - b.escala) as nat);
    lema_pot10_positiva(a.escala as nat);
    lema_pot10_positiva(b.escala as nat);
    lema_pot10_positiva(s as nat);
    let ps = pot10(s as nat);
    lema_pot10_positiva((s - a.escala) as nat);
    lema_pot10_positiva((s - b.escala) as nat);
    let (ma, mb) = (a.mantisa as int, b.mantisa as int);
    let (x, y, k) = (ma * pb, mb * pa, qa * qb);
    assert(k > 0) by (nonlinear_arith)
        requires
            qa > 0,
            qb > 0,
            k == qa * qb,
    ;
    assert(x * k == (ma * qa) * ps) by (nonlinear_arith)
        requires
            x == ma * pb,
            k == qa * qb,
            pb * qb == ps,
    ;
    assert(y * k == (mb * qb) * ps) by (nonlinear_arith)
        requires
            y == mb * pa,
            k == qa * qb,
            pa * qa == ps,
    ;
    assert((x < y) <==> (x * k < y * k)) by (nonlinear_arith)
        requires
            k > 0,
    ;
    let (u, v) = (ma * qa, mb * qb);
    assert((u * ps < v * ps) <==> (u < v)) by (nonlinear_arith)
        requires
            ps > 0,
    ;
}

/// Two nonzero amounts of scales at most `s <= 19`, each below 2^64 in
/// magnitude when written in scale `s`, as is their sum: they are aligned
/// for `Decimal`, and their sum written in the larger of their scales fits
/// in 96 bits and, written in scale `s`, is the sum of the two.
pub proof fn lema_suma_alineada(a: Dinero, x: Dinero, s: u32)
    requires
        a.escala <= s,
        x.escala <= s,
        s <= 19,
        a.mantisa != 0,
        x.mantisa != 0,
        -limite_64() < en_escala(a, s) < limite_64(),
        -limite_64() < en_escala(x, s) < limite_64(),
        -limite_64() < en_escala(a, s) + en_escala(x, s) < limite_64(),
    ensures
        alineables(a, x),
        -MANTISA_MAXIMA <= en_escala(a, escala_mayor(a, x)) + en_escala(x, escala_mayor(a, x))
            <= MANTISA_MAXIMA,
        (en_escala(a, escala_mayor(a, x)) + en_escala(x, escala_mayor(a, x))) * pot10(
            (s - escala_mayor(a, x)) as nat,
        ) == en_escala(a, s) + en_escala(x, s),
{
    let t = escala_mayor(a, x);
    lema_en_escala_doble(a, t, s);
    lema_en_escala_doble(x, t, s);
    lema_pot10_positiva((s - t) as nat);
    lema_pot10_positiva((s - a.escala) as nat);
    lema_pot10_positiva((s - x.escala) as nat);
    let (ya, yx, q) = (en_escala(a, t), en_escala(x, t), pot10((s - t) as nat));
    let (va, vx) = (en_escala(a, s), en_escala(x, s));
    assert(-limite_64() < ya + yx < limite_64() && (ya + yx) * q == va + vx) by (nonlinear_arith)
        requires
            ya * q == va,
            yx * q == vx,
            q >= 1,
            -limite_64() < va + vx < limite_64(),
    ;
    let (ma, mx, pa, px) = (
        a.mantisa as int,
        x.mantisa as int,
        pot10((s - a.escala) as nat),
        pot10((s - x.escala) as nat),
    );
    assert(-limite_64() < ma < limite_64() && -limite_64() < mx < limite_64()) by (nonlinear_arith)
        requires
            va == ma * pa,
            vx == mx * px,
            pa >= 1,
            px >= 1,
            -limite_64() < va < limite_64(),
            -limite_64() < vx < limite_64(),
    ;
}

/// The difference counterpart of `lema_suma_alineada`.
pub proof fn lema_resta_alineada(a: Dinero, x: Dinero, s: u32)
    requires
        a.escala <= s,
        x.escala <= s,
        s <= 19,
        a.mantisa != 0,
        x.mantisa != 0,
        -limite_64() < en_escala(a, s) < limite_64(),
        -limite_64() < en_escala(x, s) < limite_64(),
        -limite_64() < en_escala(a, s) - en_escala(x, s) < limite_64(),
    ensures
        alineables(a, x),
        -MANTISA_MAXIMA <= en_escala(a, escala_mayor(a, x)) - en_escala(x, escala_mayor(a, x))
            <= MANTISA_MAXIMA,
        (en_escala(a, escala_mayor(a, x)) - en_escala(x, escala_mayor(a, x))) * pot10(
            (s - escala_mayor(a, x)) as nat,
        ) == en_escala(a, s) - en_escala(x, s),
{
    let t = escala_mayor(a, x);
    lema_en_escala_doble(a, t, s);
    lema_en_escala_doble(x, t, s);
    lema_pot10_positiva((s - t) as nat);
    lema_pot10_positiva((s - a.escala) as nat);
    lema_pot10_positiva((s - x.escala) as nat);
    let (ya, yx, q) = (en_escala(a, t), en_escala(x, t), pot10((s - t) as nat));
    let (va, vx) = (en_escala(a, s), en_escala(x, s));
    assert(-limite_64() < ya - yx < limite_64() && (ya - yx) * q == va - vx) by (nonlinear_arith)
        requires
            ya * q == va,
            yx * q == vx,
            q >= 1,
            -limite_64() < va - vx < limite_64(),
    ;
    let (ma, mx, pa, px) = (
        a.mantisa as int,
        x.mantisa as int,
        pot10((s - a.escala) as nat),
        pot10((s - x.escala) as nat),
    );
    assert(-limite_64() < ma < limite_64() && -limite_64() < mx < limite_64()) by (nonlinear_arith)
        requires
            va == ma * pa,
            vx == mx * px,
            pa >= 1,
            px >= 1,
            -limite_64() < va < limite_64(),
            -limite_64() < vx < limite_64(),
    ;
}

/// An amount written in a scale at least its own is zero exactly when the
/// amount is, and a negated amount is written negated.
pub proof fn lema_en_escala_cero(d: Dinero, s: u32)
    requires
        d.escala <= s,
        -MANTISA_MAXIMA <= -d.mantisa <= MANTISA_MAXIMA,
    ensures
        d.mantisa == 0 <==> en_escala(d, s) == 0,
        en_escala(Dinero { mantisa: (-d.mantisa) as i128, escala: d.escala }, s) == -en_escala(d, s),
{
    lema_pot10_positiva((s - d.escala) as nat);
    let (m, p) = (d.mantisa as int, pot10((s - d.escala) as nat));
    assert((m == 0 <==> m * p == 0) && (-m) * p == -(m * p)) by (nonlinear_arith)
        requires
            p >= 1,
    ;
}

/// Amounts whose scales are at most `s <= 19` and which, together with
/// their sum, lie below 2^64 in magnitude when written in scale `s`.
pub open spec fn sumables_en(a: Dinero, b: Dinero, s: u32, resultado: int) -> bool {
    &&& a.escala <= s && b.escala <= s && s <= 19
    &&& -limite_64() < en_escala(a, s) < limite_64()
    &&& -limite_64() < en_escala(b, s) < limite_64()
    &&& -limite_64() < resultado < limite_64()
}

/// Two amounts of one scale, or two of which one is zero, compare as their
/// mantissas.
pub proof fn lema_menor_por_mantisa(a: Dinero, b: Dinero)
    requires
        a.escala == b.escala || a.mantisa == 0 || b.mantisa == 0,
    ensures
        a.menor_que(b) <==> a.mantisa < b.mantisa,
{
    let pa = pot10(a.escala as nat);
    let pb = pot10(b.escala as nat);
    lema_pot10_positiva(a.escala as nat);
    lema_pot10_positiva(b.escala as nat);
    let (ma, mb) = (a.mantisa as int, b.mantisa as int);
    if a.escala == b.escala {
        assert(ma * pb < mb * pa <==> ma < mb) by (nonlinear_arith)
            requires
                pa == pb,
                pa > 0,
        ;
    } else if a.mantisa == 0 {
        assert(ma * pb < mb * pa <==> ma < mb) by (nonlinear_arith)
            requires
                ma == 0,
                pa > 0,
        ;
    } else {
        assert(ma * pb < mb * pa <==> ma < mb) by (nonlinear_arith)
            requires
                mb == 0,
                pb > 0,
        ;
    }
}

/// What `Decimal::checked_add` returns for the two amounts.
pub uninterp spec fn decimal_suma(a: Dinero, b: Dinero) -> Option<Dinero>;

/// Calls `rust_decimal::Decimal::checked_add`. Claims: the result is the one
/// named `decimal_suma`; it lies in the ranges of a `Decimal`; adding a zero
/// gives back the other operand; with equal scales and a sum that fits in 96
/// bits the sum is exact and keeps the scale; with nonzero mantissas below
/// 2^64 and scales at most 19 apart, a sum that fits in 96 bits once both
/// are written in the larger scale is exact in that scale (the aligned
/// 32- and 64-bit paths of `add_impl`). Not claimed: how the result is
/// rounded otherwise.
#[verifier::external_body]
pub(crate) fn suma(a: Dinero, b: Dinero) -> (r: Option<Dinero>)
    requires
        a.wf(),
        b.wf(),
    ensures
        r == decimal_suma(a, b),
        r matches Some(c) ==> c.wf(),
        a.mantisa == 0 ==> r == Some(b),
        a.mantisa != 0 && b.mantisa == 0 ==> r == Some(a),
        a.escala == b.escala && a.mantisa != 0 && b.mantisa != 0 && -MANTISA_MAXIMA
            <= a.mantisa + b.mantisa <= MANTISA_MAXIMA ==> r == Some(
            Dinero { mantisa: (a.mantisa + b.mantisa) as i128, escala: a.escala },
        ),
        alineables(a, b) && -MANTISA_MAXIMA <= en_escala(a, escala_mayor(a, b)) + en_escala(
            b,
            escala_mayor(a, b),
        ) <= MANTISA_MAXIMA ==> r == Some(
            Dinero {
                mantisa: (en_escala(a, escala_mayor(a, b)) + en_escala(b, escala_mayor(a, b))) as i128,
                escala: escala_mayor(a, b),
            },
        ),
{
    let x = Decimal::from_i128_with_scale(a.mantisa, a.escala);
    let y = Decimal::from_i128_with_scale(b.mantisa, b.escala);
    match x.checked_add(y) {
        Some(z) => Some(Dinero { mantisa: z.mantissa(), escala: z.scale() }),
        None => None,
    }
}

/// What `Decimal::checked_sub` returns for the two amounts.
pub uninterp spec fn decimal_resta(a: Dinero, b: Dinero) -> Option<Dinero>;

/// Calls `rust_decimal::Decimal::checked_sub`. Claims: the result is the one
/// named `decimal_resta`; it lies in the ranges of a `Decimal`; subtracting
/// from zero negates, subtracting zero gives back the minuend; with equal
/// scales and a difference that fits in 96 bits the difference is exact and
/// keeps the scale; with nonzero mantissas below 2^64 and scales at most 19
/// apart, a difference that fits in 96 bits once both are written in the
/// larger scale is exact in that scale. Not claimed: how the result is
/// rounded otherwise.
#[verifier::external_body]
pub(crate) fn resta(a: Dinero, b: Dinero) -> (r: Option<Dinero>)
    requires
        a.wf(),
        b.wf(),
    ensures
        r == decimal_resta(a, b),
        r matches Some(c) ==> c.wf(),
        a.mantisa == 0 ==> r == Some(Dinero { mantisa: (-b.mantisa) as i128, escala: b.escala }),
        a.mantisa != 0 && b.mantisa == 0 ==> r == Some(a),
        a.escala == b.escala && a.mantisa != 0 && b.mantisa != 0 && -MANTISA_MAXIMA
            <= a.mantisa - b.mantisa <= MANTISA_MAXIMA ==> r == Some(
            Dinero { mantisa: (a.mantisa - b.mantisa) as i128, escala: a.escala },
        ),
        alineables(a, b) && -MANTISA_MAXIMA <= en_escala(a, escala_mayor(a, b)) - en_escala(
            b,
            escala_mayor(a, b),
        ) <= MANTISA_MAXIMA ==> r == Some(
            Dinero {
                mantisa: (en_escala(a, escala_mayor(a, b)) - en_escala(b, escala_mayor(a, b))) as i128,
                escala: escala_mayor(a, b),
            },
        ),
{
    let x = Decimal::from_i128_with_scale(a.mantisa, a.escala);
    let y = Decimal::from_i128_with_scale(b.mantisa, b.escala);
    match x.checked_sub(y) {
        Some(z) => Some(Dinero { mantisa: z.mantissa(), escala: z.scale() }),
        None => None,
    }
}

/// `a + b`, and, when both are bounded in scale `s` together with their
/// sum, the sum written in scale `s` is exact.
pub(crate) fn suma_en(a: Dinero, b: Dinero, Ghost(s): Ghost<u32>) -> (r: Option<Dinero>)
    requires
        a.wf(),
        b.wf(),
    ensures
        r == decimal_suma(a, b),
        r matches Some(c) ==> c.wf(),
        sumables_en(a, b, s, en_escala(a, s) + en_escala(b, s)) ==> (r matches Some(c) && c.escala
            <= s && en_escala(c, s) == en_escala(a, s) + en_escala(b, s)),
{
    let r = suma(a, b);
    proof {
        if sumables_en(a, b, s, en_escala(a, s) + en_escala(b, s)) {
            lema_en_escala_cero(a, s);
            lema_en_escala_cero(b, s);
            if a.mantisa != 0 && b.mantisa != 0 {
                lema_suma_alineada(a, b, s);
            }
        }
    }
    r
}

/// `a - b`, and, when both are bounded in scale `s` together with their
/// difference, the difference written in scale `s` is exact.
pub(crate) fn resta_en(a: Dinero, b: Dinero, Ghost(s): Ghost<u32>) -> (r: Option<Dinero>)
    requires
        a.wf(),
        b.wf(),
    ensures
        r == decimal_resta(a, b),
        r matches Some(c) ==> c.wf(),
        sumables_en(a, b, s, en_escala(a, s) - en_escala(b, s)) ==> (r matches Some(c) && c.escala
            <= s && en_escala(c, s) == en_escala(a, s) - en_escala(b, s)),
{
    let r = resta(a, b);
    proof {
        if sumables_en(a, b, s, en_escala(a, s) - en_escala(b, s)) {
            lema_en_escala_cero(a, s);
            lema_en_escala_cero(b, s);
            if a.mantisa != 0 && b.mantisa != 0 {
                lema_resta_alineada(a, b, s);
            }
        }
    }
    r
}

/// What `Decimal::checked_mul` returns for the two amounts.
pub uninterp spec fn decimal_producto(a: Dinero, b: Dinero) -> Option<Dinero>;

/// Calls `rust_decimal::Decimal::checked_mul`. Claims: the result is the one
/// named `decimal_producto`; it lies in the ranges of a `Decimal`; a zero
/// factor gives `Decimal::ZERO`; when the scales add up to at most 28 and
/// the product of the mantissas fits in 96 bits, the product is exact with
/// the summed scale. Not claimed: how the result is rounded otherwise.
#[verifier::external_body]
pub(crate) fn producto(a: Dinero, b: Dinero) -> (r: Option<Dinero>)
    requires
        a.wf(),
        b.wf(),
    ensures
        r == decimal_producto(a, b),
        r matches Some(c) ==> c.wf(),
        a.mantisa == 0 || b.mantisa == 0 ==> r == Some(Dinero { mantisa: 0, escala: 0 }),
        a.mantisa != 0 && b.mantisa != 0 && a.escala + b.escala <= ESCALA_MAXIMA
            && -MANTISA_MAXIMA <= a.mantisa * b.mantisa <= MANTISA_MAXIMA ==> r == Some(
            Dinero { mantisa: (a.mantisa * b.mantisa) as i128, escala: (a.escala + b.escala) as u32 },
        ),
{
    let x = Decimal::from_i128_with_scale(a.mantisa, a.escala);
    let y = Decimal::from_i128_with_scale(b.mantisa, b.escala);
    match x.checked_mul(y) {
        Some(z) => Some(Dinero { mantisa: z.mantissa(), escala: z.scale() }),
        None => None,
    }
}

/// Calls `<` on two `Decimal`s, which compares their numeric values.
#[verifier::external_body]
pub(crate) fn menor(a: Dinero, b: Dinero) -> (r: bool)
    requires
        a.wf(),
        b.wf(),
    ensures
        r == a.menor_que(b),
{
    Decimal::from_i128_with_scale(a.mantisa, a.escala) < Decimal::from_i128_with_scale(
        b.mantisa,
        b.escala,
    )
}

/// Calls `rust_decimal::Decimal::min`, which returns `b` when `a > b` and
/// `a` otherwise (comparing numeric values).
#[verifier::external_body]
pub(crate) fn minimo(a: Dinero, b: Dinero) -> (r: Dinero)
    requires
        a.wf(),
        b.wf(),
    ensures
        r == (if b.menor_que(a) { b } else { a }),
{
    let z = Decimal::from_i128_with_scale(a.mantisa, a.escala).min(
        Decimal::from_i128_with_scale(b.mantisa, b.escala),
    );
    Dinero { mantisa: z.mantissa(), escala: z.scale() }
}

/// Calls `rust_decimal::Decimal::max`, which returns `b` when `a < b` and
/// `a` otherwise (comparing numeric values).
#[verifier::external_body]
pub(crate) fn maximo(a: Dinero, b: Dinero) -> (r: Dinero)
    requires
        a.wf(),
        b.wf(),
    ensures
        r == (if a.menor_que(b) { b } else { a }),
{
    let z = Decimal::from_i128_with_scale(a.mantisa, a.escala).max(
        Decimal::from_i128_with_scale(b.mantisa, b.escala),
    );
    Dinero { mantisa: z.mantissa(), escala: z.scale() }
}

/// What `Decimal::from_str` returns for a text: the amount, or the text of
/// its error.
pub uninterp spec fn decimal_de_texto(s: Seq<char>) -> Result<Dinero, Seq<char>>;

/// A parse outcome with its error text as a sequence of characters.
pub open spec fn vista_lectura(r: Result<Dinero, String>) -> Result<Dinero, Seq<char>> {
    match r {
        Ok(d) => Ok(d),
        Err(e) => Err(e@),
    }
}

/// Calls `<Decimal as FromStr>::from_str`, and on failure the error's
/// `to_string`. Claims: the outcome is the one named `decimal_de_texto`, and
/// a parsed amount lies in the ranges of a `Decimal`.
#[verifier::external_body]
pub(crate) fn desde_texto(s: &str) -> (r: Result<Dinero, String>)
    ensures
        decimal_de_texto(s@) == vista_lectura(r),
        r matches Ok(d) ==> d.wf(),
{
    match s.parse::<Decimal>() {
        Ok(z) => Ok(Dinero { mantisa: z.mantissa(), escala: z.scale() }),
        Err(e) => Err(e.to_string()),
    }
}

} // verus!
