//! A sale, its lines, and the summary of a day of sales.

use crate::dinero::{
    decimal_producto, decimal_resta, decimal_suma, en_escala, escala_mayor, lema_en_escala_cero,
    lema_en_escala_doble,
    lema_pot10_positiva, lema_pot10_suma, lema_suma_alineada, limite_64, pot10, producto,
    resta_en, suma, suma_en, Dinero, ESCALA_MAXIMA, MANTISA_MAXIMA,
};
use crate::texto::{agregar_caracter, digito, dos_digitos};
use vstd::prelude::*;

verus! {

/// A date and time without time zone: the day counted from 1 January of
/// year 1, the second of that day and the nanosecond of that second.
#[derive(Clone, Copy, Debug)]
pub struct FechaHora {
    pub dia: i32,
    pub segundo_del_dia: u32,
    pub nanosegundo: u32,
}

impl FechaHora {
    /// The second lies within its day.
    pub open spec fn wf(self) -> bool {
        self.segundo_del_dia < 86400
    }

    /// The hour, 0 to 23.
    pub open spec fn hora_del_dia(self) -> nat {
        (self.segundo_del_dia / 3600) as nat
    }

    /// The minute within the hour, 0 to 59.
    pub open spec fn minuto(self) -> nat {
        ((self.segundo_del_dia % 3600) / 60) as nat
    }
}

/// One line of a sale: a product, its quantity and its unit price.
#[derive(Debug)]
pub struct VentaLinea {
    pub id: u128,
    pub producto_id: u128,
    pub nid: i32,
    pub nombre: String,
    pub cantidad: Dinero,
    pub precio_unitario: Dinero,
    pub es_ingreso_trasladado: bool,
}

/// `cantidad * precio_unitario`, or `None` when the product overflows.
pub open spec fn subtotal(l: VentaLinea) -> Option<Dinero> {
    decimal_producto(l.cantidad, l.precio_unitario)
}

/// `a + b` when both exist and the sum does not overflow.
pub open spec fn sumar_op(a: Option<Dinero>, b: Option<Dinero>) -> Option<Dinero> {
    match a {
        Some(x) => match b {
            Some(y) => decimal_suma(x, y),
            None => None,
        },
        None => None,
    }
}

/// `a - b` when both exist and the difference does not overflow.
pub open spec fn restar_op(a: Option<Dinero>, b: Option<Dinero>) -> Option<Dinero> {
    match a {
        Some(x) => match b {
            Some(y) => decimal_resta(x, y),
            None => None,
        },
        None => None,
    }
}

/// The sum, from `Decimal::ZERO`, of the subtotals of the lines.
pub open spec fn total_lineas(ls: Seq<VentaLinea>) -> Option<Dinero>
    decreases ls.len(),
{
    if ls.len() == 0 {
        Some(Dinero { mantisa: 0, escala: 0 })
    } else {
        sumar_op(total_lineas(ls.drop_last()), subtotal(ls.last()))
    }
}

impl VentaLinea {
    /// Quantity and price lie in the ranges of a `Decimal`.
    pub open spec fn wf(&self) -> bool {
        self.cantidad.wf() && self.precio_unitario.wf()
    }

    /// `cantidad * precio_unitario`, or `None` when it overflows.
    pub fn subtotal(&self) -> (r: Option<Dinero>)
        requires
            self.wf(),
        ensures
            r == subtotal(*self),
            r matches Some(d) ==> d.wf(),
    {
        producto(self.cantidad, self.precio_unitario)
    }

    /// The amount of the line: `cantidad * precio_unitario`.
    pub fn total(&self) -> (r: Dinero)
        requires
            self.wf(),
            subtotal(*self) is Some,
        ensures
            subtotal(*self) == Some(r),
            r.wf(),
    {
        match producto(self.cantidad, self.precio_unitario) {
            Some(d) => d,
            None => Dinero::cero(),
        }
    }
}

/// One sale: its payments by method and its lines.
#[derive(Debug)]
pub struct Venta {
    pub id: u128,
    pub fecha_ajuste: FechaHora,
    pub pago: Dinero,
    pub pago_monedero: Dinero,
    pub pago_tarjeta: Dinero,
    pub pago_transferencia: Dinero,
    pub pago_dolares: Dinero,
    pub tipo_cambio_dolares: Dinero,
    pub cambio: Dinero,
    pub cliente_id: Option<u128>,
    pub monedero_generado: Dinero,
    pub lineas: Vec<VentaLinea>,
}

impl Venta {
    /// All amounts lie in the ranges of a `Decimal` and the time in its day.
    pub open spec fn wf(&self) -> bool {
        &&& self.fecha_ajuste.wf()
        &&& self.pago.wf()
        &&& self.pago_monedero.wf()
        &&& self.pago_tarjeta.wf()
        &&& self.pago_transferencia.wf()
        &&& self.pago_dolares.wf()
        &&& self.tipo_cambio_dolares.wf()
        &&& self.cambio.wf()
        &&& self.monedero_generado.wf()
        &&& forall|j: int| 0 <= j < self.lineas@.len() ==> (#[trigger] self.lineas@[j]).wf()
    }

    /// The sum of the subtotals of the lines, or `None` when it overflows.
    /// When the lines' subtotals are bounded in their largest scale
    /// (`lineas_venta_acotadas`), nothing overflows or is rounded: written
    /// in any scale from that one up, the total is the sum of the subtotals.
    pub fn total_verificado(&self) -> (r: Option<Dinero>)
        requires
            self.wf(),
        ensures
            r == total_lineas(self.lineas@),
            r matches Some(d) ==> d.wf(),
            lineas_venta_acotadas(self.lineas@) ==> (r matches Some(d) && d.escala
                <= escala_max_lineas(self.lineas@)),
            lineas_venta_acotadas(self.lineas@) ==> (r matches Some(d) && forall|s: u32|
                escala_max_lineas(self.lineas@) <= s ==> d.escala <= s && en_escala(d, s)
                    == #[trigger] subtotales_todas_lineas_en(self.lineas@, s)),
    {
        let ghost ls = self.lineas@;
        let ghost ac = lineas_venta_acotadas(ls);
        let ghost em = escala_max_lineas(ls) as u32;
        proof {
            lema_escala_max_lineas(ls);
        }
        let mut acumulado: Option<Dinero> = Some(Dinero::cero());
        let n = self.lineas.len();
        for j in 0..n
            invariant
                n == self.lineas@.len(),
                ls == self.lineas@,
                self.wf(),
                acumulado == total_lineas(self.lineas@.take(j as int)),
                acumulado matches Some(d) ==> d.wf(),
                ac == lineas_venta_acotadas(ls),
                em == escala_max_lineas(ls) as u32,
                0 <= escala_max_lineas(ls),
                forall|k: int| 0 <= k < ls.len() ==> escala_linea(#[trigger] ls[k]) <= escala_max_lineas(ls),
                ac ==> (acumulado matches Some(a) && a.escala <= em && en_escala(a, em)
                    == subtotales_todas_lineas_en(ls.take(j as int), em)),
        {
            proof {
                assert(ls.take(j + 1).drop_last() =~= ls.take(j as int));
                assert(ls.take(j + 1).last() == ls[j as int]);
            }
            let l = &self.lineas[j];
            assert(l.wf());
            let producto_linea = producto(l.cantidad, l.precio_unitario);
            proof {
                if ac {
                    assert(escala_linea(ls[j as int]) <= em);
                    lema_cota_total(ls, em, j as int);
                    let (c, q) = (l.cantidad.mantisa as int, l.precio_unitario.mantisa as int);
                    let e = escala_linea(*l);
                    lema_pot10_positiva((em - e) as nat);
                    let k = pot10((em - e) as nat);
                    let x = subtotal_en_escala(*l, em);
                    assert(magnitud(c * q) <= magnitud(x) && (c == 0 || q == 0 ==> x == 0))
                        by (nonlinear_arith)
                        requires
                            x == c * q * k,
                            k >= 1,
                    ;
                    if c == 0 || q == 0 {
                        assert(c * q == 0) by (nonlinear_arith)
                            requires
                                c == 0 || q == 0,
                        ;
                        lema_en_escala_cero(Dinero { mantisa: 0, escala: 0 }, em);
                    }
                    assert(producto_linea matches Some(y) && y.escala <= em && en_escala(y, em)
                        == x);
                }
            }
            acumulado = match acumulado {
                Some(a) => match producto_linea {
                    Some(x) => suma_en(a, x, Ghost(em)),
                    None => None,
                },
                None => None,
            };
        }
        proof {
            assert(ls.take(n as int) =~= ls);
            if ac {
                let d = acumulado->0;
                assert forall|s: u32| escala_max_lineas(ls) <= s implies d.escala <= s && en_escala(d, s)
                    == #[trigger] subtotales_todas_lineas_en(ls, s) by {
                    lema_en_escala_doble(d, em, s);
                    lema_lineas_a_escala(ls, false, em, s);
                    lema_lineas_a_escala(ls, true, em, s);
                    lema_reparto_lineas_en(ls, em);
                    lema_reparto_lineas_en(ls, s);
                    let k = pot10((s - em) as nat);
                    let (a, b) = (subtotales_lineas_en(ls, false, em), subtotales_lineas_en(ls, true, em));
                    assert((a + b) * k == a * k + b * k) by (nonlinear_arith);
                }
            }
        }
        acumulado
    }

    /// The total of the sale: the sum of `cantidad * precio_unitario` over
    /// its lines; exact, in any scale from the lines' largest up, when the
    /// subtotals are bounded (`lineas_venta_acotadas`).
    pub fn total(&self) -> (r: Dinero)
        requires
            self.wf(),
            total_lineas(self.lineas@) is Some,
        ensures
            total_lineas(self.lineas@) == Some(r),
            r.wf(),
            lineas_venta_acotadas(self.lineas@) ==> forall|s: u32|
                escala_max_lineas(self.lineas@) <= s ==> r.escala <= s && en_escala(r, s)
                    == #[trigger] subtotales_todas_lineas_en(self.lineas@, s),
    {
        let t = self.total_verificado();
        let r = match t {
            Some(d) => d,
            None => Dinero::cero(),
        };
        proof {
            if lineas_venta_acotadas(self.lineas@) {
                assert forall|s: u32| escala_max_lineas(self.lineas@) <= s implies r.escala <= s
                    && en_escala(r, s) == #[trigger] subtotales_todas_lineas_en(self.lineas@, s) by {
                    assert(t == Some(r));
                    assert(subtotales_todas_lineas_en(self.lineas@, s) == subtotales_todas_lineas_en(
                        self.lineas@,
                        s,
                    ));
                }
            }
        }
        r
    }

    /// The time of the sale as `HH:MM`.
    pub fn hora(&self) -> (r: String)
        requires
            self.fecha_ajuste.wf(),
        ensures
            r@ == dos_digitos(self.fecha_ajuste.hora_del_dia()) + seq![':'] + dos_digitos(
                self.fecha_ajuste.minuto(),
            ),
    {
        let s = self.fecha_ajuste.segundo_del_dia;
        let h = s / 3600;
        let m = (s % 3600) / 60;
        let mut r = String::new();
        agregar_caracter(&mut r, digito((h / 10) as u8));
        agregar_caracter(&mut r, digito((h % 10) as u8));
        agregar_caracter(&mut r, ':');
        agregar_caracter(&mut r, digito((m / 10) as u8));
        agregar_caracter(&mut r, digito((m % 10) as u8));
        proof {
            assert(r@ =~= dos_digitos(self.fecha_ajuste.hora_del_dia()) + seq![':'] + dos_digitos(
                self.fecha_ajuste.minuto(),
            ));
        }
        r
    }
}

/// One step of the day's product sums: adds the subtotal of `l` when the
/// line is (`trasladado`) or is not (`!trasladado`) a transferred income;
/// `None` once any subtotal or sum has overflowed.
pub open spec fn paso_linea(acc: Option<Dinero>, l: VentaLinea, trasladado: bool) -> Option<Dinero> {
    match acc {
        Some(a) => match subtotal(l) {
            Some(s) => if l.es_ingreso_trasladado == trasladado {
                decimal_suma(a, s)
            } else {
                Some(a)
            },
            None => None,
        },
        None => None,
    }
}

/// `acc` plus the chosen subtotals of the lines `ls`, in order.
pub open spec fn sumar_lineas(acc: Option<Dinero>, ls: Seq<VentaLinea>, trasladado: bool) -> Option<
    Dinero,
>
    decreases ls.len(),
{
    if ls.len() == 0 {
        acc
    } else {
        paso_linea(sumar_lineas(acc, ls.drop_last(), trasladado), ls.last(), trasladado)
    }
}

/// The sum, from `Decimal::ZERO`, over all lines of all sales in order, of
/// the subtotals of the lines that are (`trasladado`) or are not
/// (`!trasladado`) transferred incomes.
pub open spec fn sumar_subtotales(vs: Seq<Venta>, trasladado: bool) -> Option<Dinero>
    decreases vs.len(),
{
    if vs.len() == 0 {
        Some(Dinero { mantisa: 0, escala: 0 })
    } else {
        sumar_lineas(sumar_subtotales(vs.drop_last(), trasladado), vs.last().lineas@, trasladado)
    }
}

/// A payment method whose amounts the summary adds up over the day.
#[derive(Clone, Copy, Debug)]
pub enum CampoPago {
    Monedero,
    Tarjeta,
    Transferencia,
    Dolares,
    DolaresEnPesos,
}

/// The amount of a sale paid with a method; dollars in pesos is
/// `pago_dolares * tipo_cambio_dolares`.
pub open spec fn valor_pago(v: Venta, c: CampoPago) -> Option<Dinero> {
    match c {
        CampoPago::Monedero => Some(v.pago_monedero),
        CampoPago::Tarjeta => Some(v.pago_tarjeta),
        CampoPago::Transferencia => Some(v.pago_transferencia),
        CampoPago::Dolares => Some(v.pago_dolares),
        CampoPago::DolaresEnPesos => decimal_producto(v.pago_dolares, v.tipo_cambio_dolares),
    }
}

/// The sum, from `Decimal::ZERO`, of a payment method over the sales.
pub open spec fn sumar_pagos(vs: Seq<Venta>, c: CampoPago) -> Option<Dinero>
    decreases vs.len(),
{
    if vs.len() == 0 {
        Some(Dinero { mantisa: 0, escala: 0 })
    } else {
        sumar_op(sumar_pagos(vs.drop_last(), c), valor_pago(vs.last(), c))
    }
}

/// The scale of the amount of a sale paid with a method (for dollars in
/// pesos, the scales of amount and rate added).
pub open spec fn escala_pago(v: Venta, c: CampoPago) -> int {
    match c {
        CampoPago::Monedero => v.pago_monedero.escala as int,
        CampoPago::Tarjeta => v.pago_tarjeta.escala as int,
        CampoPago::Transferencia => v.pago_transferencia.escala as int,
        CampoPago::Dolares => v.pago_dolares.escala as int,
        CampoPago::DolaresEnPesos => v.pago_dolares.escala + v.tipo_cambio_dolares.escala,
    }
}

/// The amount of a sale paid with a method, exact, written in scale `s`.
pub open spec fn pago_en(v: Venta, c: CampoPago, s: u32) -> int {
    match c {
        CampoPago::Monedero => en_escala(v.pago_monedero, s),
        CampoPago::Tarjeta => en_escala(v.pago_tarjeta, s),
        CampoPago::Transferencia => en_escala(v.pago_transferencia, s),
        CampoPago::Dolares => en_escala(v.pago_dolares, s),
        CampoPago::DolaresEnPesos => v.pago_dolares.mantisa * v.tipo_cambio_dolares.mantisa * pot10(
            (s - escala_pago(v, c)) as nat,
        ),
    }
}

/// The sum over the sales of `pago_en`.
pub open spec fn pagos_en(vs: Seq<Venta>, c: CampoPago, s: u32) -> int
    decreases vs.len(),
{
    if vs.len() == 0 {
        0
    } else {
        pagos_en(vs.drop_last(), c, s) + pago_en(vs.last(), c, s)
    }
}

/// The sum over the sales of the magnitudes of `pago_en`.
pub open spec fn magnitud_pagos_en(vs: Seq<Venta>, c: CampoPago, s: u32) -> int
    decreases vs.len(),
{
    if vs.len() == 0 {
        0
    } else {
        magnitud_pagos_en(vs.drop_last(), c, s) + magnitud(pago_en(vs.last(), c, s))
    }
}

/// The largest scale of a payment method over the sales (0 without sales).
pub open spec fn escala_max_pagos(vs: Seq<Venta>, c: CampoPago) -> int
    decreases vs.len(),
{
    if vs.len() == 0 {
        0
    } else {
        let e = escala_max_pagos(vs.drop_last(), c);
        if e <= escala_pago(vs.last(), c) {
            escala_pago(vs.last(), c)
        } else {
            e
        }
    }
}

/// Every amount of the method has a scale of at most `s`, itself at most
/// 19, and the amounts written in scale `s` add up, in magnitude, to less
/// than 2^64.
pub open spec fn pagos_acotados(vs: Seq<Venta>, c: CampoPago, s: u32) -> bool {
    &&& s <= 19
    &&& forall|i: int| 0 <= i < vs.len() ==> escala_pago(#[trigger] vs[i], c) <= s
    &&& magnitud_pagos_en(vs, c, s) < limite_64()
}

/// Cash in the till: product sales plus transferred incomes, minus what was
/// paid with the wallet, by card, by transfer and in dollars (in pesos),
/// subtracted in that order.
pub open spec fn efectivo(
    venta_productos: Dinero,
    ingresos_trasladados: Dinero,
    total_monedero: Dinero,
    total_tarjeta: Dinero,
    total_transferencia: Dinero,
    total_dolares_en_pesos: Dinero,
) -> Option<Dinero> {
    restar_op(
        restar_op(
            restar_op(
                restar_op(decimal_suma(venta_productos, ingresos_trasladados), Some(total_monedero)),
                Some(total_tarjeta),
            ),
            Some(total_transferencia),
        ),
        Some(total_dolares_en_pesos),
    )
}

/// The summary of the day's totals.
#[derive(Clone, Copy, Debug)]
pub struct ResumenDia {
    pub venta_productos: Dinero,
    pub ingresos_trasladados: Dinero,
    pub efectivo_en_caja: Dinero,
    pub total_monedero: Dinero,
    pub total_tarjeta: Dinero,
    pub total_transferencia: Dinero,
    pub total_dolares: Dinero,
    pub total_dolares_en_pesos: Dinero,
}

/// The summary of the sales `vs`, or `None` when some amount overflows.
pub open spec fn resumen_de(vs: Seq<Venta>) -> Option<ResumenDia> {
    let vp = sumar_subtotales(vs, false);
    let it = sumar_subtotales(vs, true);
    let tm = sumar_pagos(vs, CampoPago::Monedero);
    let tt = sumar_pagos(vs, CampoPago::Tarjeta);
    let ttr = sumar_pagos(vs, CampoPago::Transferencia);
    let td = sumar_pagos(vs, CampoPago::Dolares);
    let tdp = sumar_pagos(vs, CampoPago::DolaresEnPesos);
    if vp is Some && it is Some && tm is Some && tt is Some && ttr is Some && td is Some
        && tdp is Some {
        match efectivo(vp->0, it->0, tm->0, tt->0, ttr->0, tdp->0) {
            Some(e) => Some(
                ResumenDia {
                    venta_productos: vp->0,
                    ingresos_trasladados: it->0,
                    efectivo_en_caja: e,
                    total_monedero: tm->0,
                    total_tarjeta: tt->0,
                    total_transferencia: ttr->0,
                    total_dolares: td->0,
                    total_dolares_en_pesos: tdp->0,
                },
            ),
            None => None,
        }
    } else {
        None
    }
}

/// All sales are well formed.
pub open spec fn ventas_wf(vs: Seq<Venta>) -> bool {
    forall|i: int| 0 <= i < vs.len() ==> (#[trigger] vs[i]).wf()
}

/// The magnitude of an integer.
pub open spec fn magnitud(x: int) -> int {
    if x < 0 {
        -x
    } else {
        x
    }
}

/// The product of the mantissas of a line's quantity and price.
pub open spec fn mantisa_producto(l: VentaLinea) -> int {
    l.cantidad.mantisa * l.precio_unitario.mantisa
}

/// The sum of `mantisa_producto` over the lines that are (`trasladado`) or
/// are not transferred incomes.
pub open spec fn mantisas_lineas(ls: Seq<VentaLinea>, trasladado: bool) -> int
    decreases ls.len(),
{
    if ls.len() == 0 {
        0
    } else {
        mantisas_lineas(ls.drop_last(), trasladado) + if ls.last().es_ingreso_trasladado
            == trasladado {
            mantisa_producto(ls.last())
        } else {
            0
        }
    }
}

/// The sum of `mantisas_lineas` over the lines of all sales.
pub open spec fn mantisas_ventas(vs: Seq<Venta>, trasladado: bool) -> int
    decreases vs.len(),
{
    if vs.len() == 0 {
        0
    } else {
        mantisas_ventas(vs.drop_last(), trasladado) + mantisas_lineas(vs.last().lineas@, trasladado)
    }
}

/// The sum of the magnitudes of `mantisa_producto` over the lines.
pub open spec fn magnitud_lineas(ls: Seq<VentaLinea>) -> int
    decreases ls.len(),
{
    if ls.len() == 0 {
        0
    } else {
        magnitud_lineas(ls.drop_last()) + magnitud(mantisa_producto(ls.last()))
    }
}

/// The sum of `magnitud_lineas` over the sales.
pub open spec fn magnitud_ventas(vs: Seq<Venta>) -> int
    decreases vs.len(),
{
    if vs.len() == 0 {
        0
    } else {
        magnitud_ventas(vs.drop_last()) + magnitud_lineas(vs.last().lineas@)
    }
}

/// The subtotal of the line is written in scale `s`: unless a factor is
/// zero, the scales of quantity and price add up to `s`.
pub open spec fn linea_en_escala(l: VentaLinea, s: u32) -> bool {
    l.cantidad.mantisa != 0 && l.precio_unitario.mantisa != 0 ==> l.cantidad.escala
        + l.precio_unitario.escala == s
}

/// Every line's subtotal is written in scale `s`, a scale of a `Decimal`,
/// and all subtotals together fit in 96 bits, so that no product and no
/// sum of them is rounded.
pub open spec fn ventas_en_escala(vs: Seq<Venta>, s: u32) -> bool {
    &&& s <= ESCALA_MAXIMA
    &&& forall|i: int, j: int|
        0 <= i < vs.len() && 0 <= j < vs[i].lineas@.len() ==> linea_en_escala(
            #[trigger] vs[i].lineas@[j],
            s,
        )
    &&& magnitud_ventas(vs) <= MANTISA_MAXIMA
}

/// The subtotals of the sales share one scale and fit together in 96 bits.
pub open spec fn lineas_exactas(vs: Seq<Venta>) -> bool {
    exists|s: u32| ventas_en_escala(vs, s)
}

/// The scale that the subtotals of the sales share.
pub open spec fn escala_de_lineas(vs: Seq<Venta>) -> u32 {
    choose|s: u32| ventas_en_escala(vs, s)
}

proof fn lema_magnitud_lineas(ls: Seq<VentaLinea>, t: bool, j: int)
    requires
        0 <= j <= ls.len(),
    ensures
        0 <= magnitud_lineas(ls.take(j)) <= magnitud_lineas(ls),
        magnitud(mantisas_lineas(ls.take(j), t)) <= magnitud_lineas(ls.take(j)),
    decreases ls.len() - j,
{
    lema_magnitud_lineas_todas(ls.take(j), t);
    if j < ls.len() {
        lema_magnitud_lineas(ls, t, j + 1);
        assert(ls.take(j + 1).drop_last() =~= ls.take(j));
    } else {
        assert(ls.take(j) =~= ls);
    }
}

proof fn lema_magnitud_lineas_todas(ls: Seq<VentaLinea>, t: bool)
    ensures
        0 <= magnitud_lineas(ls),
        magnitud(mantisas_lineas(ls, t)) <= magnitud_lineas(ls),
    decreases ls.len(),
{
    if ls.len() > 0 {
        lema_magnitud_lineas_todas(ls.drop_last(), t);
    }
}

proof fn lema_magnitud_ventas(vs: Seq<Venta>, t: bool, i: int)
    requires
        0 <= i <= vs.len(),
    ensures
        0 <= magnitud_ventas(vs.take(i)) <= magnitud_ventas(vs),
        magnitud(mantisas_ventas(vs.take(i), t)) <= magnitud_ventas(vs.take(i)),
    decreases vs.len() - i,
{
    lema_magnitud_ventas_todas(vs.take(i), t);
    if i < vs.len() {
        lema_magnitud_ventas(vs, t, i + 1);
        assert(vs.take(i + 1).drop_last() =~= vs.take(i));
        lema_magnitud_lineas_todas(vs.take(i + 1).last().lineas@, t);
    } else {
        assert(vs.take(i) =~= vs);
    }
}

proof fn lema_magnitud_ventas_todas(vs: Seq<Venta>, t: bool)
    ensures
        0 <= magnitud_ventas(vs),
        magnitud(mantisas_ventas(vs, t)) <= magnitud_ventas(vs),
    decreases vs.len(),
{
    if vs.len() > 0 {
        lema_magnitud_ventas_todas(vs.drop_last(), t);
        lema_magnitud_lineas_todas(vs.last().lineas@, t);
    }
}

/// Within well-scaled sales, the running sum up to line `j` of sale `i`,
/// and that line's own product, stay within the total magnitude.
proof fn lema_cota_parcial(vs: Seq<Venta>, t: bool, i: int, j: int)
    requires
        0 <= i < vs.len(),
        0 <= j < vs[i].lineas@.len(),
    ensures
        magnitud(mantisas_ventas(vs.take(i), t) + mantisas_lineas(vs[i].lineas@.take(j + 1), t))
            <= magnitud_ventas(vs),
        magnitud(mantisa_producto(vs[i].lineas@[j])) <= magnitud_ventas(vs),
{
    let ls = vs[i].lineas@;
    lema_magnitud_ventas(vs, t, i);
    lema_magnitud_ventas(vs, t, i + 1);
    lema_magnitud_lineas(ls, t, j);
    lema_magnitud_lineas(ls, t, j + 1);
    assert(vs.take(i + 1).drop_last() =~= vs.take(i));
    assert(vs.take(i + 1).last() == vs[i]);
    assert(ls.take(j + 1).drop_last() =~= ls.take(j));
    assert(ls.take(j + 1).last() == ls[j]);
}

/// The scale of a line's subtotal: the scales of quantity and price added.
pub open spec fn escala_linea(l: VentaLinea) -> int {
    l.cantidad.escala + l.precio_unitario.escala
}

/// The subtotal of a line (`cantidad * precio_unitario`, exact) written in
/// scale `s`.
pub open spec fn subtotal_en_escala(l: VentaLinea, s: u32) -> int {
    l.cantidad.mantisa * l.precio_unitario.mantisa * pot10((s - escala_linea(l)) as nat)
}

/// The sum, in scale `s`, of the subtotals of the lines that are
/// (`trasladado`) or are not transferred incomes.
pub open spec fn subtotales_lineas_en(ls: Seq<VentaLinea>, trasladado: bool, s: u32) -> int
    decreases ls.len(),
{
    if ls.len() == 0 {
        0
    } else {
        subtotales_lineas_en(ls.drop_last(), trasladado, s) + if ls.last().es_ingreso_trasladado
            == trasladado {
            subtotal_en_escala(ls.last(), s)
        } else {
            0
        }
    }
}

/// The sum of `subtotales_lineas_en` over the sales.
pub open spec fn subtotales_ventas_en(vs: Seq<Venta>, trasladado: bool, s: u32) -> int
    decreases vs.len(),
{
    if vs.len() == 0 {
        0
    } else {
        subtotales_ventas_en(vs.drop_last(), trasladado, s) + subtotales_lineas_en(
            vs.last().lineas@,
            trasladado,
            s,
        )
    }
}

/// The sum of the magnitudes of the subtotals in scale `s`.
pub open spec fn magnitud_lineas_en(ls: Seq<VentaLinea>, s: u32) -> int
    decreases ls.len(),
{
    if ls.len() == 0 {
        0
    } else {
        magnitud_lineas_en(ls.drop_last(), s) + magnitud(subtotal_en_escala(ls.last(), s))
    }
}

/// The sum of `magnitud_lineas_en` over the sales.
pub open spec fn magnitud_ventas_en(vs: Seq<Venta>, s: u32) -> int
    decreases vs.len(),
{
    if vs.len() == 0 {
        0
    } else {
        magnitud_ventas_en(vs.drop_last(), s) + magnitud_lineas_en(vs.last().lineas@, s)
    }
}

/// Every line's subtotal has a scale of at most `s`, itself at most 19,
/// and the subtotals written in scale `s` add up, in magnitude, to less
/// than 2^64: then no product and no sum of them is rounded, whatever the
/// scales of the amounts.
pub open spec fn ventas_acotadas(vs: Seq<Venta>, s: u32) -> bool {
    &&& s <= 19
    &&& forall|i: int, j: int|
        0 <= i < vs.len() && 0 <= j < vs[i].lineas@.len() ==> escala_linea(
            #[trigger] vs[i].lineas@[j],
        ) <= s
    &&& magnitud_ventas_en(vs, s) < limite_64()
}

/// The largest scale of the subtotals of the lines (0 without lines).
pub open spec fn escala_max_lineas(ls: Seq<VentaLinea>) -> int
    decreases ls.len(),
{
    if ls.len() == 0 {
        0
    } else {
        let e = escala_max_lineas(ls.drop_last());
        if e <= escala_linea(ls.last()) {
            escala_linea(ls.last())
        } else {
            e
        }
    }
}

/// The largest scale of the subtotals of the lines of all sales.
pub open spec fn escala_max_ventas(vs: Seq<Venta>) -> int
    decreases vs.len(),
{
    if vs.len() == 0 {
        0
    } else {
        let e = escala_max_ventas(vs.drop_last());
        let f = escala_max_lineas(vs.last().lineas@);
        if e <= f {
            f
        } else {
            e
        }
    }
}

/// The scale in which the subtotals of the sales are added exactly: the
/// largest of their scales.
pub open spec fn escala_acotada(vs: Seq<Venta>) -> u32 {
    escala_max_ventas(vs) as u32
}

/// The subtotals are bounded in the largest of their scales, as
/// `ventas_acotadas` asks (a smaller scale would not hold them all, and a
/// larger one only makes them larger).
pub open spec fn lineas_acotadas(vs: Seq<Venta>) -> bool {
    &&& escala_max_ventas(vs) <= 19
    &&& magnitud_ventas_en(vs, escala_max_ventas(vs) as u32) < limite_64()
}

pub proof fn lema_escala_max_lineas(ls: Seq<VentaLinea>)
    ensures
        0 <= escala_max_lineas(ls),
        forall|j: int| 0 <= j < ls.len() ==> escala_linea(#[trigger] ls[j]) <= escala_max_lineas(ls),
    decreases ls.len(),
{
    if ls.len() > 0 {
        let p = ls.drop_last();
        lema_escala_max_lineas(p);
        assert forall|j: int| 0 <= j < ls.len() implies escala_linea(#[trigger] ls[j])
            <= escala_max_lineas(ls) by {
            if j < p.len() {
                assert(ls[j] == p[j]);
            }
        }
    }
}

/// Every line's scale is at most the largest one.
pub proof fn lema_escala_max_ventas(vs: Seq<Venta>)
    ensures
        0 <= escala_max_ventas(vs),
        forall|i: int, j: int|
            0 <= i < vs.len() && 0 <= j < vs[i].lineas@.len() ==> escala_linea(
                #[trigger] vs[i].lineas@[j],
            ) <= escala_max_ventas(vs),
    decreases vs.len(),
{
    if vs.len() > 0 {
        let p = vs.drop_last();
        lema_escala_max_ventas(p);
        lema_escala_max_lineas(vs.last().lineas@);
        assert forall|i: int, j: int|
            0 <= i < vs.len() && 0 <= j < vs[i].lineas@.len() implies escala_linea(
                #[trigger] vs[i].lineas@[j],
            ) <= escala_max_ventas(vs) by {
            if i < p.len() {
                assert(vs[i] == p[i]);
                assert(escala_linea(p[i].lineas@[j]) <= escala_max_ventas(p));
            } else {
                assert(vs[i] == vs.last());
                assert(escala_linea(vs.last().lineas@[j]) <= escala_max_lineas(vs.last().lineas@));
            }
        }
    }
}

/// Bounded subtotals are bounded in their largest scale.
pub proof fn lema_lineas_acotadas(vs: Seq<Venta>)
    requires
        lineas_acotadas(vs),
    ensures
        ventas_acotadas(vs, escala_acotada(vs)),
{
    lema_escala_max_ventas(vs);
}

proof fn lema_magnitud_lineas_en_todas(ls: Seq<VentaLinea>, t: bool, s: u32)
    ensures
        0 <= magnitud_lineas_en(ls, s),
        magnitud(subtotales_lineas_en(ls, t, s)) <= magnitud_lineas_en(ls, s),
    decreases ls.len(),
{
    if ls.len() > 0 {
        lema_magnitud_lineas_en_todas(ls.drop_last(), t, s);
    }
}

proof fn lema_magnitud_lineas_en(ls: Seq<VentaLinea>, t: bool, s: u32, j: int)
    requires
        0 <= j <= ls.len(),
    ensures
        0 <= magnitud_lineas_en(ls.take(j), s) <= magnitud_lineas_en(ls, s),
        magnitud(subtotales_lineas_en(ls.take(j), t, s)) <= magnitud_lineas_en(ls.take(j), s),
    decreases ls.len() - j,
{
    lema_magnitud_lineas_en_todas(ls.take(j), t, s);
    if j < ls.len() {
        lema_magnitud_lineas_en(ls, t, s, j + 1);
        assert(ls.take(j + 1).drop_last() =~= ls.take(j));
    } else {
        assert(ls.take(j) =~= ls);
    }
}

proof fn lema_magnitud_ventas_en_todas(vs: Seq<Venta>, t: bool, s: u32)
    ensures
        0 <= magnitud_ventas_en(vs, s),
        magnitud(subtotales_ventas_en(vs, t, s)) <= magnitud_ventas_en(vs, s),
    decreases vs.len(),
{
    if vs.len() > 0 {
        lema_magnitud_ventas_en_todas(vs.drop_last(), t, s);
        lema_magnitud_lineas_en_todas(vs.last().lineas@, t, s);
    }
}

proof fn lema_magnitud_ventas_en(vs: Seq<Venta>, t: bool, s: u32, i: int)
    requires
        0 <= i <= vs.len(),
    ensures
        0 <= magnitud_ventas_en(vs.take(i), s) <= magnitud_ventas_en(vs, s),
        magnitud(subtotales_ventas_en(vs.take(i), t, s)) <= magnitud_ventas_en(vs.take(i), s),
    decreases vs.len() - i,
{
    lema_magnitud_ventas_en_todas(vs.take(i), t, s);
    if i < vs.len() {
        lema_magnitud_ventas_en(vs, t, s, i + 1);
        assert(vs.take(i + 1).drop_last() =~= vs.take(i));
        lema_magnitud_lineas_en_todas(vs.take(i + 1).last().lineas@, t, s);
    } else {
        assert(vs.take(i) =~= vs);
    }
}

/// Within bounded sales, the running sum in scale `s` up to line `j` of
/// sale `i`, and that line's own subtotal, stay within the total magnitude.
proof fn lema_cota_parcial_en(vs: Seq<Venta>, t: bool, s: u32, i: int, j: int)
    requires
        0 <= i < vs.len(),
        0 <= j < vs[i].lineas@.len(),
    ensures
        magnitud(subtotales_ventas_en(vs.take(i), t, s) + subtotales_lineas_en(
            vs[i].lineas@.take(j + 1),
            t,
            s,
        )) <= magnitud_ventas_en(vs, s),
        magnitud(subtotal_en_escala(vs[i].lineas@[j], s)) <= magnitud_ventas_en(vs, s),
        magnitud(subtotales_ventas_en(vs.take(i), t, s) + subtotales_lineas_en(
            vs[i].lineas@.take(j),
            t,
            s,
        )) <= magnitud_ventas_en(vs, s),
{
    let ls = vs[i].lineas@;
    lema_magnitud_ventas_en(vs, t, s, i);
    lema_magnitud_ventas_en(vs, t, s, i + 1);
    lema_magnitud_lineas_en(ls, t, s, j);
    lema_magnitud_lineas_en(ls, t, s, j + 1);
    assert(vs.take(i + 1).drop_last() =~= vs.take(i));
    assert(vs.take(i + 1).last() == vs[i]);
    assert(ls.take(j + 1).drop_last() =~= ls.take(j));
    assert(ls.take(j + 1).last() == ls[j]);
}

/// An amount written in a scale at least its own is at least as large in
/// magnitude, and zero exactly when the amount is.
proof fn lema_en_escala_magnitud(d: Dinero, s: u32)
    requires
        d.escala <= s,
    ensures
        magnitud(d.mantisa as int) <= magnitud(en_escala(d, s)),
        d.mantisa == 0 <==> en_escala(d, s) == 0,
{
    lema_pot10_positiva((s - d.escala) as nat);
    let (m, p) = (d.mantisa as int, pot10((s - d.escala) as nat));
    assert(magnitud(m) <= magnitud(m * p) && (m == 0 <==> m * p == 0)) by (nonlinear_arith)
        requires
            p >= 1,
    ;
}

/// Adds up the subtotals of the lines that are (`trasladado`) or are not
/// transferred incomes over all lines of all sales. When the subtotals
/// share one scale and fit together in 96 bits, nothing overflows or is
/// rounded: the mantissa of the sum is the sum of the mantissa products.
/// Likewise when the subtotals are bounded in some scale (`ventas_acotadas`):
/// written in that scale, the sum is the sum of the subtotals.
fn sumar_subtotales_exec(ventas: &[Venta], trasladado: bool) -> (r: Option<Dinero>)
    requires
        ventas_wf(ventas@),
    ensures
        r == sumar_subtotales(ventas@, trasladado),
        r matches Some(d) ==> d.wf(),
        lineas_exactas(ventas@) ==> (r matches Some(d) && d.mantisa == mantisas_ventas(
            ventas@,
            trasladado,
        ) && (d.mantisa != 0 ==> d.escala == escala_de_lineas(ventas@))),
        lineas_acotadas(ventas@) ==> (r matches Some(d) && d.escala <= escala_acotada(ventas@)
            && en_escala(d, escala_acotada(ventas@)) == subtotales_ventas_en(
            ventas@,
            trasladado,
            escala_acotada(ventas@),
        )),
{
    let ghost ex = lineas_exactas(ventas@);
    let ghost s = escala_de_lineas(ventas@);
    let ghost ac = lineas_acotadas(ventas@);
    let ghost sa = escala_acotada(ventas@);
    proof {
        if ac {
            lema_lineas_acotadas(ventas@);
        }
    }
    let mut acumulado: Option<Dinero> = Some(Dinero::cero());
    let n = ventas.len();
    for i in 0..n
        invariant
            n == ventas@.len(),
            ventas_wf(ventas@),
            acumulado == sumar_subtotales(ventas@.take(i as int), trasladado),
            acumulado matches Some(d) ==> d.wf(),
            ex == lineas_exactas(ventas@),
            s == escala_de_lineas(ventas@),
            ex ==> ventas_en_escala(ventas@, s),
            ex ==> (acumulado matches Some(a) && a.mantisa == mantisas_ventas(
                ventas@.take(i as int),
                trasladado,
            ) && (a.mantisa != 0 ==> a.escala == s)),
            ac == lineas_acotadas(ventas@),
            sa == escala_acotada(ventas@),
            ac ==> ventas_acotadas(ventas@, sa),
            ac ==> (acumulado matches Some(a) && a.escala <= sa && en_escala(a, sa)
                == subtotales_ventas_en(ventas@.take(i as int), trasladado, sa)),
    {
        proof {
            assert(ventas@.take(i + 1).drop_last() =~= ventas@.take(i as int));
        }
        let v = &ventas[i];
        assert(v.wf());
        let ghost inicio = acumulado;
        let m = v.lineas.len();
        for j in 0..m
            invariant
                m == v.lineas@.len(),
                v.wf(),
                *v == ventas@[i as int],
                0 <= i < n,
                n == ventas@.len(),
                acumulado == sumar_lineas(inicio, v.lineas@.take(j as int), trasladado),
                acumulado matches Some(d) ==> d.wf(),
                ex ==> ventas_en_escala(ventas@, s),
                ex ==> (acumulado matches Some(a) && a.mantisa == mantisas_ventas(
                    ventas@.take(i as int),
                    trasladado,
                ) + mantisas_lineas(v.lineas@.take(j as int), trasladado) && (a.mantisa != 0
                    ==> a.escala == s)),
                ac ==> ventas_acotadas(ventas@, sa),
                ac ==> (acumulado matches Some(a) && a.escala <= sa && en_escala(a, sa)
                    == subtotales_ventas_en(ventas@.take(i as int), trasladado, sa)
                    + subtotales_lineas_en(v.lineas@.take(j as int), trasladado, sa)),
        {
            proof {
                assert(v.lineas@.take(j + 1).drop_last() =~= v.lineas@.take(j as int));
                assert(v.lineas@.take(j + 1).last() == v.lineas@[j as int]);
                if ex {
                    assert(linea_en_escala(ventas@[i as int].lineas@[j as int], s));
                    lema_cota_parcial(ventas@, trasladado, i as int, j as int);
                }
                if ac {
                    assert(escala_linea(ventas@[i as int].lineas@[j as int]) <= sa);
                    lema_cota_parcial_en(ventas@, trasladado, sa, i as int, j as int);
                }
            }
            let l = &v.lineas[j];
            assert(l.wf());
            let ghost antes = acumulado;
            let producto_linea = producto(l.cantidad, l.precio_unitario);
            proof {
                if ex {
                    let p = mantisa_producto(*l);
                    assert(-MANTISA_MAXIMA <= p <= MANTISA_MAXIMA);
                    if l.cantidad.mantisa != 0 && l.precio_unitario.mantisa != 0 {
                        assert(producto_linea == Some(
                            Dinero { mantisa: p as i128, escala: s },
                        ));
                    } else {
                        let (c, q) = (l.cantidad.mantisa as int, l.precio_unitario.mantisa as int);
                        assert(c * q == 0) by (nonlinear_arith)
                            requires
                                c == 0 || q == 0,
                        ;
                    }
                    assert(producto_linea matches Some(x) && x.mantisa == p && (x.mantisa != 0
                        ==> x.escala == s));
                }
                if ac {
                    let (c, q) = (l.cantidad.mantisa as int, l.precio_unitario.mantisa as int);
                    let e = escala_linea(*l);
                    lema_pot10_positiva((sa - e) as nat);
                    let k = pot10((sa - e) as nat);
                    let x = subtotal_en_escala(*l, sa);
                    assert(x == c * q * k);
                    assert(magnitud(c * q) <= magnitud(x) && (c == 0 || q == 0 ==> x == 0))
                        by (nonlinear_arith)
                        requires
                            x == c * q * k,
                            k >= 1,
                    ;
                    if c != 0 && q != 0 {
                        assert(producto_linea == Some(
                            Dinero { mantisa: (c * q) as i128, escala: e as u32 },
                        ));
                    } else {
                        assert(c * q == 0) by (nonlinear_arith)
                            requires
                                c == 0 || q == 0,
                        ;
                        assert(producto_linea == Some(Dinero { mantisa: 0, escala: 0 }));
                        lema_en_escala_cero(Dinero { mantisa: 0, escala: 0 }, sa);
                    }
                    assert(producto_linea matches Some(y) && y.escala <= sa && en_escala(y, sa)
                        == x);
                }
            }
            acumulado = match acumulado {
                Some(a) => match producto_linea {
                    Some(x) => if l.es_ingreso_trasladado == trasladado {
                        suma(a, x)
                    } else {
                        Some(a)
                    },
                    None => None,
                },
                None => None,
            };
            proof {
                if ex {
                    let p = mantisa_producto(*l);
                    let a = antes->0;
                    let previo = mantisas_ventas(ventas@.take(i as int), trasladado)
                        + mantisas_lineas(v.lineas@.take(j as int), trasladado);
                    assert(a.mantisa == previo);
                    if l.es_ingreso_trasladado == trasladado {
                        assert(-MANTISA_MAXIMA <= previo + p <= MANTISA_MAXIMA);
                    }
                }
                if ac {
                    let a = antes->0;
                    let y = producto_linea->0;
                    if l.es_ingreso_trasladado == trasladado {
                        lema_en_escala_magnitud(a, sa);
                        lema_en_escala_magnitud(y, sa);
                        if a.mantisa != 0 && y.mantisa != 0 {
                            lema_suma_alineada(a, y, sa);
                            let t = escala_mayor(a, y);
                            assert(acumulado == Some(
                                Dinero {
                                    mantisa: (en_escala(a, t) + en_escala(y, t)) as i128,
                                    escala: t,
                                },
                            ));
                        }
                    }
                }
            }
        }
        proof {
            assert(v.lineas@.take(m as int) =~= v.lineas@);
            assert(ventas@.take(i + 1).last() == ventas@[i as int]);
        }
    }
    proof {
        assert(ventas@.take(n as int) =~= ventas@);
    }
    acumulado
}

/// Adds up one payment method over the sales. When the amounts are bounded
/// in scale `s` (`pagos_acotados`), the sum written in scale `s` is exact.
fn sumar_pagos_exec(ventas: &[Venta], c: CampoPago, Ghost(s): Ghost<u32>) -> (r: Option<Dinero>)
    requires
        ventas_wf(ventas@),
    ensures
        r == sumar_pagos(ventas@, c),
        r matches Some(d) ==> d.wf(),
        pagos_acotados(ventas@, c, s) ==> (r matches Some(d) && d.escala <= s && en_escala(d, s)
            == pagos_en(ventas@, c, s)),
{
    let ghost ac = pagos_acotados(ventas@, c, s);
    let mut acumulado: Option<Dinero> = Some(Dinero::cero());
    let n = ventas.len();
    for i in 0..n
        invariant
            n == ventas@.len(),
            ventas_wf(ventas@),
            acumulado == sumar_pagos(ventas@.take(i as int), c),
            acumulado matches Some(d) ==> d.wf(),
            ac == pagos_acotados(ventas@, c, s),
            ac ==> (acumulado matches Some(a) && a.escala <= s && en_escala(a, s) == pagos_en(
                ventas@.take(i as int),
                c,
                s,
            )),
    {
        proof {
            assert(ventas@.take(i + 1).drop_last() =~= ventas@.take(i as int));
            assert(ventas@.take(i + 1).last() == ventas@[i as int]);
        }
        let v = &ventas[i];
        assert(v.wf());
        let valor = match c {
            CampoPago::Monedero => Some(v.pago_monedero),
            CampoPago::Tarjeta => Some(v.pago_tarjeta),
            CampoPago::Transferencia => Some(v.pago_transferencia),
            CampoPago::Dolares => Some(v.pago_dolares),
            CampoPago::DolaresEnPesos => producto(v.pago_dolares, v.tipo_cambio_dolares),
        };
        proof {
            if ac {
                assert(escala_pago(ventas@[i as int], c) <= s);
                lema_cota_pagos(ventas@, c, s, i as int);
                if c is DolaresEnPesos {
                    let (m1, m2) = (v.pago_dolares.mantisa as int, v.tipo_cambio_dolares.mantisa as int);
                    let e = escala_pago(*v, c);
                    lema_pot10_positiva((s - e) as nat);
                    let k = pot10((s - e) as nat);
                    let x = pago_en(*v, c, s);
                    assert(magnitud(m1 * m2) <= magnitud(x) && (m1 == 0 || m2 == 0 ==> x == 0))
                        by (nonlinear_arith)
                        requires
                            x == m1 * m2 * k,
                            k >= 1,
                    ;
                    if m1 == 0 || m2 == 0 {
                        lema_en_escala_cero(Dinero { mantisa: 0, escala: 0 }, s);
                    }
                }
                assert(valor matches Some(y) && y.wf() && y.escala <= s && en_escala(y, s)
                    == pago_en(*v, c, s));
            }
        }
        acumulado = match acumulado {
            Some(a) => match valor {
                Some(x) => suma_en(a, x, Ghost(s)),
                None => None,
            },
            None => None,
        };
    }
    proof {
        assert(ventas@.take(n as int) =~= ventas@);
    }
    acumulado
}

/// Within bounded payments, the running sum up to sale `i`, and that sale's
/// own amount, stay below 2^64.
proof fn lema_cota_pagos(vs: Seq<Venta>, c: CampoPago, s: u32, i: int)
    requires
        0 <= i < vs.len(),
    ensures
        magnitud(pagos_en(vs.take(i), c, s)) <= magnitud_pagos_en(vs, c, s),
        magnitud(pagos_en(vs.take(i + 1), c, s)) <= magnitud_pagos_en(vs, c, s),
        magnitud(pago_en(vs[i], c, s)) <= magnitud_pagos_en(vs, c, s),
{
    lema_magnitud_pagos(vs, c, s, i);
    lema_magnitud_pagos(vs, c, s, i + 1);
    assert(vs.take(i + 1).drop_last() =~= vs.take(i));
    assert(vs.take(i + 1).last() == vs[i]);
}

proof fn lema_magnitud_pagos_todas(vs: Seq<Venta>, c: CampoPago, s: u32)
    ensures
        0 <= magnitud_pagos_en(vs, c, s),
        magnitud(pagos_en(vs, c, s)) <= magnitud_pagos_en(vs, c, s),
    decreases vs.len(),
{
    if vs.len() > 0 {
        lema_magnitud_pagos_todas(vs.drop_last(), c, s);
    }
}

proof fn lema_magnitud_pagos(vs: Seq<Venta>, c: CampoPago, s: u32, i: int)
    requires
        0 <= i <= vs.len(),
    ensures
        0 <= magnitud_pagos_en(vs.take(i), c, s) <= magnitud_pagos_en(vs, c, s),
        magnitud(pagos_en(vs.take(i), c, s)) <= magnitud_pagos_en(vs.take(i), c, s),
    decreases vs.len() - i,
{
    lema_magnitud_pagos_todas(vs.take(i), c, s);
    if i < vs.len() {
        lema_magnitud_pagos(vs, c, s, i + 1);
        assert(vs.take(i + 1).drop_last() =~= vs.take(i));
    } else {
        assert(vs.take(i) =~= vs);
    }
}

/// Product sales and transferred incomes are written in the scale of the
/// subtotals (unless zero), and their mantissas are the sums of the
/// mantissa products of the lines that are not, and that are, transferred
/// incomes.
pub open spec fn sumas_exactas(r: ResumenDia, vs: Seq<Venta>) -> bool {
    &&& r.venta_productos.mantisa == mantisas_ventas(vs, false)
    &&& r.ingresos_trasladados.mantisa == mantisas_ventas(vs, true)
    &&& r.venta_productos.mantisa != 0 ==> r.venta_productos.escala == escala_de_lineas(vs)
    &&& r.ingresos_trasladados.mantisa != 0 ==> r.ingresos_trasladados.escala == escala_de_lineas(vs)
}

/// Product sales and transferred incomes have scales of at most the
/// bounding scale of the subtotals, and, written in it, are the sums of the
/// subtotals of the lines that are not, and that are, transferred incomes.
pub open spec fn sumas_en_escala(r: ResumenDia, vs: Seq<Venta>) -> bool {
    let s = escala_acotada(vs);
    &&& r.venta_productos.escala <= s
    &&& r.ingresos_trasladados.escala <= s
    &&& en_escala(r.venta_productos, s) == subtotales_ventas_en(vs, false, s)
    &&& en_escala(r.ingresos_trasladados, s) == subtotales_ventas_en(vs, true, s)
}

/// The sum, in scale `s`, of the subtotals of all lines.
pub open spec fn subtotales_todas_lineas_en(ls: Seq<VentaLinea>, s: u32) -> int
    decreases ls.len(),
{
    if ls.len() == 0 {
        0
    } else {
        subtotales_todas_lineas_en(ls.drop_last(), s) + subtotal_en_escala(ls.last(), s)
    }
}

/// The sum over the sales of the sum, in scale `s`, of their subtotals:
/// the sales' totals added up.
pub open spec fn totales_en(vs: Seq<Venta>, s: u32) -> int
    decreases vs.len(),
{
    if vs.len() == 0 {
        0
    } else {
        totales_en(vs.drop_last(), s) + subtotales_todas_lineas_en(vs.last().lineas@, s)
    }
}

proof fn lema_reparto_lineas_en(ls: Seq<VentaLinea>, s: u32)
    ensures
        subtotales_lineas_en(ls, false, s) + subtotales_lineas_en(ls, true, s)
            == subtotales_todas_lineas_en(ls, s),
    decreases ls.len(),
{
    if ls.len() > 0 {
        lema_reparto_lineas_en(ls.drop_last(), s);
    }
}

/// In any scale, product sales plus transferred incomes add up the totals
/// of all sales: every line goes to exactly one of the two, once.
pub proof fn ley_reparto_en_escala(vs: Seq<Venta>, s: u32)
    ensures
        subtotales_ventas_en(vs, false, s) + subtotales_ventas_en(vs, true, s) == totales_en(vs, s),
    decreases vs.len(),
{
    if vs.len() > 0 {
        ley_reparto_en_escala(vs.drop_last(), s);
        lema_reparto_lineas_en(vs.last().lineas@, s);
    }
}

/// In any scale, the sums of the subtotals of two lists of sales joined
/// are the sums of each list added.
pub proof fn ley_concatenacion_en_escala(a: Seq<Venta>, b: Seq<Venta>, t: bool, s: u32)
    ensures
        subtotales_ventas_en(a + b, t, s) == subtotales_ventas_en(a, t, s) + subtotales_ventas_en(
            b,
            t,
            s,
        ),
        totales_en(a + b, s) == totales_en(a, s) + totales_en(b, s),
    decreases b.len(),
{
    if b.len() == 0 {
        assert(a + b =~= a);
    } else {
        ley_concatenacion_en_escala(a, b.drop_last(), t, s);
        assert((a + b).drop_last() =~= a + b.drop_last());
        assert((a + b).last() == b.last());
    }
}

/// In any scale, the sums of the subtotals do not change when two
/// neighbouring sales trade places (and so under any reordering of the
/// sales, which such swaps build).
pub proof fn ley_orden_en_escala(a: Seq<Venta>, x: Venta, y: Venta, b: Seq<Venta>, t: bool, s: u32)
    ensures
        subtotales_ventas_en(a + seq![x, y] + b, t, s) == subtotales_ventas_en(
            a + seq![y, x] + b,
            t,
            s,
        ),
        totales_en(a + seq![x, y] + b, s) == totales_en(a + seq![y, x] + b, s),
{
    ley_concatenacion_en_escala(a + seq![x, y], b, t, s);
    ley_concatenacion_en_escala(a + seq![y, x], b, t, s);
    ley_concatenacion_en_escala(a, seq![x, y], t, s);
    ley_concatenacion_en_escala(a, seq![y, x], t, s);
    assert(seq![x, y].drop_last() =~= seq![x]);
    assert(seq![y, x].drop_last() =~= seq![y]);
    assert(seq![x].drop_last() =~= Seq::<Venta>::empty());
    assert(seq![y].drop_last() =~= Seq::<Venta>::empty());
    let (lx, ly) = (x.lineas@, y.lineas@);
    assert(seq![x].last() == x && seq![y].last() == y);
    assert(seq![x, y].last() == y && seq![y, x].last() == x);
    assert(subtotales_ventas_en(Seq::<Venta>::empty(), t, s) == 0);
    assert(totales_en(Seq::<Venta>::empty(), s) == 0);
    assert(subtotales_ventas_en(seq![x], t, s) == subtotales_lineas_en(lx, t, s));
    assert(subtotales_ventas_en(seq![y], t, s) == subtotales_lineas_en(ly, t, s));
    assert(subtotales_ventas_en(seq![x, y], t, s) == subtotales_ventas_en(seq![y, x], t, s));
    assert(totales_en(seq![x], s) == subtotales_todas_lineas_en(lx, s));
    assert(totales_en(seq![y], s) == subtotales_todas_lineas_en(ly, s));
    assert(totales_en(seq![x, y], s) == totales_en(seq![y, x], s));
}

/// The sum of the mantissa products of all lines.
pub open spec fn mantisas_todas_lineas(ls: Seq<VentaLinea>) -> int
    decreases ls.len(),
{
    if ls.len() == 0 {
        0
    } else {
        mantisas_todas_lineas(ls.drop_last()) + mantisa_producto(ls.last())
    }
}

/// The sum of the mantissa products of all lines of all sales.
pub open spec fn mantisas_todas(vs: Seq<Venta>) -> int
    decreases vs.len(),
{
    if vs.len() == 0 {
        0
    } else {
        mantisas_todas(vs.drop_last()) + mantisas_todas_lineas(vs.last().lineas@)
    }
}

proof fn lema_reparto_lineas(ls: Seq<VentaLinea>)
    ensures
        mantisas_lineas(ls, false) + mantisas_lineas(ls, true) == mantisas_todas_lineas(ls),
    decreases ls.len(),
{
    if ls.len() > 0 {
        lema_reparto_lineas(ls.drop_last());
    }
}

/// Every line goes to exactly one side of the day's summary: the product
/// sales and the transferred incomes together add up every line's
/// subtotal, each once.
pub proof fn ley_reparto_lineas(vs: Seq<Venta>)
    ensures
        mantisas_ventas(vs, false) + mantisas_ventas(vs, true) == mantisas_todas(vs),
    decreases vs.len(),
{
    if vs.len() > 0 {
        ley_reparto_lineas(vs.drop_last());
        lema_reparto_lineas(vs.last().lineas@);
    }
}

/// In any scale, the payment totals of two lists of sales joined are the
/// totals of each list added.
pub proof fn ley_concatenacion_pagos(a: Seq<Venta>, b: Seq<Venta>, c: CampoPago, s: u32)
    ensures
        pagos_en(a + b, c, s) == pagos_en(a, c, s) + pagos_en(b, c, s),
    decreases b.len(),
{
    if b.len() == 0 {
        assert(a + b =~= a);
    } else {
        ley_concatenacion_pagos(a, b.drop_last(), c, s);
        assert((a + b).drop_last() =~= a + b.drop_last());
        assert((a + b).last() == b.last());
    }
}

/// In any scale, the payment totals do not change when two neighbouring
/// sales trade places (and so under any reordering of the sales).
pub proof fn ley_orden_pagos(a: Seq<Venta>, x: Venta, y: Venta, b: Seq<Venta>, c: CampoPago, s: u32)
    ensures
        pagos_en(a + seq![x, y] + b, c, s) == pagos_en(a + seq![y, x] + b, c, s),
{
    ley_concatenacion_pagos(a + seq![x, y], b, c, s);
    ley_concatenacion_pagos(a + seq![y, x], b, c, s);
    ley_concatenacion_pagos(a, seq![x, y], c, s);
    ley_concatenacion_pagos(a, seq![y, x], c, s);
    assert(seq![x, y].drop_last() =~= seq![x]);
    assert(seq![y, x].drop_last() =~= seq![y]);
    assert(seq![x].drop_last() =~= Seq::<Venta>::empty());
    assert(seq![y].drop_last() =~= Seq::<Venta>::empty());
    assert(seq![x].last() == x && seq![y].last() == y);
    assert(seq![x, y].last() == y && seq![y, x].last() == x);
    assert(pagos_en(Seq::<Venta>::empty(), c, s) == 0);
    assert(pagos_en(seq![x], c, s) == pago_en(x, c, s));
    assert(pagos_en(seq![y], c, s) == pago_en(y, c, s));
    assert(pagos_en(seq![x, y], c, s) == pagos_en(seq![y, x], c, s));
}

/// The lines of all sales, one sale after the other.
pub open spec fn aplanar(vs: Seq<Venta>) -> Seq<VentaLinea>
    decreases vs.len(),
{
    if vs.len() == 0 {
        Seq::empty()
    } else {
        aplanar(vs.drop_last()) + vs.last().lineas@
    }
}

proof fn lema_lineas_concatenadas(a: Seq<VentaLinea>, b: Seq<VentaLinea>, t: bool, s: u32)
    ensures
        subtotales_lineas_en(a + b, t, s) == subtotales_lineas_en(a, t, s) + subtotales_lineas_en(
            b,
            t,
            s,
        ),
    decreases b.len(),
{
    if b.len() == 0 {
        assert(a + b =~= a);
    } else {
        lema_lineas_concatenadas(a, b.drop_last(), t, s);
        assert((a + b).drop_last() =~= a + b.drop_last());
        assert((a + b).last() == b.last());
    }
}

/// In any scale, product sales and transferred incomes depend only on the
/// lines of all sales taken together: lines may move from one sale to
/// another without changing them.
pub proof fn ley_lineas_aplanadas(vs: Seq<Venta>, t: bool, s: u32)
    ensures
        subtotales_ventas_en(vs, t, s) == subtotales_lineas_en(aplanar(vs), t, s),
    decreases vs.len(),
{
    if vs.len() > 0 {
        ley_lineas_aplanadas(vs.drop_last(), t, s);
        lema_lineas_concatenadas(aplanar(vs.drop_last()), vs.last().lineas@, t, s);
    }
}

/// In any scale, the sums of the subtotals of a list of lines do not
/// change when two neighbouring lines trade places (and so under any
/// reordering of the lines).
pub proof fn ley_orden_lineas(
    a: Seq<VentaLinea>,
    x: VentaLinea,
    y: VentaLinea,
    b: Seq<VentaLinea>,
    t: bool,
    s: u32,
)
    ensures
        subtotales_lineas_en(a + seq![x, y] + b, t, s) == subtotales_lineas_en(
            a + seq![y, x] + b,
            t,
            s,
        ),
{
    lema_lineas_concatenadas(a + seq![x, y], b, t, s);
    lema_lineas_concatenadas(a + seq![y, x], b, t, s);
    lema_lineas_concatenadas(a, seq![x, y], t, s);
    lema_lineas_concatenadas(a, seq![y, x], t, s);
    assert(seq![x, y].drop_last() =~= seq![x]);
    assert(seq![y, x].drop_last() =~= seq![y]);
    assert(seq![x].drop_last() =~= Seq::<VentaLinea>::empty());
    assert(seq![y].drop_last() =~= Seq::<VentaLinea>::empty());
    assert(seq![x].last() == x && seq![y].last() == y);
    assert(seq![x, y].last() == y && seq![y, x].last() == x);
    assert(subtotales_lineas_en(Seq::<VentaLinea>::empty(), t, s) == 0);
    assert(seq![x].drop_last() =~= Seq::<VentaLinea>::empty());
    assert(subtotales_lineas_en(seq![x], t, s) == if x.es_ingreso_trasladado == t {
        subtotal_en_escala(x, s)
    } else {
        0
    });
    assert(seq![y].drop_last() =~= Seq::<VentaLinea>::empty());
    assert(subtotales_lineas_en(seq![y], t, s) == if y.es_ingreso_trasladado == t {
        subtotal_en_escala(y, s)
    } else {
        0
    });
    assert(subtotales_lineas_en(seq![x, y], t, s) == subtotales_lineas_en(seq![y, x], t, s));
}

/// Two lines carry the same amounts: quantity, price and whether they are
/// a transferred income.
pub open spec fn mismos_montos_linea(a: VentaLinea, b: VentaLinea) -> bool {
    a.cantidad == b.cantidad && a.precio_unitario == b.precio_unitario
        && a.es_ingreso_trasladado == b.es_ingreso_trasladado
}

/// Two sales carry the same amounts: the same wallet, card, transfer and
/// dollar payments, the same rate, and lines with the same amounts in the
/// same order. Their ids, times, cash, change, customer, generated wallet
/// money and the lines' ids, products, numbers and names may differ.
pub open spec fn mismos_montos(a: Venta, b: Venta) -> bool {
    &&& a.pago_monedero == b.pago_monedero
    &&& a.pago_tarjeta == b.pago_tarjeta
    &&& a.pago_transferencia == b.pago_transferencia
    &&& a.pago_dolares == b.pago_dolares
    &&& a.tipo_cambio_dolares == b.tipo_cambio_dolares
    &&& a.lineas@.len() == b.lineas@.len()
    &&& forall|j: int|
        0 <= j < a.lineas@.len() ==> mismos_montos_linea(#[trigger] a.lineas@[j], b.lineas@[j])
}

proof fn lema_mismas_lineas(acc: Option<Dinero>, a: Seq<VentaLinea>, b: Seq<VentaLinea>, t: bool)
    requires
        a.len() == b.len(),
        forall|j: int| 0 <= j < a.len() ==> mismos_montos_linea(#[trigger] a[j], b[j]),
    ensures
        sumar_lineas(acc, a, t) == sumar_lineas(acc, b, t),
    decreases a.len(),
{
    if a.len() > 0 {
        lema_mismas_lineas(acc, a.drop_last(), b.drop_last(), t);
        assert(mismos_montos_linea(a[a.len() - 1], b[b.len() - 1]));
    }
}

/// The day's summary reads only the amounts of the sales: two lists of
/// sales that carry the same amounts, sale by sale, have the same summary
/// (or both overflow), whatever their other fields.
pub proof fn ley_campos_ignorados(a: Seq<Venta>, b: Seq<Venta>)
    requires
        a.len() == b.len(),
        forall|i: int| 0 <= i < a.len() ==> mismos_montos(#[trigger] a[i], b[i]),
    ensures
        resumen_de(a) == resumen_de(b),
{
    lema_campos_ignorados_subtotales(a, b, false);
    lema_campos_ignorados_subtotales(a, b, true);
    lema_campos_ignorados_pagos(a, b, CampoPago::Monedero);
    lema_campos_ignorados_pagos(a, b, CampoPago::Tarjeta);
    lema_campos_ignorados_pagos(a, b, CampoPago::Transferencia);
    lema_campos_ignorados_pagos(a, b, CampoPago::Dolares);
    lema_campos_ignorados_pagos(a, b, CampoPago::DolaresEnPesos);
}

proof fn lema_campos_ignorados_subtotales(a: Seq<Venta>, b: Seq<Venta>, t: bool)
    requires
        a.len() == b.len(),
        forall|i: int| 0 <= i < a.len() ==> mismos_montos(#[trigger] a[i], b[i]),
    ensures
        sumar_subtotales(a, t) == sumar_subtotales(b, t),
    decreases a.len(),
{
    if a.len() > 0 {
        lema_campos_ignorados_subtotales(a.drop_last(), b.drop_last(), t);
        assert(mismos_montos(a[a.len() - 1], b[b.len() - 1]));
        lema_mismas_lineas(sumar_subtotales(a.drop_last(), t), a.last().lineas@, b.last().lineas@, t);
    }
}

proof fn lema_campos_ignorados_pagos(a: Seq<Venta>, b: Seq<Venta>, c: CampoPago)
    requires
        a.len() == b.len(),
        forall|i: int| 0 <= i < a.len() ==> mismos_montos(#[trigger] a[i], b[i]),
    ensures
        sumar_pagos(a, c) == sumar_pagos(b, c),
    decreases a.len(),
{
    if a.len() > 0 {
        lema_campos_ignorados_pagos(a.drop_last(), b.drop_last(), c);
        assert(mismos_montos(a[a.len() - 1], b[b.len() - 1]));
    }
}

/// The subtotals of a sale's lines are bounded in their largest scale,
/// itself at most 19: written in it, they add up, in magnitude, to less than
/// 2^64.
pub open spec fn lineas_venta_acotadas(ls: Seq<VentaLinea>) -> bool {
    &&& escala_max_lineas(ls) <= 19
    &&& magnitud_lineas_en(ls, escala_max_lineas(ls) as u32) < limite_64()
}

pub proof fn lema_magnitud_todas(ls: Seq<VentaLinea>, s: u32)
    ensures
        magnitud(subtotales_todas_lineas_en(ls, s)) <= magnitud_lineas_en(ls, s),
    decreases ls.len(),
{
    if ls.len() > 0 {
        lema_magnitud_todas(ls.drop_last(), s);
    }
}

/// The running total of a sale up to line `j`, and that line's subtotal,
/// stay within the lines' magnitude.
pub proof fn lema_cota_total(ls: Seq<VentaLinea>, s: u32, j: int)
    requires
        0 <= j < ls.len(),
    ensures
        magnitud(subtotales_todas_lineas_en(ls.take(j), s)) <= magnitud_lineas_en(ls, s),
        magnitud(subtotales_todas_lineas_en(ls.take(j + 1), s)) <= magnitud_lineas_en(ls, s),
        magnitud(subtotal_en_escala(ls[j], s)) <= magnitud_lineas_en(ls, s),
{
    lema_magnitud_todas(ls.take(j), s);
    lema_magnitud_todas(ls.take(j + 1), s);
    lema_magnitud_lineas_en(ls, false, s, j);
    lema_magnitud_lineas_en(ls, false, s, j + 1);
    assert(ls.take(j + 1).drop_last() =~= ls.take(j));
    assert(ls.take(j + 1).last() == ls[j]);
}

/// The larger of two integers.
pub open spec fn mayor(a: int, b: int) -> int {
    if a <= b {
        b
    } else {
        a
    }
}

/// The largest scale of all the amounts that the day's summary adds: the
/// lines' subtotals and the five payment amounts.
pub open spec fn escala_resumen(vs: Seq<Venta>) -> int {
    mayor(
        mayor(
            mayor(escala_max_ventas(vs), escala_max_pagos(vs, CampoPago::Monedero)),
            mayor(
                escala_max_pagos(vs, CampoPago::Tarjeta),
                escala_max_pagos(vs, CampoPago::Transferencia),
            ),
        ),
        mayor(
            escala_max_pagos(vs, CampoPago::Dolares),
            escala_max_pagos(vs, CampoPago::DolaresEnPesos),
        ),
    )
}

/// Everything the summary adds is bounded in the largest scale of its
/// amounts, itself at most 19: the subtotals and the amounts that the cash
/// subtracts add up, in magnitude, to less than 2^64, and so do the dollar
/// amounts. Then no product, sum or difference of the summary is rounded.
pub open spec fn resumen_acotado(vs: Seq<Venta>) -> bool {
    let s = escala_resumen(vs) as u32;
    &&& escala_resumen(vs) <= 19
    &&& magnitud_ventas_en(vs, s) + magnitud_pagos_en(vs, CampoPago::Monedero, s)
        + magnitud_pagos_en(vs, CampoPago::Tarjeta, s) + magnitud_pagos_en(
        vs,
        CampoPago::Transferencia,
        s,
    ) + magnitud_pagos_en(vs, CampoPago::DolaresEnPesos, s) < limite_64()
    &&& magnitud_pagos_en(vs, CampoPago::Dolares, s) < limite_64()
}

/// Every total of the summary, written in the largest scale of the amounts,
/// is the exact sum of what it adds, and the cash in the till is exactly
/// product sales plus transferred incomes minus the wallet, card, transfer
/// and dollars-in-pesos payments.
pub open spec fn resumen_exacto(r: ResumenDia, vs: Seq<Venta>) -> bool {
    let s = escala_resumen(vs) as u32;
    let vp = subtotales_ventas_en(vs, false, s);
    let it = subtotales_ventas_en(vs, true, s);
    let tm = pagos_en(vs, CampoPago::Monedero, s);
    let tt = pagos_en(vs, CampoPago::Tarjeta, s);
    let ttr = pagos_en(vs, CampoPago::Transferencia, s);
    let tdp = pagos_en(vs, CampoPago::DolaresEnPesos, s);
    &&& r.venta_productos.escala <= s && en_escala(r.venta_productos, s) == vp
    &&& r.ingresos_trasladados.escala <= s && en_escala(r.ingresos_trasladados, s) == it
    &&& r.total_monedero.escala <= s && en_escala(r.total_monedero, s) == tm
    &&& r.total_tarjeta.escala <= s && en_escala(r.total_tarjeta, s) == tt
    &&& r.total_transferencia.escala <= s && en_escala(r.total_transferencia, s) == ttr
    &&& r.total_dolares.escala <= s && en_escala(r.total_dolares, s) == pagos_en(
        vs,
        CampoPago::Dolares,
        s,
    )
    &&& r.total_dolares_en_pesos.escala <= s && en_escala(r.total_dolares_en_pesos, s) == tdp
    &&& r.efectivo_en_caja.escala <= s && en_escala(r.efectivo_en_caja, s) == vp + it - tm - tt
        - ttr - tdp
}

proof fn lema_escala_max_pagos(vs: Seq<Venta>, c: CampoPago)
    ensures
        0 <= escala_max_pagos(vs, c),
        forall|i: int| 0 <= i < vs.len() ==> escala_pago(#[trigger] vs[i], c) <= escala_max_pagos(vs, c),
    decreases vs.len(),
{
    if vs.len() > 0 {
        let p = vs.drop_last();
        lema_escala_max_pagos(p, c);
        assert forall|i: int| 0 <= i < vs.len() implies escala_pago(#[trigger] vs[i], c)
            <= escala_max_pagos(vs, c) by {
            if i < p.len() {
                assert(vs[i] == p[i]);
            }
        }
    }
}

/// Subtotals written in a larger scale are multiplied by the power of ten
/// between the two scales, and so are their magnitudes.
proof fn lema_lineas_a_escala(ls: Seq<VentaLinea>, t: bool, s1: u32, s2: u32)
    requires
        escala_max_lineas(ls) <= s1 <= s2,
    ensures
        subtotales_lineas_en(ls, t, s2) == subtotales_lineas_en(ls, t, s1) * pot10((s2 - s1) as nat),
        magnitud_lineas_en(ls, s2) == magnitud_lineas_en(ls, s1) * pot10((s2 - s1) as nat),
    decreases ls.len(),
{
    if ls.len() > 0 {
        let p = ls.drop_last();
        let l = ls.last();
        lema_escala_max_lineas(ls);
        assert(l == ls[ls.len() - 1]);
        lema_lineas_a_escala(p, t, s1, s2);
        let e = escala_linea(l);
        lema_pot10_suma((s1 - e) as nat, (s2 - s1) as nat);
        lema_pot10_positiva((s2 - s1) as nat);
        let (m, a, k) = (
            l.cantidad.mantisa * l.precio_unitario.mantisa,
            pot10((s1 - e) as nat),
            pot10((s2 - s1) as nat),
        );
        let (x1, y1) = (subtotales_lineas_en(p, t, s1), magnitud_lineas_en(p, s1));
        assert(subtotal_en_escala(l, s2) == m * (a * k));
        assert(m * (a * k) == (m * a) * k && magnitud((m * a) * k) == magnitud(m * a) * k
            && (x1 + m * a) * k == x1 * k + (m * a) * k && (y1 + magnitud(m * a)) * k == y1 * k
            + magnitud(m * a) * k && (x1 + 0) * k == x1 * k) by (nonlinear_arith)
            requires
                k >= 1,
        ;
    }
}

proof fn lema_ventas_a_escala(vs: Seq<Venta>, t: bool, s1: u32, s2: u32)
    requires
        escala_max_ventas(vs) <= s1 <= s2,
    ensures
        subtotales_ventas_en(vs, t, s2) == subtotales_ventas_en(vs, t, s1) * pot10((s2 - s1) as nat),
        magnitud_ventas_en(vs, s2) == magnitud_ventas_en(vs, s1) * pot10((s2 - s1) as nat),
    decreases vs.len(),
{
    if vs.len() > 0 {
        let p = vs.drop_last();
        lema_ventas_a_escala(p, t, s1, s2);
        lema_escala_max_lineas(vs.last().lineas@);
        lema_lineas_a_escala(vs.last().lineas@, t, s1, s2);
        let k = pot10((s2 - s1) as nat);
        let (a, b, c, d) = (
            subtotales_ventas_en(p, t, s1),
            subtotales_lineas_en(vs.last().lineas@, t, s1),
            magnitud_ventas_en(p, s1),
            magnitud_lineas_en(vs.last().lineas@, s1),
        );
        assert((a + b) * k == a * k + b * k && (c + d) * k == c * k + d * k) by (nonlinear_arith);
    }
}

proof fn lema_magnitud_reparto_lineas(ls: Seq<VentaLinea>, s: u32)
    ensures
        magnitud(subtotales_lineas_en(ls, false, s)) + magnitud(subtotales_lineas_en(ls, true, s))
            <= magnitud_lineas_en(ls, s),
    decreases ls.len(),
{
    if ls.len() > 0 {
        lema_magnitud_reparto_lineas(ls.drop_last(), s);
    }
}

/// Product sales and transferred incomes together are no larger, in
/// magnitude, than all subtotals.
proof fn lema_magnitud_reparto(vs: Seq<Venta>, s: u32)
    ensures
        magnitud(subtotales_ventas_en(vs, false, s)) + magnitud(subtotales_ventas_en(vs, true, s))
            <= magnitud_ventas_en(vs, s),
    decreases vs.len(),
{
    if vs.len() > 0 {
        lema_magnitud_reparto(vs.drop_last(), s);
        lema_magnitud_reparto_lineas(vs.last().lineas@, s);
    }
}

/// A bounded summary bounds the subtotals in their own largest scale, and
/// each payment method in the summary's scale.
proof fn lema_resumen_acotado(vs: Seq<Venta>)
    requires
        resumen_acotado(vs),
    ensures
        lineas_acotadas(vs),
        escala_max_ventas(vs) <= escala_resumen(vs),
        pagos_acotados(vs, CampoPago::Monedero, escala_resumen(vs) as u32),
        pagos_acotados(vs, CampoPago::Tarjeta, escala_resumen(vs) as u32),
        pagos_acotados(vs, CampoPago::Transferencia, escala_resumen(vs) as u32),
        pagos_acotados(vs, CampoPago::Dolares, escala_resumen(vs) as u32),
        pagos_acotados(vs, CampoPago::DolaresEnPesos, escala_resumen(vs) as u32),
{
    let s = escala_resumen(vs) as u32;
    lema_escala_max_ventas(vs);
    lema_escala_max_pagos(vs, CampoPago::Monedero);
    lema_escala_max_pagos(vs, CampoPago::Tarjeta);
    lema_escala_max_pagos(vs, CampoPago::Transferencia);
    lema_escala_max_pagos(vs, CampoPago::Dolares);
    lema_escala_max_pagos(vs, CampoPago::DolaresEnPesos);
    lema_magnitud_pagos_todas(vs, CampoPago::Monedero, s);
    lema_magnitud_pagos_todas(vs, CampoPago::Tarjeta, s);
    lema_magnitud_pagos_todas(vs, CampoPago::Transferencia, s);
    lema_magnitud_pagos_todas(vs, CampoPago::DolaresEnPesos, s);
    lema_magnitud_ventas_en_todas(vs, false, escala_max_ventas(vs) as u32);
    let em = escala_max_ventas(vs) as u32;
    lema_ventas_a_escala(vs, false, em, s);
    lema_pot10_positiva((s - em) as nat);
    let (m1, k) = (magnitud_ventas_en(vs, em), pot10((s - em) as nat));
    assert(m1 <= m1 * k) by (nonlinear_arith)
        requires
            m1 >= 0,
            k >= 1,
    ;
}

impl ResumenDia {
    /// All totals lie in the ranges of a `Decimal`.
    pub open spec fn wf(&self) -> bool {
        &&& self.venta_productos.wf()
        &&& self.ingresos_trasladados.wf()
        &&& self.efectivo_en_caja.wf()
        &&& self.total_monedero.wf()
        &&& self.total_tarjeta.wf()
        &&& self.total_transferencia.wf()
        &&& self.total_dolares.wf()
        &&& self.total_dolares_en_pesos.wf()
    }

    /// The summary of the sales, or `None` when some sum, product or
    /// difference overflows. When the subtotals share one scale and fit
    /// together in 96 bits, or are bounded in their largest scale
    /// (`lineas_acotadas`), product sales and transferred incomes are the
    /// exact sums of their lines' subtotals. When everything the summary
    /// adds is bounded (`resumen_acotado`), nothing overflows and every
    /// total, the cash in the till included, is exact (`resumen_exacto`).
    pub fn try_from_ventas(ventas: &[Venta]) -> (r: Option<ResumenDia>)
        requires
            ventas_wf(ventas@),
        ensures
            r == resumen_de(ventas@),
            r matches Some(x) ==> x.wf(),
            lineas_exactas(ventas@) ==> (r matches Some(x) ==> sumas_exactas(x, ventas@)),
            lineas_acotadas(ventas@) ==> (r matches Some(x) ==> sumas_en_escala(x, ventas@)),
            resumen_acotado(ventas@) ==> (r matches Some(x) && resumen_exacto(x, ventas@)),
    {
        let ghost ra = resumen_acotado(ventas@);
        let ghost sr = escala_resumen(ventas@) as u32;
        let ghost em = escala_acotada(ventas@);
        proof {
            if ra {
                lema_resumen_acotado(ventas@);
            }
        }
        let vp = sumar_subtotales_exec(ventas, false);
        let it = sumar_subtotales_exec(ventas, true);
        let tm = sumar_pagos_exec(ventas, CampoPago::Monedero, Ghost(sr));
        let tt = sumar_pagos_exec(ventas, CampoPago::Tarjeta, Ghost(sr));
        let ttr = sumar_pagos_exec(ventas, CampoPago::Transferencia, Ghost(sr));
        let td = sumar_pagos_exec(ventas, CampoPago::Dolares, Ghost(sr));
        let tdp = sumar_pagos_exec(ventas, CampoPago::DolaresEnPesos, Ghost(sr));
        proof {
            if ra {
                lema_ventas_a_escala(ventas@, false, em, sr);
                lema_ventas_a_escala(ventas@, true, em, sr);
                lema_en_escala_doble(vp->0, em, sr);
                lema_en_escala_doble(it->0, em, sr);
                lema_magnitud_reparto(ventas@, sr);
                lema_magnitud_pagos_todas(ventas@, CampoPago::Monedero, sr);
                lema_magnitud_pagos_todas(ventas@, CampoPago::Tarjeta, sr);
                lema_magnitud_pagos_todas(ventas@, CampoPago::Transferencia, sr);
                lema_magnitud_pagos_todas(ventas@, CampoPago::DolaresEnPesos, sr);
            }
        }
        match (vp, it, tm, tt, ttr, td, tdp) {
            (Some(vp), Some(it), Some(tm), Some(tt), Some(ttr), Some(td), Some(tdp)) => {
                let e = match suma_en(vp, it, Ghost(sr)) {
                    Some(x) => match resta_en(x, tm, Ghost(sr)) {
                        Some(x) => match resta_en(x, tt, Ghost(sr)) {
                            Some(x) => match resta_en(x, ttr, Ghost(sr)) {
                                Some(x) => resta_en(x, tdp, Ghost(sr)),
                                None => None,
                            },
                            None => None,
                        },
                        None => None,
                    },
                    None => None,
                };
                match e {
                    Some(e) => Some(
                        ResumenDia {
                            venta_productos: vp,
                            ingresos_trasladados: it,
                            efectivo_en_caja: e,
                            total_monedero: tm,
                            total_tarjeta: tt,
                            total_transferencia: ttr,
                            total_dolares: td,
                            total_dolares_en_pesos: tdp,
                        },
                    ),
                    None => None,
                }
            },
            _ => None,
        }
    }

    /// The summary of the day: product sales and transferred incomes (each
    /// line's `cantidad * precio_unitario` goes to one of the two), the
    /// totals of each payment method, dollars converted to pesos, and the
    /// cash in the till, which is product sales plus transferred incomes
    /// minus all non-cash payments. When the subtotals share one scale and
    /// fit together in 96 bits, or are bounded in some scale
    /// (`ventas_acotadas`), product sales and transferred incomes are the
    /// exact sums of their lines' subtotals; when everything it adds is
    /// bounded (`resumen_acotado`), every total is exact (`resumen_exacto`).
    pub fn from_ventas(ventas: &[Venta]) -> (r: ResumenDia)
        requires
            ventas_wf(ventas@),
            resumen_de(ventas@) is Some,
        ensures
            resumen_de(ventas@) == Some(r),
            r.wf(),
            lineas_exactas(ventas@) ==> sumas_exactas(r, ventas@),
            lineas_acotadas(ventas@) ==> sumas_en_escala(r, ventas@),
            resumen_acotado(ventas@) ==> resumen_exacto(r, ventas@),
    {
        match ResumenDia::try_from_ventas(ventas) {
            Some(x) => x,
            None => ResumenDia {
                venta_productos: Dinero::cero(),
                ingresos_trasladados: Dinero::cero(),
                efectivo_en_caja: Dinero::cero(),
                total_monedero: Dinero::cero(),
                total_tarjeta: Dinero::cero(),
                total_transferencia: Dinero::cero(),
                total_dolares: Dinero::cero(),
                total_dolares_en_pesos: Dinero::cero(),
            },
        }
    }
}

/// One line of the cart of a new sale.
#[derive(Debug)]
pub struct LineaPayload {
    pub producto_id: u128,
    pub cantidad: Dinero,
    pub precio_unitario: Dinero,
    pub notas: Option<String>,
}

/// A new sale as the sale form sends it.
#[derive(Debug)]
pub struct NuevaVentaPayload {
    pub cliente_id: Option<u128>,
    pub pago: Dinero,
    pub pago_monedero: Dinero,
    pub pago_tarjeta: Dinero,
    pub pago_transferencia: Dinero,
    pub pago_dolares: Dinero,
    pub tipo_cambio_dolares: Dinero,
    pub cambio: Dinero,
    pub lineas: Vec<LineaPayload>,
}

impl LineaPayload {
    /// Quantity and price lie in the ranges of a `Decimal`.
    pub open spec fn wf(&self) -> bool {
        self.cantidad.wf() && self.precio_unitario.wf()
    }
}

impl NuevaVentaPayload {
    /// All amounts lie in the ranges of a `Decimal`.
    pub open spec fn wf(&self) -> bool {
        &&& self.pago.wf()
        &&& self.pago_monedero.wf()
        &&& self.pago_tarjeta.wf()
        &&& self.pago_transferencia.wf()
        &&& self.pago_dolares.wf()
        &&& self.tipo_cambio_dolares.wf()
        &&& self.cambio.wf()
        &&& forall|j: int| 0 <= j < self.lineas@.len() ==> (#[trigger] self.lineas@[j]).wf()
    }

    /// Whether the sale generates wallet money: only when it has a
    /// registered customer.
    pub fn genera_monedero(&self) -> (r: bool)
        ensures
            r == self.cliente_id is Some,
    {
        self.cliente_id.is_some()
    }
}

} // verus!
