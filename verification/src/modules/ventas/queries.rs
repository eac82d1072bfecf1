//! The computations behind the sales queries: the wallet balance, the
//! grouping of the day's rows into sales, and the plan of a new sale.

use super::models::{
    escala_linea, escala_max_lineas, lema_cota_total, lema_escala_max_lineas, lema_magnitud_todas,
    lineas_acotadas, lineas_exactas, magnitud, magnitud_lineas_en, mayor, restar_op,
    resumen_acotado, resumen_de, resumen_exacto, subtotal_en_escala, subtotales_todas_lineas_en,
    sumar_op, sumas_en_escala, sumas_exactas, ventas_wf, FechaHora, LineaPayload,
    NuevaVentaPayload, ResumenDia, Venta, VentaLinea,
};
use crate::db::settings::Settings;
use crate::dinero::{
    alineables, decimal_producto, decimal_resta, en_escala, escala_mayor, lema_en_escala_cero,
    lema_en_escala_doble, lema_menor_en_escala, lema_menor_por_mantisa, lema_pot10_positiva,
    limite_64, maximo, menor, minimo, pot10, producto, resta, resta_en, suma, suma_en, Dinero,
    MANTISA_MAXIMA,
};
use crate::error::AppError;
use std::collections::HashSet;
use vstd::prelude::*;

verus! {

/// The wallet balance of a customer: what was generated (unexpired, not
/// returned) minus what was redeemed, and never less than zero; `None` when
/// the difference overflows.
pub fn balance_monedero(generado: Dinero, redimido: Dinero) -> (r: Option<Dinero>)
    requires
        generado.wf(),
        redimido.wf(),
    ensures
        r == (match decimal_resta(generado, redimido) {
            Some(d) => Some(if d.menor_que(Dinero { mantisa: 0, escala: 0 }) {
                Dinero { mantisa: 0, escala: 0 }
            } else {
                d
            }),
            None => None,
        }),
        r matches Some(b) ==> b.wf() && !b.menor_que(Dinero { mantisa: 0, escala: 0 }),
{
    match resta(generado, redimido) {
        Some(d) => Some(maximo(d, Dinero::cero())),
        None => None,
    }
}

/// One row of the day's sales query: a sale line together with the data of
/// its sale.
#[derive(Debug)]
pub struct VentaRow {
    pub venta_id: u128,
    pub fecha_ajuste: FechaHora,
    pub pago: Dinero,
    pub pago_monedero: Dinero,
    pub pago_tarjeta: Dinero,
    pub pago_transferencia: Dinero,
    pub pago_dolares: Dinero,
    pub tipo_cambio_dolares: Dinero,
    pub cambio: Dinero,
    pub cliente_id: Option<u128>,
    pub linea_id: u128,
    pub producto_id: u128,
    pub nid: i32,
    pub nombre: String,
    pub cantidad: Dinero,
    pub precio_unitario: Dinero,
    pub monedero_linea: Dinero,
    pub es_ingreso_trasladado: bool,
}

impl VentaRow {
    /// All amounts lie in the ranges of a `Decimal` and the time in its day.
    pub open spec fn wf(&self) -> bool {
        &&& self.fecha_ajuste.wf()
        &&& self.pago.wf()
        &&& self.pago_monedero.wf()
        &&& self.pago_tarjeta.wf()
        &&& self.pago_transferencia.wf()
        &&& self.pago_dolares.wf()
        &&& self.tipo_cambio_dolares.wf()
        &&& self.cambio.wf()
        &&& self.cantidad.wf()
        &&& self.precio_unitario.wf()
        &&& self.monedero_linea.wf()
    }
}

/// All rows are well formed.
pub open spec fn filas_wf(rs: Seq<VentaRow>) -> bool {
    forall|i: int| 0 <= i < rs.len() ==> (#[trigger] rs[i]).wf()
}

/// Row `i` starts a new sale: it is the first row, or its sale differs from
/// that of the row before it.
pub open spec fn es_inicio(rs: Seq<VentaRow>, i: int) -> bool {
    i == 0 || rs[i].venta_id != rs[i - 1].venta_id
}

/// The indices below `m` of the rows that start a sale, in increasing order.
pub open spec fn inicios_hasta(rs: Seq<VentaRow>, m: int) -> Seq<int>
    decreases m,
{
    if m <= 0 {
        Seq::empty()
    } else if es_inicio(rs, m - 1) {
        inicios_hasta(rs, m - 1).push(m - 1)
    } else {
        inicios_hasta(rs, m - 1)
    }
}

/// Where group `k` of the first `m` rows ends (exclusive).
pub open spec fn fin_grupo(rs: Seq<VentaRow>, m: int, k: int) -> int {
    let ini = inicios_hasta(rs, m);
    if k + 1 < ini.len() {
        ini[k + 1]
    } else {
        m
    }
}

/// The sale line that a row describes.
pub open spec fn linea_de(r: VentaRow) -> VentaLinea {
    VentaLinea {
        id: r.linea_id,
        producto_id: r.producto_id,
        nid: r.nid,
        nombre: r.nombre,
        cantidad: r.cantidad,
        precio_unitario: r.precio_unitario,
        es_ingreso_trasladado: r.es_ingreso_trasladado,
    }
}

/// The running sum, from `Decimal::ZERO`, of the wallet amounts generated by
/// the rows of the sale of row `i`, up to and including row `i`.
pub open spec fn monedero_hasta(rs: Seq<VentaRow>, i: int) -> Option<Dinero>
    decreases i,
{
    if i <= 0 || es_inicio(rs, i) {
        sumar_op(Some(Dinero { mantisa: 0, escala: 0 }), Some(rs[i].monedero_linea))
    } else {
        sumar_op(monedero_hasta(rs, i - 1), Some(rs[i].monedero_linea))
    }
}

/// No running sum of generated wallet amounts overflows.
pub open spec fn monedero_sin_desborde(rs: Seq<VentaRow>) -> bool {
    forall|i: int| 0 <= i < rs.len() ==> (#[trigger] monedero_hasta(rs, i)) is Some
}

/// Sale `v` is the group of rows `ini..fin`: it carries the sale data of its
/// first row, one line per row in order, and the sum of their generated
/// wallet amounts.
pub open spec fn venta_de_grupo(v: Venta, rs: Seq<VentaRow>, ini: int, fin: int) -> bool {
    let r = rs[ini];
    &&& v.id == r.venta_id
    &&& v.fecha_ajuste == r.fecha_ajuste
    &&& v.pago == r.pago
    &&& v.pago_monedero == r.pago_monedero
    &&& v.pago_tarjeta == r.pago_tarjeta
    &&& v.pago_transferencia == r.pago_transferencia
    &&& v.pago_dolares == r.pago_dolares
    &&& v.tipo_cambio_dolares == r.tipo_cambio_dolares
    &&& v.cambio == r.cambio
    &&& v.cliente_id == r.cliente_id
    &&& v.lineas@ == rs.subrange(ini, fin).map_values(|x: VentaRow| linea_de(x))
    &&& Some(v.monedero_generado) == monedero_hasta(rs, fin - 1)
}

/// The sales `vs` are the groups of consecutive rows of the same sale, in
/// order.
pub open spec fn agrupadas(vs: Seq<Venta>, rs: Seq<VentaRow>) -> bool {
    let ini = inicios_hasta(rs, rs.len() as int);
    &&& vs.len() == ini.len()
    &&& forall|k: int|
        0 <= k < vs.len() ==> venta_de_grupo(
            #[trigger] vs[k],
            rs,
            ini[k],
            fin_grupo(rs, rs.len() as int, k),
        )
}

/// A non-empty prefix of the rows has at least one sale start.
proof fn lema_hay_inicio(rs: Seq<VentaRow>, m: int)
    requires
        m > 0,
    ensures
        inicios_hasta(rs, m).len() > 0,
    decreases m,
{
    if m > 1 && !es_inicio(rs, m - 1) {
        lema_hay_inicio(rs, m - 1);
    }
}

/// Every sale start below `m` is an index below `m`.
proof fn lema_inicios_en_rango(rs: Seq<VentaRow>, m: int)
    ensures
        forall|j: int|
            0 <= j < inicios_hasta(rs, m).len() ==> 0 <= #[trigger] inicios_hasta(rs, m)[j] < m,
    decreases m,
{
    if m > 0 {
        lema_inicios_en_rango(rs, m - 1);
        let previo = inicios_hasta(rs, m - 1);
        if es_inicio(rs, m - 1) {
            assert(inicios_hasta(rs, m) == previo.push(m - 1));
            assert forall|j: int| 0 <= j < previo.len() + 1 implies 0 <= #[trigger] previo.push(
                m - 1,
            )[j] < m by {
                if j < previo.len() {
                    assert(previo.push(m - 1)[j] == previo[j]);
                }
            }
        } else {
            assert(inicios_hasta(rs, m) == previo);
        }
    }
}

/// The sale starts below `m` are strictly increasing, and an index below `m`
/// is among them exactly when it starts a sale.
proof fn lema_inicios(rs: Seq<VentaRow>, m: int)
    requires
        0 <= m <= rs.len(),
    ensures
        forall|a: int, b: int|
            0 <= a < b < inicios_hasta(rs, m).len() ==> inicios_hasta(rs, m)[a] < inicios_hasta(
                rs,
                m,
            )[b],
        forall|j: int|
            0 <= j < m ==> (es_inicio(rs, j) <==> inicios_hasta(rs, m).contains(j)),
    decreases m,
{
    lema_inicios_en_rango(rs, m);
    if m > 0 {
        lema_inicios(rs, m - 1);
        lema_inicios_en_rango(rs, m - 1);
        let previo = inicios_hasta(rs, m - 1);
        if es_inicio(rs, m - 1) {
            assert(inicios_hasta(rs, m) == previo.push(m - 1));
            assert forall|j: int| 0 <= j < m implies (es_inicio(rs, j) <==> previo.push(
                m - 1,
            ).contains(j)) by {
                if previo.push(m - 1).contains(j) && j != m - 1 {
                    let k = choose|k: int| 0 <= k < previo.len() + 1 && #[trigger] previo.push(m - 1)[k] == j;
                    assert(previo[k] == j);
                }
                if j < m - 1 && previo.contains(j) {
                    let k = choose|k: int| 0 <= k < previo.len() && #[trigger] previo[k] == j;
                    assert(previo.push(m - 1)[k] == j);
                }
                if j == m - 1 {
                    assert(previo.push(m - 1)[previo.len() as int] == j);
                }
            }
        } else {
            assert(inicios_hasta(rs, m) == previo);
            assert forall|j: int| 0 <= j < m implies (es_inicio(rs, j) <==> previo.contains(j)) by {
                if j == m - 1 && previo.contains(j) {
                    let k = choose|k: int| 0 <= k < previo.len() && #[trigger] previo[k] == j;
                    assert(previo[k] < m - 1);
                }
            }
        }
    }
}

/// The grouping of the day's rows into sales: the first sale starts at the
/// first row; every sale has at least one row and ends where the next one
/// starts (the last one at the last row), so the sales cover all rows in
/// order; all rows of a sale carry its id; and two consecutive sales have
/// different ids.
pub proof fn ley_agrupacion(rs: Seq<VentaRow>)
    ensures
        ({
            let n = rs.len() as int;
            let ini = inicios_hasta(rs, n);
            &&& n > 0 ==> ini.len() > 0 && ini[0] == 0
            &&& forall|k: int|
                0 <= k < ini.len() ==> 0 <= #[trigger] ini[k] < fin_grupo(rs, n, k) <= n
            &&& forall|k: int, j: int|
                0 <= k < ini.len() && ini[k] <= j < fin_grupo(rs, n, k) ==> #[trigger] rs[j].venta_id
                    == #[trigger] rs[ini[k]].venta_id
            &&& forall|k: int| 0 < k < ini.len() ==> rs[#[trigger] ini[k]].venta_id != rs[ini[k - 1]].venta_id
        }),
{
    let n = rs.len() as int;
    let ini = inicios_hasta(rs, n);
    lema_inicios(rs, n);
    lema_inicios_en_rango(rs, n);
    if n > 0 {
        lema_hay_inicio(rs, n);
        assert(es_inicio(rs, 0));
        assert(ini.contains(0));
        let k0 = choose|k: int| 0 <= k < ini.len() && #[trigger] ini[k] == 0;
        if k0 > 0 {
            assert(ini[0] < ini[k0]);
        }
    }
    assert forall|k: int| 0 <= k < ini.len() implies 0 <= #[trigger] ini[k] < fin_grupo(rs, n, k) <= n by {
        if k + 1 < ini.len() {
            assert(ini[k] < ini[k + 1]);
        }
    }
    assert forall|k: int, j: int|
        0 <= k < ini.len() && ini[k] <= j < fin_grupo(rs, n, k) implies #[trigger] rs[j].venta_id
            == #[trigger] rs[ini[k]].venta_id by {
        lema_mismo_grupo(rs, k, j);
    }
    assert forall|k: int| 0 < k < ini.len() implies rs[#[trigger] ini[k]].venta_id != rs[ini[k
        - 1]].venta_id by {
        assert(ini[k - 1] < ini[k]);
        assert(ini.contains(ini[k]));
        assert(es_inicio(rs, ini[k]));
        lema_mismo_grupo(rs, k - 1, ini[k] - 1);
    }
}

/// Every line of a grouped sale is its own row's line, in the rows' order:
/// line `j` of sale `k` carries the id, product, number, name, quantity,
/// unit price and transferred flag of row `j` of that sale's group.
pub proof fn ley_lineas_de_filas(vs: Seq<Venta>, rs: Seq<VentaRow>, k: int, j: int)
    requires
        agrupadas(vs, rs),
        0 <= k < vs.len(),
        0 <= j < vs[k].lineas@.len(),
    ensures
        ({
            let ini = inicios_hasta(rs, rs.len() as int);
            let r = rs[ini[k] + j];
            let l = vs[k].lineas@[j];
            &&& 0 <= ini[k] + j < rs.len()
            &&& l.id == r.linea_id
            &&& l.producto_id == r.producto_id
            &&& l.nid == r.nid
            &&& l.nombre == r.nombre
            &&& l.cantidad == r.cantidad
            &&& l.precio_unitario == r.precio_unitario
            &&& l.es_ingreso_trasladado == r.es_ingreso_trasladado
        }),
{
    let n = rs.len() as int;
    let ini = inicios_hasta(rs, n);
    ley_agrupacion(rs);
    let fin = fin_grupo(rs, n, k);
    assert(venta_de_grupo(vs[k], rs, ini[k], fin));
    assert(0 <= ini[k] < fin <= n);
    assert(vs[k].lineas@ == rs.subrange(ini[k], fin).map_values(|x: VentaRow| linea_de(x)));
    assert(vs[k].lineas@[j] == linea_de(rs[ini[k] + j]));
}

/// Every row of group `k` carries the sale id of the group's first row.
proof fn lema_mismo_grupo(rs: Seq<VentaRow>, k: int, j: int)
    requires
        0 <= k < inicios_hasta(rs, rs.len() as int).len(),
        inicios_hasta(rs, rs.len() as int)[k] <= j < fin_grupo(rs, rs.len() as int, k),
    ensures
        rs[j].venta_id == rs[inicios_hasta(rs, rs.len() as int)[k]].venta_id,
    decreases j,
{
    let n = rs.len() as int;
    let ini = inicios_hasta(rs, n);
    lema_inicios(rs, n);
    lema_inicios_en_rango(rs, n);
    if j > ini[k] {
        lema_mismo_grupo(rs, k, j - 1);
        if es_inicio(rs, j) {
            assert(ini.contains(j));
            let k2 = choose|k2: int| 0 <= k2 < ini.len() && #[trigger] ini[k2] == j;
            if k2 <= k {
                if k2 < k {
                    assert(ini[k2] < ini[k]);
                }
            } else if k2 > k + 1 {
                assert(ini[k + 1] < ini[k2]);
            }
        }
    }
}

/// The sale line of a row.
fn linea_de_fila(r: &VentaRow) -> (l: VentaLinea)
    ensures
        l == linea_de(*r),
{
    VentaLinea {
        id: r.linea_id,
        producto_id: r.producto_id,
        nid: r.nid,
        nombre: r.nombre.clone(),
        cantidad: r.cantidad,
        precio_unitario: r.precio_unitario,
        es_ingreso_trasladado: r.es_ingreso_trasladado,
    }
}

/// Groups the day's rows, which arrive ordered by sale, into sales: a new
/// sale starts whenever the sale id differs from that of the previous row;
/// each row becomes a line of its sale, and the sale's generated wallet
/// amount is the sum of its rows' amounts. `None` when such a sum overflows.
pub fn agrupar_ventas(rows: &Vec<VentaRow>) -> (r: Option<Vec<Venta>>)
    requires
        filas_wf(rows@),
    ensures
        r is Some <==> monedero_sin_desborde(rows@),
        r matches Some(vs) ==> agrupadas(vs@, rows@) && ventas_wf(vs@),
{
    let n = rows.len();
    let mut ventas: Vec<Venta> = Vec::new();
    let mut actual: Option<Venta> = None;
    for i in 0..n
        invariant
            n == rows@.len(),
            filas_wf(rows@),
            forall|j: int| 0 <= j < i ==> (#[trigger] monedero_hasta(rows@, j)) is Some,
            i == 0 ==> actual is None && ventas@.len() == 0,
            i > 0 ==> actual is Some && ventas@.len() + 1 == inicios_hasta(rows@, i as int).len(),
            forall|k: int|
                0 <= k < ventas@.len() ==> venta_de_grupo(
                    #[trigger] ventas@[k],
                    rows@,
                    inicios_hasta(rows@, i as int)[k],
                    inicios_hasta(rows@, i as int)[k + 1],
                ),
            ventas_wf(ventas@),
            actual matches Some(a) ==> {
                &&& venta_de_grupo(a, rows@, inicios_hasta(rows@, i as int).last(), i as int)
                &&& a.id == rows@[i - 1].venta_id
                &&& a.wf()
            },
    {
        let ghost ini = inicios_hasta(rows@, i as int);
        let row = &rows[i];
        assert(row.wf());
        let nueva = match &actual {
            Some(a) => a.id != row.venta_id,
            None => true,
        };
        proof {
            if i > 0 {
                lema_hay_inicio(rows@, i as int);
            }
            lema_inicios_en_rango(rows@, i as int);
        }
        if nueva {
            assert(es_inicio(rows@, i as int));
            assert(inicios_hasta(rows@, i + 1) == ini.push(i as int));
            let m = match suma(Dinero::cero(), row.monedero_linea) {
                Some(m) => m,
                None => {
                    assert(monedero_hasta(rows@, i as int) is None);
                    return None;
                },
            };
            let mut lineas: Vec<VentaLinea> = Vec::new();
            lineas.push(linea_de_fila(row));
            proof {
                assert(lineas@ =~= rows@.subrange(i as int, i + 1).map_values(
                    |x: VentaRow| linea_de(x),
                ));
            }
            let v = Venta {
                id: row.venta_id,
                fecha_ajuste: row.fecha_ajuste,
                pago: row.pago,
                pago_monedero: row.pago_monedero,
                pago_tarjeta: row.pago_tarjeta,
                pago_transferencia: row.pago_transferencia,
                pago_dolares: row.pago_dolares,
                tipo_cambio_dolares: row.tipo_cambio_dolares,
                cambio: row.cambio,
                cliente_id: row.cliente_id,
                monedero_generado: m,
                lineas,
            };
            match actual {
                Some(a) => {
                    ventas.push(a);
                },
                None => {},
            }
            actual = Some(v);
        } else {
            assert(!es_inicio(rows@, i as int));
            assert(inicios_hasta(rows@, i + 1) == ini);
            match actual {
                Some(a) => {
                    let mut a = a;
                    let ghost previas = a.lineas@;
                    match suma(a.monedero_generado, row.monedero_linea) {
                        Some(m) => {
                            a.monedero_generado = m;
                        },
                        None => {
                            assert(monedero_hasta(rows@, i as int) is None);
                            return None;
                        },
                    }
                    a.lineas.push(linea_de_fila(row));
                    proof {
                        assert(a.lineas@ =~= rows@.subrange(ini.last(), i + 1).map_values(
                            |x: VentaRow| linea_de(x),
                        ));
                    }
                    actual = Some(a);
                },
                None => {
                    actual = None;
                },
            }
        }
    }
    match actual {
        Some(a) => {
            ventas.push(a);
        },
        None => {},
    }
    proof {
        if n > 0 {
            lema_hay_inicio(rows@, n as int);
        }
        assert forall|k: int| 0 <= k < ventas@.len() implies venta_de_grupo(
            #[trigger] ventas@[k],
            rows@,
            inicios_hasta(rows@, n as int)[k],
            fin_grupo(rows@, n as int, k),
        ) by {}
    }
    Some(ventas)
}

/// The day's sales, grouped from the rows of the day's query, and their
/// summary; `None` when a sum overflows.
pub fn ventas_del_dia(filas: &Vec<VentaRow>) -> (r: Option<(Vec<Venta>, ResumenDia)>)
    requires
        filas_wf(filas@),
    ensures
        r matches Some((vs, resumen)) ==> agrupadas(vs@, filas@) && ventas_wf(vs@) && resumen_de(
            vs@,
        ) == Some(resumen) && (lineas_exactas(vs@) ==> sumas_exactas(resumen, vs@)) && (
        lineas_acotadas(vs@) ==> sumas_en_escala(resumen, vs@)) && (resumen_acotado(vs@)
            ==> resumen_exacto(resumen, vs@)),
        r is None ==> !monedero_sin_desborde(filas@) || exists|vs: Seq<Venta>|
            agrupadas(vs, filas@) && #[trigger] resumen_de(vs) is None,
{
    match agrupar_ventas(filas) {
        Some(ventas) => match ResumenDia::try_from_ventas(ventas.as_slice()) {
            Some(resumen) => Some((ventas, resumen)),
            None => {
                assert(agrupadas(ventas@, filas@) && resumen_de(ventas@) is None);
                None
            },
        },
        None => None,
    }
}

/// The wallet money that a line generates: `cantidad * precio_unitario *
/// tipo_cambio_monedero`, or `None` when a product overflows.
pub open spec fn monedero_de_linea(l: LineaPayload, tasa: Dinero) -> Option<Dinero> {
    match decimal_producto(l.cantidad, l.precio_unitario) {
        Some(s) => decimal_producto(s, tasa),
        None => None,
    }
}

/// A line generates wallet money when the sale has a customer and the
/// product is not a transferred income.
pub open spec fn linea_genera(p: NuevaVentaPayload, trasladados: Set<u128>, l: LineaPayload) -> bool {
    p.cliente_id is Some && !trasladados.contains(l.producto_id)
}

/// No line that generates wallet money overflows computing it.
pub open spec fn monedero_calculable(p: NuevaVentaPayload, trasladados: Set<u128>, tasa: Dinero) -> bool {
    forall|j: int|
        0 <= j < p.lineas@.len() && linea_genera(p, trasladados, #[trigger] p.lineas@[j])
            ==> monedero_de_linea(p.lineas@[j], tasa) is Some
}

/// The message of a sale without lines.
pub open spec fn mensaje_sin_lineas() -> Seq<char> {
    "La venta debe tener al menos una línea"@
}

/// The message of a line whose quantity is not positive or whose price is
/// negative.
pub open spec fn mensaje_linea_invalida() -> Seq<char> {
    "Cada línea debe tener cantidad mayor que cero y precio no negativo"@
}

/// The message of a negative change.
pub open spec fn mensaje_cambio_negativo() -> Seq<char> {
    "El cambio no puede ser negativo"@
}

/// The message of a wallet payment without a customer.
pub open spec fn mensaje_monedero_sin_cliente() -> Seq<char> {
    "El pago con monedero requiere un cliente"@
}

/// The message of change given on a card or transfer payment.
pub open spec fn mensaje_cambio_no_efectivo() -> Seq<char> {
    "Solo efectivo y dólares pueden dar cambio"@
}

/// The message of payments that do not add up to the total.
pub open spec fn mensaje_pagos_no_cuadran() -> Seq<char> {
    "La suma de los pagos no coincide con el total de la venta"@
}

/// The quantity is positive and the price is not negative.
pub open spec fn linea_valida(l: LineaPayload) -> bool {
    (Dinero { mantisa: 0, escala: 0 }).menor_que(l.cantidad) && !l.precio_unitario.menor_que(
        Dinero { mantisa: 0, escala: 0 },
    )
}

/// The sum, from `Decimal::ZERO`, of `cantidad * precio_unitario` over the
/// lines of a cart; `None` when a product or a sum overflows.
pub open spec fn total_carrito(ls: Seq<LineaPayload>) -> Option<Dinero>
    decreases ls.len(),
{
    if ls.len() == 0 {
        Some(Dinero { mantisa: 0, escala: 0 })
    } else {
        sumar_op(
            total_carrito(ls.drop_last()),
            decimal_producto(ls.last().cantidad, ls.last().precio_unitario),
        )
    }
}

/// What the customer paid, net of change: `pago - cambio + pago_monedero +
/// pago_tarjeta + pago_transferencia + pago_dolares * tipo_cambio_dolares`,
/// in that order; `None` when an operation overflows.
pub open spec fn pagos_netos(p: NuevaVentaPayload) -> Option<Dinero> {
    sumar_op(
        sumar_op(
            sumar_op(
                sumar_op(restar_op(Some(p.pago), Some(p.cambio)), Some(p.pago_monedero)),
                Some(p.pago_tarjeta),
            ),
            Some(p.pago_transferencia),
        ),
        decimal_producto(p.pago_dolares, p.tipo_cambio_dolares),
    )
}

/// The payments equal the total of the lines within one cent: their
/// difference lies between -0.01 and 0.01 (and nothing overflows).
pub open spec fn pagos_cuadran(p: NuevaVentaPayload) -> bool {
    match restar_op(pagos_netos(p), total_carrito(p.lineas@)) {
        Some(d) => !(Dinero { mantisa: 1, escala: 2 }).menor_que(d) && !d.menor_que(
            Dinero { mantisa: -1i128, escala: 2 },
        ),
        None => false,
    }
}

/// The first rule that a new sale breaks, by its message, or `None` when
/// it breaks none: it has lines; every quantity is positive and every price
/// not negative; the change is not negative; a wallet payment needs a
/// customer; card or transfer payments give no change; and the payments
/// add up to the total of the lines within one cent.
pub open spec fn error_de_venta(p: NuevaVentaPayload) -> Option<Seq<char>> {
    let cero = Dinero { mantisa: 0, escala: 0 };
    if p.lineas@.len() == 0 {
        Some(mensaje_sin_lineas())
    } else if !(forall|j: int| 0 <= j < p.lineas@.len() ==> linea_valida(#[trigger] p.lineas@[j])) {
        Some(mensaje_linea_invalida())
    } else if p.cambio.menor_que(cero) {
        Some(mensaje_cambio_negativo())
    } else if cero.menor_que(p.pago_monedero) && p.cliente_id is None {
        Some(mensaje_monedero_sin_cliente())
    } else if (cero.menor_que(p.pago_tarjeta) || cero.menor_que(p.pago_transferencia))
        && p.cambio.mantisa != 0 {
        Some(mensaje_cambio_no_efectivo())
    } else if !pagos_cuadran(p) {
        Some(mensaje_pagos_no_cuadran())
    } else {
        None
    }
}

/// A cart line as a sale line (no id, number or name), for the arithmetic
/// of its subtotal.
pub open spec fn como_linea(l: LineaPayload) -> VentaLinea {
    VentaLinea {
        id: 0,
        producto_id: l.producto_id,
        nid: 0,
        nombre: arbitrary(),
        cantidad: l.cantidad,
        precio_unitario: l.precio_unitario,
        es_ingreso_trasladado: false,
    }
}

/// The cart's lines as sale lines.
pub open spec fn lineas_carrito(ls: Seq<LineaPayload>) -> Seq<VentaLinea> {
    ls.map_values(|l: LineaPayload| como_linea(l))
}

/// The exact total of the cart written in scale `s`: the sum of each line's
/// `cantidad * precio_unitario`, both mantissas multiplied and brought from
/// the line's scale to `s`.
pub open spec fn total_exacto(ls: Seq<LineaPayload>, s: u32) -> int
    decreases ls.len(),
{
    if ls.len() == 0 {
        0
    } else {
        total_exacto(ls.drop_last(), s) + ls.last().cantidad.mantisa
            * ls.last().precio_unitario.mantisa * pot10(
            (s - (ls.last().cantidad.escala + ls.last().precio_unitario.escala)) as nat,
        )
    }
}

/// The amount paid in dollars, in pesos, written in scale `s`.
pub open spec fn dolares_en_pesos_en(p: NuevaVentaPayload, s: u32) -> int {
    p.pago_dolares.mantisa * p.tipo_cambio_dolares.mantisa * pot10(
        (s - (p.pago_dolares.escala + p.tipo_cambio_dolares.escala)) as nat,
    )
}

/// What the customer paid, net of change, exactly, written in scale `s`:
/// `pago - cambio + pago_monedero + pago_tarjeta + pago_transferencia +
/// pago_dolares * tipo_cambio_dolares`.
pub open spec fn neto_exacto(p: NuevaVentaPayload, s: u32) -> int {
    en_escala(p.pago, s) - en_escala(p.cambio, s) + en_escala(p.pago_monedero, s) + en_escala(
        p.pago_tarjeta,
        s,
    ) + en_escala(p.pago_transferencia, s) + dolares_en_pesos_en(p, s)
}

/// The largest scale among the sale's amounts, and at least 2 (cents).
pub open spec fn escala_venta(p: NuevaVentaPayload) -> int {
    mayor(
        mayor(
            mayor(2, mayor(p.pago.escala as int, p.cambio.escala as int)),
            mayor(p.pago_monedero.escala as int, p.pago_tarjeta.escala as int),
        ),
        mayor(
            mayor(
                p.pago_transferencia.escala as int,
                p.pago_dolares.escala + p.tipo_cambio_dolares.escala,
            ),
            escala_max_lineas(lineas_carrito(p.lineas@)),
        ),
    )
}

/// The payments and the cart are bounded in the sale's scale, itself at
/// most 19: written in it, all of them add up, in magnitude, to less than
/// 2^64. Then nothing in the payment check overflows or is rounded.
pub open spec fn venta_acotada(p: NuevaVentaPayload) -> bool {
    let s = escala_venta(p) as u32;
    &&& escala_venta(p) <= 19
    &&& magnitud(en_escala(p.pago, s)) + magnitud(en_escala(p.cambio, s)) + magnitud(
        en_escala(p.pago_monedero, s),
    ) + magnitud(en_escala(p.pago_tarjeta, s)) + magnitud(en_escala(p.pago_transferencia, s))
        + magnitud(dolares_en_pesos_en(p, s)) + magnitud_lineas_en(lineas_carrito(p.lineas@), s)
        < limite_64()
}

proof fn lema_total_exacto(ls: Seq<LineaPayload>, s: u32)
    ensures
        total_exacto(ls, s) == subtotales_todas_lineas_en(lineas_carrito(ls), s),
        lineas_carrito(ls).len() == ls.len(),
    decreases ls.len(),
{
    if ls.len() > 0 {
        lema_total_exacto(ls.drop_last(), s);
        assert(lineas_carrito(ls).drop_last() =~= lineas_carrito(ls.drop_last()));
    }
}

/// The sum of `cantidad * precio_unitario` over the cart; exact in the
/// sale's scale when the sale is bounded.
fn total_del_carrito(p: &NuevaVentaPayload) -> (r: Option<Dinero>)
    requires
        p.wf(),
    ensures
        r == total_carrito(p.lineas@),
        r matches Some(d) ==> d.wf(),
        venta_acotada(*p) ==> (r matches Some(d) && d.escala <= escala_venta(*p) && en_escala(
            d,
            escala_venta(*p) as u32,
        ) == total_exacto(p.lineas@, escala_venta(*p) as u32)),
{
    let ghost ac = venta_acotada(*p);
    let ghost s = escala_venta(*p) as u32;
    let ghost ls = lineas_carrito(p.lineas@);
    proof {
        lema_escala_max_lineas(ls);
        lema_total_exacto(p.lineas@, s);
    }
    let mut acumulado: Option<Dinero> = Some(Dinero::cero());
    let n = p.lineas.len();
    for j in 0..n
        invariant
            n == p.lineas@.len(),
            p.wf(),
            acumulado == total_carrito(p.lineas@.take(j as int)),
            acumulado matches Some(d) ==> d.wf(),
            ac == venta_acotada(*p),
            s == escala_venta(*p) as u32,
            ls == lineas_carrito(p.lineas@),
            ls.len() == n,
            forall|k: int| 0 <= k < ls.len() ==> escala_linea(#[trigger] ls[k]) <= escala_max_lineas(ls),
            ac ==> (acumulado matches Some(a) && a.escala <= s && en_escala(a, s)
                == subtotales_todas_lineas_en(ls.take(j as int), s)),
    {
        proof {
            assert(p.lineas@.take(j + 1).drop_last() =~= p.lineas@.take(j as int));
            assert(ls.take(j + 1).drop_last() =~= ls.take(j as int));
            assert(ls.take(j + 1).last() == ls[j as int]);
        }
        let l = &p.lineas[j];
        assert(l.wf());
        let producto_linea = producto(l.cantidad, l.precio_unitario);
        proof {
            if ac {
                assert(ls[j as int] == como_linea(*l));
                assert(escala_linea(ls[j as int]) <= s);
                lema_magnitud_todas(ls, s);
                lema_cota_total(ls, s, j as int);
                let (c, q) = (l.cantidad.mantisa as int, l.precio_unitario.mantisa as int);
                let e = escala_linea(ls[j as int]);
                lema_pot10_positiva((s - e) as nat);
                let k = pot10((s - e) as nat);
                let x = subtotal_en_escala(ls[j as int], s);
                assert(magnitud(c * q) <= magnitud(x) && (c == 0 || q == 0 ==> x == 0))
                    by (nonlinear_arith)
                    requires
                        x == c * q * k,
                        k >= 1,
                ;
                if c == 0 || q == 0 {
                    assert(c * q == 0) by (nonlinear_arith)
                        requires
                            c == 0 || q == 0,
                    ;
                    lema_en_escala_cero(Dinero { mantisa: 0, escala: 0 }, s);
                }
                assert(producto_linea matches Some(y) && y.escala <= s && en_escala(y, s) == x);
            }
        }
        acumulado = match acumulado {
            Some(a) => match producto_linea {
                Some(x) => suma_en(a, x, Ghost(s)),
                None => None,
            },
            None => None,
        };
    }
    proof {
        assert(p.lineas@.take(n as int) =~= p.lineas@);
        assert(ls.take(n as int) =~= ls);
    }
    acumulado
}

/// What the customer paid, net of change; exact in the sale's scale when
/// the sale is bounded.
fn pagos_netos_de(p: &NuevaVentaPayload) -> (r: Option<Dinero>)
    requires
        p.wf(),
    ensures
        r == pagos_netos(*p),
        r matches Some(d) ==> d.wf(),
        venta_acotada(*p) ==> (r matches Some(d) && d.escala <= escala_venta(*p) && en_escala(
            d,
            escala_venta(*p) as u32,
        ) == neto_exacto(*p, escala_venta(*p) as u32)),
{
    let ghost s = escala_venta(*p) as u32;
    proof {
        if venta_acotada(*p) {
            lema_magnitud_todas(lineas_carrito(p.lineas@), s);
            lema_en_escala_cero(Dinero { mantisa: 0, escala: 0 }, s);
        }
    }
    let a = match resta_en(p.pago, p.cambio, Ghost(s)) {
        Some(x) => x,
        None => return None,
    };
    let b = match suma_en(a, p.pago_monedero, Ghost(s)) {
        Some(x) => x,
        None => return None,
    };
    let c = match suma_en(b, p.pago_tarjeta, Ghost(s)) {
        Some(x) => x,
        None => return None,
    };
    let d = match suma_en(c, p.pago_transferencia, Ghost(s)) {
        Some(x) => x,
        None => return None,
    };
    let dolares = producto(p.pago_dolares, p.tipo_cambio_dolares);
    proof {
        if venta_acotada(*p) {
            let (m1, m2) = (p.pago_dolares.mantisa as int, p.tipo_cambio_dolares.mantisa as int);
            let e = p.pago_dolares.escala + p.tipo_cambio_dolares.escala;
            lema_pot10_positiva((s - e) as nat);
            let k = pot10((s - e) as nat);
            let x = dolares_en_pesos_en(*p, s);
            assert(magnitud(m1 * m2) <= magnitud(x) && (m1 == 0 || m2 == 0 ==> x == 0))
                by (nonlinear_arith)
                requires
                    x == m1 * m2 * k,
                    k >= 1,
            ;
            if m1 == 0 || m2 == 0 {
                assert(m1 * m2 == 0) by (nonlinear_arith)
                    requires
                        m1 == 0 || m2 == 0,
                ;
            }
            assert(dolares matches Some(y) && y.escala <= s && en_escala(y, s) == x);
        }
    }
    match dolares {
        Some(x) => suma_en(d, x, Ghost(s)),
        None => None,
    }
}

/// The message of the first rule that a new sale breaks (see
/// `error_de_venta`), or `None` when the sale is valid. When the sale's
/// amounts are bounded (`venta_acotada`), the payments add up exactly when
/// `pago - cambio + pago_monedero + pago_tarjeta + pago_transferencia +
/// pago_dolares * tipo_cambio_dolares`, less the sum of `cantidad *
/// precio_unitario` over the lines, lies within one cent of zero, all of
/// them written in the sale's scale.
pub fn validar_venta(p: &NuevaVentaPayload) -> (r: Option<String>)
    requires
        p.wf(),
    ensures
        match r {
            Some(m) => error_de_venta(*p) == Some(m@),
            None => error_de_venta(*p) is None,
        },
        venta_acotada(*p) ==> (pagos_cuadran(*p) <==> -pot10((escala_venta(*p) - 2) as nat)
            <= neto_exacto(*p, escala_venta(*p) as u32) - total_exacto(
            p.lineas@,
            escala_venta(*p) as u32,
        ) <= pot10((escala_venta(*p) - 2) as nat)),
{
    let ghost s = escala_venta(*p) as u32;
    let neto = pagos_netos_de(p);
    let total_lineas = total_del_carrito(p);
    proof {
        if venta_acotada(*p) {
            lema_magnitud_todas(lineas_carrito(p.lineas@), s);
            lema_total_exacto(p.lineas@, s);
            assert(magnitud(neto_exacto(*p, s)) + magnitud(total_exacto(p.lineas@, s))
                < limite_64());
        }
    }
    let cuadran = match (neto, total_lineas) {
        (Some(pagado), Some(total)) => match resta_en(pagado, total, Ghost(s)) {
            Some(d) => {
                let uno = Dinero { mantisa: 1, escala: 2 };
                let menos_uno = Dinero { mantisa: -1i128, escala: 2 };
                proof {
                    if venta_acotada(*p) {
                        lema_menor_en_escala(uno, d, s);
                        lema_menor_en_escala(d, menos_uno, s);
                    }
                }
                !menor(uno, d) && !menor(d, menos_uno)
            },
            None => false,
        },
        _ => false,
    };
    assert(cuadran == pagos_cuadran(*p));
    let ghost exacta = venta_acotada(*p) ==> (pagos_cuadran(*p) <==> -pot10((s - 2) as nat)
        <= neto_exacto(*p, s) - total_exacto(p.lineas@, s) <= pot10((s - 2) as nat));
    assert(exacta) by {
        if venta_acotada(*p) {
            assert(en_escala(Dinero { mantisa: 1, escala: 2 }, s) == pot10((s - 2) as nat));
            lema_en_escala_cero(Dinero { mantisa: 1, escala: 2 }, s);
            assert(en_escala(Dinero { mantisa: -1i128, escala: 2 }, s) == -pot10((s - 2) as nat));
        }
    }
    if p.lineas.len() == 0 {
        return Some(String::from_str("La venta debe tener al menos una línea"));
    }
    let n = p.lineas.len();
    for j in 0..n
        invariant
            n == p.lineas@.len(),
            p.wf(),
            forall|k: int| 0 <= k < j ==> linea_valida(#[trigger] p.lineas@[k]),
            exacta,
            exacta == (venta_acotada(*p) ==> (pagos_cuadran(*p) <==> -pot10((s - 2) as nat)
                <= neto_exacto(*p, s) - total_exacto(p.lineas@, s) <= pot10((s - 2) as nat))),
            s == escala_venta(*p) as u32,
    {
        let l = &p.lineas[j];
        assert(l.wf());
        if !menor(Dinero::cero(), l.cantidad) || menor(l.precio_unitario, Dinero::cero()) {
            return Some(
                String::from_str("Cada línea debe tener cantidad mayor que cero y precio no negativo"),
            );
        }
    }
    if menor(p.cambio, Dinero::cero()) {
        return Some(String::from_str("El cambio no puede ser negativo"));
    }
    if menor(Dinero::cero(), p.pago_monedero) && p.cliente_id.is_none() {
        return Some(String::from_str("El pago con monedero requiere un cliente"));
    }
    if (menor(Dinero::cero(), p.pago_tarjeta) || menor(Dinero::cero(), p.pago_transferencia))
        && p.cambio.mantisa != 0 {
        return Some(String::from_str("Solo efectivo y dólares pueden dar cambio"));
    }
    if !cuadran {
        return Some(String::from_str("La suma de los pagos no coincide con el total de la venta"));
    }
    None
}

/// What a new sale writes besides its header and its lines: the wallet money
/// generated by each line, and whether the wallet payment must be redeemed.
#[derive(Debug)]
pub struct PlanVenta {
    pub monedero_por_linea: Vec<Option<Dinero>>,
    pub redimir_monedero: bool,
}

/// The wallet money of one line.
fn monedero_linea(l: &LineaPayload, tasa: Dinero) -> (r: Option<Dinero>)
    requires
        l.wf(),
        tasa.wf(),
    ensures
        r == monedero_de_linea(*l, tasa),
        r matches Some(d) ==> d.wf(),
{
    match producto(l.cantidad, l.precio_unitario) {
        Some(s) => producto(s, tasa),
        None => None,
    }
}

/// The outcome of planning a new sale: a validation error with the message
/// of the first rule the sale breaks; otherwise a plan in which each line
/// generates `cantidad * precio_unitario * tasa` of wallet money when the
/// sale has a customer and the product is not a transferred income, and
/// none otherwise, and the wallet payment is redeemed when it is positive
/// and the sale has a customer.
pub open spec fn resultado_de_venta(
    p: NuevaVentaPayload,
    trasladados: Set<u128>,
    tasa: Dinero,
    r: Result<PlanVenta, AppError>,
) -> bool {
    &&& r is Err <==> error_de_venta(p) is Some
    &&& r matches Err(e) ==> (e matches AppError::Validacion(m) && error_de_venta(p) == Some(m@))
    &&& r matches Ok(plan) ==> {
        &&& plan.monedero_por_linea@.len() == p.lineas@.len()
        &&& forall|j: int|
            0 <= j < p.lineas@.len() ==> #[trigger] plan.monedero_por_linea@[j] == (if linea_genera(
                p,
                trasladados,
                p.lineas@[j],
            ) {
                monedero_de_linea(p.lineas@[j], tasa)
            } else {
                None
            })
        &&& p.cliente_id is None ==> forall|j: int|
            0 <= j < p.lineas@.len() ==> #[trigger] plan.monedero_por_linea@[j] is None
        &&& plan.redimir_monedero == (p.cliente_id is Some && Dinero {
            mantisa: 0,
            escala: 0,
        }.menor_que(p.pago_monedero))
    }
}

/// The wallet money that a planned sale generates: line `j` generates
/// `(cantidad * precio_unitario) * tasa` when the sale has a customer and
/// the line's product is not a transferred income, and nothing otherwise;
/// how the sale was paid plays no part.
pub proof fn ley_monedero_por_linea(
    p: NuevaVentaPayload,
    trasladados: Set<u128>,
    tasa: Dinero,
    plan: PlanVenta,
    j: int,
)
    requires
        resultado_de_venta(p, trasladados, tasa, Ok(plan)),
        0 <= j < p.lineas@.len(),
    ensures
        plan.monedero_por_linea@.len() == p.lineas@.len(),
        plan.monedero_por_linea@[j] == if p.cliente_id is Some && !trasladados.contains(
            p.lineas@[j].producto_id,
        ) {
            match decimal_producto(p.lineas@[j].cantidad, p.lineas@[j].precio_unitario) {
                Some(subtotal) => decimal_producto(subtotal, tasa),
                None => None,
            }
        } else {
            None
        },
{
    assert(plan.monedero_por_linea@[j] == plan.monedero_por_linea@[j]);
}

/// Two valid sales with the same customer and the same lines generate the
/// same wallet money, however differently they were paid.
pub proof fn ley_monedero_sin_pagos(
    p: NuevaVentaPayload,
    q: NuevaVentaPayload,
    trasladados: Set<u128>,
    tasa: Dinero,
    a: PlanVenta,
    b: PlanVenta,
)
    requires
        resultado_de_venta(p, trasladados, tasa, Ok(a)),
        resultado_de_venta(q, trasladados, tasa, Ok(b)),
        p.cliente_id == q.cliente_id,
        p.lineas@ == q.lineas@,
    ensures
        a.monedero_por_linea@ == b.monedero_por_linea@,
{
    assert forall|j: int| 0 <= j < a.monedero_por_linea@.len() implies a.monedero_por_linea@[j]
        == b.monedero_por_linea@[j] by {
        ley_monedero_por_linea(p, trasladados, tasa, a, j);
        ley_monedero_por_linea(q, trasladados, tasa, b, j);
    }
    assert(a.monedero_por_linea@ =~= b.monedero_por_linea@);
}

/// The plan of a new sale (see `resultado_de_venta`). A sale that breaks a
/// rule is refused with a validation error (answered 422).
pub fn crear_venta(
    payload: &NuevaVentaPayload,
    ingresos_trasladados: &HashSet<u128>,
    settings: &Settings,
) -> (r: Result<PlanVenta, AppError>)
    requires
        payload.wf(),
        settings.tipo_cambio_monedero.wf(),
        error_de_venta(*payload) is None ==> monedero_calculable(
            *payload,
            ingresos_trasladados@,
            settings.tipo_cambio_monedero,
        ),
    ensures
        resultado_de_venta(*payload, ingresos_trasladados@, settings.tipo_cambio_monedero, r),
{
    broadcast use vstd::std_specs::hash::group_hash_axioms;

    if let Some(m) = validar_venta(payload) {
        return Err(AppError::Validacion(m));
    }
    let generar_monedero = payload.genera_monedero();
    let tasa = settings.tipo_cambio_monedero;
    let mut monedero_por_linea: Vec<Option<Dinero>> = Vec::new();
    let n = payload.lineas.len();
    for j in 0..n
        invariant
            n == payload.lineas@.len(),
            payload.wf(),
            tasa.wf(),
            tasa == settings.tipo_cambio_monedero,
            generar_monedero == payload.cliente_id is Some,
            monedero_calculable(*payload, ingresos_trasladados@, tasa),
            monedero_por_linea@.len() == j,
            forall|k: int|
                0 <= k < j ==> #[trigger] monedero_por_linea@[k] == (if linea_genera(
                    *payload,
                    ingresos_trasladados@,
                    payload.lineas@[k],
                ) {
                    monedero_de_linea(payload.lineas@[k], tasa)
                } else {
                    None
                }),
    {
        let linea = &payload.lineas[j];
        assert(linea.wf());
        if generar_monedero && !ingresos_trasladados.contains(&linea.producto_id) {
            monedero_por_linea.push(monedero_linea(linea, tasa));
        } else {
            monedero_por_linea.push(None);
        }
    }
    let redimir_monedero = menor(Dinero::cero(), payload.pago_monedero)
        && payload.cliente_id.is_some();
    Ok(PlanVenta { monedero_por_linea, redimir_monedero })
}

/// The plan of a new sale (see `resultado_de_venta`), or `None` when the
/// sale is valid but computing some line's wallet money overflows.
pub fn crear_venta_verificada(
    payload: &NuevaVentaPayload,
    ingresos_trasladados: &HashSet<u128>,
    settings: &Settings,
) -> (r: Option<Result<PlanVenta, AppError>>)
    requires
        payload.wf(),
        settings.tipo_cambio_monedero.wf(),
    ensures
        r is Some <==> (error_de_venta(*payload) is Some || monedero_calculable(
            *payload,
            ingresos_trasladados@,
            settings.tipo_cambio_monedero,
        )),
        r matches Some(res) ==> resultado_de_venta(
            *payload,
            ingresos_trasladados@,
            settings.tipo_cambio_monedero,
            res,
        ),
{
    broadcast use vstd::std_specs::hash::group_hash_axioms;

    if let Some(m) = validar_venta(payload) {
        return Some(Err(AppError::Validacion(m)));
    }
    let generar_monedero = payload.genera_monedero();
    let n = payload.lineas.len();
    for j in 0..n
        invariant
            n == payload.lineas@.len(),
            payload.wf(),
            settings.tipo_cambio_monedero.wf(),
            generar_monedero == payload.cliente_id is Some,
            error_de_venta(*payload) is None,
            forall|k: int|
                0 <= k < j && linea_genera(*payload, ingresos_trasladados@, #[trigger] payload.lineas@[k])
                    ==> monedero_de_linea(payload.lineas@[k], settings.tipo_cambio_monedero) is Some,
    {
        let linea = &payload.lineas[j];
        assert(linea.wf());
        if generar_monedero && !ingresos_trasladados.contains(&linea.producto_id) {
            if monedero_linea(linea, settings.tipo_cambio_monedero).is_none() {
                return None;
            }
        }
    }
    Some(crear_venta(payload, ingresos_trasladados, settings))
}

/// A row of the customer's wallet balance, oldest first: the generated
/// wallet entry and how much of it is still available.
#[derive(Clone, Copy, Debug)]
pub struct FilaMonedero {
    pub monederogeneradosid: i32,
    pub dinerodigitaldisponible: Dinero,
}

/// An amount redeemed from one generated wallet entry.
#[derive(Clone, Copy, Debug)]
pub struct Redencion {
    pub monederogeneradosid: i32,
    pub dinerodigital: Dinero,
}

/// Redeeming `restante` from the wallet rows in order, oldest first: while
/// something remains to pay (more than zero), each row gives the smaller of
/// what remains and what it has available. `None` when a subtraction
/// overflows.
pub open spec fn redenciones(restante: Dinero, filas: Seq<FilaMonedero>) -> Option<Seq<Redencion>>
    decreases filas.len(),
{
    if filas.len() == 0 || !(Dinero { mantisa: 0, escala: 0 }).menor_que(restante) {
        Some(Seq::empty())
    } else {
        let f = filas[0];
        let consumir = if f.dinerodigitaldisponible.menor_que(restante) {
            f.dinerodigitaldisponible
        } else {
            restante
        };
        match decimal_resta(restante, consumir) {
            Some(nuevo) => match redenciones(nuevo, filas.drop_first()) {
                Some(rs) => Some(
                    seq![
                        Redencion {
                            monederogeneradosid: f.monederogeneradosid,
                            dinerodigital: consumir,
                        },
                    ] + rs,
                ),
                None => None,
            },
            None => None,
        }
    }
}

/// All available amounts lie in the ranges of a `Decimal`.
pub open spec fn filas_monedero_wf(filas: Seq<FilaMonedero>) -> bool {
    forall|i: int| 0 <= i < filas.len() ==> (#[trigger] filas[i]).dinerodigitaldisponible.wf()
}

/// Each redemption takes from the row in the same position, and never more
/// than the row has available.
pub open spec fn redenciones_acotadas(rs: Seq<Redencion>, filas: Seq<FilaMonedero>) -> bool {
    &&& rs.len() <= filas.len()
    &&& forall|k: int|
        0 <= k < rs.len() ==> {
            &&& (#[trigger] rs[k]).monederogeneradosid == filas[k].monederogeneradosid
            &&& !filas[k].dinerodigitaldisponible.menor_que(rs[k].dinerodigital)
        }
}

proof fn lema_redenciones_acotadas(restante: Dinero, filas: Seq<FilaMonedero>)
    ensures
        redenciones(restante, filas) matches Some(rs) ==> redenciones_acotadas(rs, filas),
    decreases filas.len(),
{
    if filas.len() > 0 && (Dinero { mantisa: 0, escala: 0 }).menor_que(restante) {
        let f = filas[0];
        let consumir = if f.dinerodigitaldisponible.menor_que(restante) {
            f.dinerodigitaldisponible
        } else {
            restante
        };
        if let Some(nuevo) = decimal_resta(restante, consumir) {
            lema_redenciones_acotadas(nuevo, filas.drop_first());
            if let Some(resto) = redenciones(nuevo, filas.drop_first()) {
                let rs = seq![
                    Redencion { monederogeneradosid: f.monederogeneradosid, dinerodigital: consumir },
                ] + resto;
                assert forall|k: int| 0 <= k < rs.len() implies {
                    &&& (#[trigger] rs[k]).monederogeneradosid == filas[k].monederogeneradosid
                    &&& !filas[k].dinerodigitaldisponible.menor_que(rs[k].dinerodigital)
                } by {
                    if k > 0 {
                        assert(rs[k] == resto[k - 1]);
                        assert(filas[k] == filas.drop_first()[k - 1]);
                    }
                }
            }
        }
    }
}

/// The sum of the mantissas of the redeemed amounts.
pub open spec fn mantisas_redimidas(rs: Seq<Redencion>) -> int
    decreases rs.len(),
{
    if rs.len() == 0 {
        0
    } else {
        mantisas_redimidas(rs.drop_last()) + rs.last().dinerodigital.mantisa
    }
}

/// The sum of the mantissas of the available amounts.
pub open spec fn mantisas_disponibles(filas: Seq<FilaMonedero>) -> int
    decreases filas.len(),
{
    if filas.len() == 0 {
        0
    } else {
        mantisas_disponibles(filas.drop_last()) + filas.last().dinerodigitaldisponible.mantisa
    }
}

/// The payment is not negative, and every available amount is not negative
/// and, unless it is zero, is written in the scale of the payment.
pub open spec fn montos_en_escala(pago: Dinero, filas: Seq<FilaMonedero>) -> bool {
    &&& 0 <= pago.mantisa
    &&& forall|i: int|
        0 <= i < filas.len() ==> {
            let d = (#[trigger] filas[i]).dinerodigitaldisponible;
            0 <= d.mantisa && (d.mantisa != 0 ==> d.escala == pago.escala)
        }
}

/// The largest scale among the payment and the available amounts.
pub open spec fn escala_maxima(pago: Dinero, filas: Seq<FilaMonedero>) -> u32
    decreases filas.len(),
{
    if filas.len() == 0 {
        pago.escala
    } else {
        let e = escala_maxima(pago, filas.drop_last());
        let f = filas.last().dinerodigitaldisponible.escala;
        if e <= f {
            f
        } else {
            e
        }
    }
}

/// The sum of the redeemed amounts, each written in scale `s`.
pub open spec fn redimido_en_escala(rs: Seq<Redencion>, s: u32) -> int
    decreases rs.len(),
{
    if rs.len() == 0 {
        0
    } else {
        redimido_en_escala(rs.drop_last(), s) + en_escala(rs.last().dinerodigital, s)
    }
}

/// The sum of the available amounts, each written in scale `s`.
pub open spec fn disponible_en_escala(filas: Seq<FilaMonedero>, s: u32) -> int
    decreases filas.len(),
{
    if filas.len() == 0 {
        0
    } else {
        disponible_en_escala(filas.drop_last(), s) + en_escala(
            filas.last().dinerodigitaldisponible,
            s,
        )
    }
}

/// The payment and the available amounts are not negative, their scales
/// are at most 19, and each of them, written in the largest of those
/// scales, is below 2^64.
pub open spec fn montos_acotados(pago: Dinero, filas: Seq<FilaMonedero>) -> bool {
    let s = escala_maxima(pago, filas);
    &&& s <= 19
    &&& 0 <= pago.mantisa && en_escala(pago, s) < limite_64()
    &&& forall|i: int|
        0 <= i < filas.len() ==> {
            let d = (#[trigger] filas[i]).dinerodigitaldisponible;
            0 <= d.mantisa && en_escala(d, s) < limite_64()
        }
}

proof fn lema_escala_maxima(pago: Dinero, filas: Seq<FilaMonedero>)
    ensures
        pago.escala <= escala_maxima(pago, filas),
        forall|i: int|
            0 <= i < filas.len() ==> (#[trigger] filas[i]).dinerodigitaldisponible.escala
                <= escala_maxima(pago, filas),
    decreases filas.len(),
{
    if filas.len() > 0 {
        let p = filas.drop_last();
        lema_escala_maxima(pago, p);
        assert forall|i: int| 0 <= i < filas.len() implies (#[trigger] filas[i]).dinerodigitaldisponible.escala
            <= escala_maxima(pago, filas) by {
            if i < p.len() {
                assert(filas[i] == p[i]);
            }
        }
    }
}

/// An amount that is not negative, written in a scale at least its own,
/// is not negative and at least its mantissa; it is zero exactly when the
/// amount is.
proof fn lema_en_escala_positiva(d: Dinero, s: u32)
    requires
        d.escala <= s,
        0 <= d.mantisa,
    ensures
        d.mantisa <= en_escala(d, s),
        d.mantisa == 0 <==> en_escala(d, s) == 0,
{
    lema_pot10_positiva((s - d.escala) as nat);
    let (m, p) = (d.mantisa as int, pot10((s - d.escala) as nat));
    assert(m <= m * p && (m == 0 <==> m * p == 0)) by (nonlinear_arith)
        requires
            m >= 0,
            p >= 1,
    ;
}

/// With amounts that are not negative, more rows hold at least as much.
proof fn lema_disponible_en_escala_crece(filas: Seq<FilaMonedero>, s: u32, j: int, k: int)
    requires
        0 <= j <= k <= filas.len(),
        forall|i: int|
            0 <= i < filas.len() ==> 0 <= en_escala((#[trigger] filas[i]).dinerodigitaldisponible, s),
    ensures
        disponible_en_escala(filas.take(j), s) <= disponible_en_escala(filas.take(k), s),
    decreases k - j,
{
    if j < k {
        lema_disponible_en_escala_crece(filas, s, j, k - 1);
        assert(filas.take(k).drop_last() =~= filas.take(k - 1));
        assert(filas.take(k).last() == filas[k - 1]);
    }
}

/// With rows that are not negative, more rows hold at least as much.
proof fn lema_disponibles_crecen(pago: Dinero, filas: Seq<FilaMonedero>, j: int, k: int)
    requires
        montos_en_escala(pago, filas),
        0 <= j <= k <= filas.len(),
    ensures
        mantisas_disponibles(filas.take(j)) <= mantisas_disponibles(filas.take(k)),
    decreases k - j,
{
    if j < k {
        lema_disponibles_crecen(pago, filas, j, k - 1);
        assert(filas.take(k).drop_last() =~= filas.take(k - 1));
        assert(filas.take(k).last() == filas[k - 1]);
    }
}

/// Redeems the wallet payment `pago_monedero` from the customer's wallet
/// rows, oldest first: while the remainder is positive, each row gives the
/// smaller of the remainder and what it has available, and the remainder
/// decreases by that much. Each redemption takes from the row in the same
/// position and never more than that row has available. `None` when a
/// subtraction overflows.
///
/// When the amounts are written in the payment's scale (and none is
/// negative) nothing overflows and nothing is rounded: the redemptions add
/// up to the payment when the rows hold enough, and to all that the rows
/// hold otherwise. The same holds, comparing the amounts written in their
/// largest scale, when the scales differ but are at most 19 and each amount
/// so written is below 2^64 (`montos_acotados`).
pub fn plan_redencion(pago_monedero: Dinero, filas: &Vec<FilaMonedero>) -> (r: Option<
    Vec<Redencion>,
>)
    requires
        pago_monedero.wf(),
        filas_monedero_wf(filas@),
    ensures
        match r {
            Some(rs) => redenciones(pago_monedero, filas@) == Some(rs@),
            None => redenciones(pago_monedero, filas@) is None,
        },
        r matches Some(rs) ==> redenciones_acotadas(rs@, filas@),
        montos_en_escala(pago_monedero, filas@) ==> (r matches Some(rs) && {
            &&& mantisas_redimidas(rs@) == if pago_monedero.mantisa <= mantisas_disponibles(
                filas@,
            ) {
                pago_monedero.mantisa as int
            } else {
                mantisas_disponibles(filas@)
            }
            &&& forall|k: int|
                0 <= k < rs@.len() && (#[trigger] rs@[k]).dinerodigital.mantisa != 0
                    ==> rs@[k].dinerodigital.escala == pago_monedero.escala
        }),
        montos_acotados(pago_monedero, filas@) ==> (r matches Some(rs) && {
            let s = escala_maxima(pago_monedero, filas@);
            &&& redimido_en_escala(rs@, s) == if en_escala(pago_monedero, s) <= disponible_en_escala(
                filas@,
                s,
            ) {
                en_escala(pago_monedero, s)
            } else {
                disponible_en_escala(filas@, s)
            }
            &&& forall|k: int| 0 <= k < rs@.len() ==> (#[trigger] rs@[k]).dinerodigital.escala <= s
        }),
{
    let ghost exacto = montos_en_escala(pago_monedero, filas@);
    let ghost acot = montos_acotados(pago_monedero, filas@);
    let ghost s = escala_maxima(pago_monedero, filas@);
    proof {
        lema_escala_maxima(pago_monedero, filas@);
    }
    let mut restante = pago_monedero;
    let mut hechas: Vec<Redencion> = Vec::new();
    let n = filas.len();
    let mut i: usize = 0;
    proof {
        assert(filas@.skip(0) =~= filas@);
    }
    while i < n && menor(Dinero::cero(), restante)
        invariant
            n == filas@.len(),
            i <= n,
            restante.wf(),
            filas_monedero_wf(filas@),
            redenciones(pago_monedero, filas@) == match redenciones(restante, filas@.skip(i as int)) {
                Some(rs) => Some(hechas@ + rs),
                None => None::<Seq<Redencion>>,
            },
            exacto == montos_en_escala(pago_monedero, filas@),
            exacto ==> {
                &&& 0 <= restante.mantisa
                &&& restante.mantisa != 0 ==> restante.escala == pago_monedero.escala
                &&& mantisas_redimidas(hechas@) + restante.mantisa == pago_monedero.mantisa
                &&& mantisas_redimidas(hechas@) <= mantisas_disponibles(filas@.take(i as int))
                &&& restante.mantisa > 0 ==> mantisas_redimidas(hechas@) == mantisas_disponibles(
                    filas@.take(i as int),
                )
                &&& forall|k: int|
                    0 <= k < hechas@.len() && (#[trigger] hechas@[k]).dinerodigital.mantisa != 0
                        ==> hechas@[k].dinerodigital.escala == pago_monedero.escala
            },
            acot == montos_acotados(pago_monedero, filas@),
            s == escala_maxima(pago_monedero, filas@),
            pago_monedero.escala <= s,
            forall|j: int|
                0 <= j < filas@.len() ==> (#[trigger] filas@[j]).dinerodigitaldisponible.escala <= s,
            acot ==> {
                &&& restante.escala <= s
                &&& 0 <= restante.mantisa
                &&& 0 <= redimido_en_escala(hechas@, s)
                &&& redimido_en_escala(hechas@, s) + en_escala(restante, s) == en_escala(
                    pago_monedero,
                    s,
                )
                &&& redimido_en_escala(hechas@, s) <= disponible_en_escala(filas@.take(i as int), s)
                &&& restante.mantisa > 0 ==> redimido_en_escala(hechas@, s) == disponible_en_escala(
                    filas@.take(i as int),
                    s,
                )
                &&& forall|k: int|
                    0 <= k < hechas@.len() ==> (#[trigger] hechas@[k]).dinerodigital.escala <= s
            },
        decreases n - i,
    {
        assert(filas@.skip(i as int).drop_first() =~= filas@.skip(i + 1));
        let fila = filas[i];
        assert(fila.dinerodigitaldisponible.wf());
        let ghost previo = restante;
        proof {
            assert(fila == filas@[i as int]);
            if exacto {
                lema_menor_por_mantisa(Dinero { mantisa: 0, escala: 0 }, restante);
                lema_menor_por_mantisa(fila.dinerodigitaldisponible, restante);
            }
            if acot {
                lema_menor_por_mantisa(Dinero { mantisa: 0, escala: 0 }, restante);
                lema_menor_en_escala(fila.dinerodigitaldisponible, restante, s);
                lema_en_escala_positiva(restante, s);
                lema_en_escala_positiva(fila.dinerodigitaldisponible, s);
                let f = fila.dinerodigitaldisponible;
                let t = escala_mayor(restante, f);
                if f.mantisa != 0 && en_escala(f, s) < en_escala(restante, s) {
                    lema_en_escala_doble(restante, t, s);
                    lema_en_escala_doble(f, t, s);
                    lema_pot10_positiva((s - t) as nat);
                    let (xr, xf, q) = (en_escala(restante, t), en_escala(f, t), pot10((s - t) as nat));
                    let (vr, vf) = (en_escala(restante, s), en_escala(f, s));
                    assert(0 < xr - xf < limite_64() && (xr - xf) * q == vr - vf) by (nonlinear_arith)
                        requires
                            xr * q == vr,
                            xf * q == vf,
                            q >= 1,
                            0 <= vf < vr < limite_64(),
                    ;
                    assert(alineables(restante, f));
                    assert(-MANTISA_MAXIMA <= en_escala(restante, escala_mayor(restante, f))
                        - en_escala(f, escala_mayor(restante, f)) <= MANTISA_MAXIMA);
                }
            }
        }
        let consumir = minimo(restante, fila.dinerodigitaldisponible);
        match resta(restante, consumir) {
            Some(nuevo) => {
                restante = nuevo;
            },
            None => {
                return None;
            },
        }
        let ghost antes = hechas@;
        hechas.push(Redencion { monederogeneradosid: fila.monederogeneradosid, dinerodigital: consumir });
        proof {
            assert(hechas@.drop_last() =~= antes);
            assert(filas@.take(i + 1).drop_last() =~= filas@.take(i as int));
            assert(filas@.take(i + 1).last() == fila);
            if exacto {
                assert forall|k: int|
                    0 <= k < hechas@.len() && (#[trigger] hechas@[k]).dinerodigital.mantisa != 0
                        implies hechas@[k].dinerodigital.escala == pago_monedero.escala by {
                    if k < antes.len() {
                        assert(hechas@[k] == antes[k]);
                    }
                }
            }
            if acot {
                let f = fila.dinerodigitaldisponible;
                let t = escala_mayor(previo, f);
                assert(hechas@.last().dinerodigital == consumir);
                if f.mantisa != 0 && en_escala(f, s) < en_escala(previo, s) {
                    assert(restante == Dinero {
                        mantisa: (en_escala(previo, t) - en_escala(f, t)) as i128,
                        escala: t,
                    });
                    lema_pot10_positiva((s - t) as nat);
                    assert(en_escala(restante, s) == (en_escala(previo, t) - en_escala(f, t)) * pot10(
                        (s - t) as nat,
                    ));
                    assert(en_escala(restante, s) == en_escala(previo, s) - en_escala(f, s));
                } else if f.mantisa == 0 {
                    assert(restante == previo);
                } else {
                    assert(consumir == previo);
                    assert(restante == Dinero { mantisa: 0, escala: previo.escala });
                    lema_en_escala_positiva(restante, s);
                }
                lema_en_escala_positiva(restante, s);
                lema_en_escala_positiva(consumir, s);
                assert forall|k: int| 0 <= k < hechas@.len() implies (
                #[trigger] hechas@[k]).dinerodigital.escala <= s by {
                    if k < antes.len() {
                        assert(hechas@[k] == antes[k]);
                    }
                }
            }
        }
        proof {
            let resto = redenciones(restante, filas@.skip(i + 1));
            if let Some(rs) = resto {
                assert(hechas@ + rs =~= antes + (seq![
                    Redencion { monederogeneradosid: fila.monederogeneradosid, dinerodigital: consumir },
                ] + rs));
            }
        }
        i = i + 1;
    }
    proof {
        if i == n {
            assert(filas@.skip(n as int).len() == 0);
        }
        assert(hechas@ + Seq::<Redencion>::empty() =~= hechas@);
        lema_redenciones_acotadas(pago_monedero, filas@);
        if exacto {
            lema_menor_por_mantisa(Dinero { mantisa: 0, escala: 0 }, restante);
            lema_disponibles_crecen(pago_monedero, filas@, i as int, n as int);
            assert(filas@.take(n as int) =~= filas@);
        }
        if acot {
            lema_menor_por_mantisa(Dinero { mantisa: 0, escala: 0 }, restante);
            lema_en_escala_positiva(restante, s);
            assert forall|j: int| 0 <= j < filas@.len() implies 0 <= en_escala(
                (#[trigger] filas@[j]).dinerodigitaldisponible,
                s,
            ) by {
                lema_en_escala_positiva(filas@[j].dinerodigitaldisponible, s);
            }
            lema_disponible_en_escala_crece(filas@, s, i as int, n as int);
            assert(filas@.take(n as int) =~= filas@);
        }
    }
    Some(hechas)
}

} // verus!
