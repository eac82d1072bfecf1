use ro_inventario::dinero::Dinero;
use ro_inventario::modules::ventas::models::{
    FechaHora, LineaPayload, NuevaVentaPayload, ResumenDia, Venta, VentaLinea,
};
use ro_inventario::modules::ventas::queries::{
    agrupar_ventas, balance_monedero, crear_venta, crear_venta_verificada, plan_redencion,
    ventas_del_dia, FilaMonedero, VentaRow,
};
use ro_inventario::db::settings::Settings;
use ro_inventario::error::AppError;
use rust_decimal::Decimal;
use std::collections::HashSet;

fn d(m: i128, s: u32) -> Dinero {
    Dinero::nuevo(m, s).unwrap()
}

fn valor(x: Dinero) -> Decimal {
    Decimal::from_i128_with_scale(x.mantisa, x.escala)
}

fn dec(t: &str) -> Decimal {
    t.parse::<Decimal>().unwrap()
}

fn hora(h: u32, m: u32) -> FechaHora {
    FechaHora { dia: 739000, segundo_del_dia: h * 3600 + m * 60, nanosegundo: 0 }
}

fn linea(cantidad: Dinero, precio: Dinero, trasladado: bool) -> VentaLinea {
    VentaLinea {
        id: 1,
        producto_id: 2,
        nid: 3,
        nombre: "Papel bond carta".to_string(),
        cantidad,
        precio_unitario: precio,
        es_ingreso_trasladado: trasladado,
    }
}

fn venta(id: u128, lineas: Vec<VentaLinea>) -> Venta {
    Venta {
        id,
        fecha_ajuste: hora(9, 5),
        pago: d(0, 0),
        pago_monedero: d(0, 0),
        pago_tarjeta: d(0, 0),
        pago_transferencia: d(0, 0),
        pago_dolares: d(0, 0),
        tipo_cambio_dolares: d(0, 0),
        cambio: d(0, 0),
        cliente_id: None,
        monedero_generado: d(0, 0),
        lineas,
    }
}

#[test]
fn dinero_fuera_de_rango() {
    assert!(Dinero::nuevo(0xFFFF_FFFF_FFFF_FFFF_FFFF_FFFF, 28).is_some());
    assert!(Dinero::nuevo(0x1_0000_0000_0000_0000_0000_0000, 0).is_none());
    assert!(Dinero::nuevo(1, 29).is_none());
}

#[test]
fn total_de_linea_es_cantidad_por_precio() {
    let l = linea(d(200, 2), d(7500, 2), false);
    assert_eq!(valor(l.total()), dec("150"));
    assert_eq!(l.total().mantisa, 1500000);
    assert_eq!(l.total().escala, 4);
}

#[test]
fn total_de_venta_suma_lineas() {
    let v = venta(1, vec![linea(d(2, 0), d(7500, 2), false), linea(d(3, 0), d(1050, 2), true)]);
    assert_eq!(valor(v.total()), dec("181.50"));
    assert_eq!(valor(venta(2, vec![]).total()), dec("0"));
}

#[test]
fn subtotal_desborda() {
    let grande = d(0xFFFF_FFFF_FFFF_FFFF_FFFF_FFFF, 0);
    let l = linea(grande, grande, false);
    assert!(l.subtotal().is_none());
}

#[test]
fn hora_con_dos_digitos() {
    let v = venta(1, vec![]);
    assert_eq!(v.hora(), "09:05");
    let mut w = venta(1, vec![]);
    w.fecha_ajuste = FechaHora { dia: 0, segundo_del_dia: 86399, nanosegundo: 999 };
    assert_eq!(w.hora(), "23:59");
    w.fecha_ajuste = FechaHora { dia: 0, segundo_del_dia: 0, nanosegundo: 0 };
    assert_eq!(w.hora(), "00:00");
}

#[test]
fn resumen_separa_ingresos_trasladados_y_calcula_efectivo() {
    let mut v1 = venta(1, vec![linea(d(2, 0), d(7500, 2), false), linea(d(1, 0), d(3000, 2), true)]);
    v1.pago_tarjeta = d(5000, 2);
    v1.pago_monedero = d(1000, 2);
    let mut v2 = venta(2, vec![linea(d(1, 0), d(20000, 2), false)]);
    v2.pago_transferencia = d(2000, 2);
    v2.pago_dolares = d(10, 0);
    v2.tipo_cambio_dolares = d(1725, 2);
    let r = ResumenDia::from_ventas(&[v1, v2]);
    assert_eq!(valor(r.venta_productos), dec("350"));
    assert_eq!(valor(r.ingresos_trasladados), dec("30"));
    assert_eq!(valor(r.total_monedero), dec("10"));
    assert_eq!(valor(r.total_tarjeta), dec("50"));
    assert_eq!(valor(r.total_transferencia), dec("20"));
    assert_eq!(valor(r.total_dolares), dec("10"));
    assert_eq!(valor(r.total_dolares_en_pesos), dec("172.50"));
    // 350 + 30 - 10 - 50 - 20 - 172.50
    assert_eq!(valor(r.efectivo_en_caja), dec("127.50"));
}

#[test]
fn resumen_de_dia_sin_ventas_es_cero() {
    let r = ResumenDia::from_ventas(&[]);
    assert_eq!(valor(r.venta_productos), dec("0"));
    assert_eq!(valor(r.efectivo_en_caja), dec("0"));
    assert_eq!(valor(r.total_dolares_en_pesos), dec("0"));
}

#[test]
fn resumen_con_desborde_no_existe() {
    let grande = d(0xFFFF_FFFF_FFFF_FFFF_FFFF_FFFF, 0);
    let v = venta(1, vec![linea(grande, d(1, 0), false), linea(grande, d(1, 0), false)]);
    assert!(ResumenDia::try_from_ventas(&[v]).is_none());
}

fn fila(venta_id: u128, linea_id: u128, cantidad: Dinero, precio: Dinero, monedero: Dinero) -> VentaRow {
    VentaRow {
        venta_id,
        fecha_ajuste: hora(10, 30),
        pago: d(10000, 2),
        pago_monedero: d(0, 0),
        pago_tarjeta: d(0, 0),
        pago_transferencia: d(0, 0),
        pago_dolares: d(0, 0),
        tipo_cambio_dolares: d(0, 0),
        cambio: d(0, 0),
        cliente_id: Some(77),
        linea_id,
        producto_id: 5,
        nid: 12,
        nombre: format!("producto {linea_id}"),
        cantidad,
        precio_unitario: precio,
        monedero_linea: monedero,
        es_ingreso_trasladado: false,
    }
}

#[test]
fn agrupar_filas_consecutivas_por_venta() {
    let filas = vec![
        fila(1, 10, d(1, 0), d(500, 2), d(25, 2)),
        fila(1, 11, d(2, 0), d(100, 2), d(10, 2)),
        fila(2, 20, d(1, 0), d(300, 2), d(0, 0)),
        fila(1, 30, d(1, 0), d(100, 2), d(5, 2)),
    ];
    let ventas = agrupar_ventas(&filas).unwrap();
    assert_eq!(ventas.len(), 3);
    assert_eq!(ventas[0].id, 1);
    assert_eq!(ventas[0].lineas.len(), 2);
    assert_eq!(ventas[0].lineas[1].id, 11);
    assert_eq!(ventas[0].lineas[1].nombre, "producto 11");
    assert_eq!(valor(ventas[0].monedero_generado), dec("0.35"));
    assert_eq!(ventas[1].id, 2);
    assert_eq!(ventas[1].lineas.len(), 1);
    assert_eq!(ventas[2].id, 1);
    assert_eq!(ventas[2].cliente_id, Some(77));
    assert_eq!(valor(ventas[2].monedero_generado), dec("0.05"));
    assert!(agrupar_ventas(&vec![]).unwrap().is_empty());
}

#[test]
fn agrupar_monedero_desbordado() {
    let grande = d(0xFFFF_FFFF_FFFF_FFFF_FFFF_FFFF, 0);
    let filas = vec![fila(1, 10, d(1, 0), d(1, 0), grande), fila(1, 11, d(1, 0), d(1, 0), grande)];
    assert!(agrupar_ventas(&filas).is_none());
}

#[test]
fn ventas_del_dia_agrupa_y_resume() {
    let filas = vec![
        fila(1, 10, d(1, 0), d(500, 2), d(25, 2)),
        fila(1, 11, d(2, 0), d(100, 2), d(10, 2)),
        fila(2, 20, d(1, 0), d(300, 2), d(0, 0)),
    ];
    let (ventas, resumen) = ventas_del_dia(&filas).unwrap();
    assert_eq!(ventas.len(), 2);
    assert_eq!(valor(resumen.venta_productos), dec("10"));
    assert_eq!(valor(resumen.efectivo_en_caja), dec("10"));
}

#[test]
fn balance_nunca_negativo() {
    assert_eq!(valor(balance_monedero(d(5000, 2), d(2000, 2)).unwrap()), dec("30"));
    assert_eq!(valor(balance_monedero(d(1000, 2), d(2500, 2)).unwrap()), dec("0"));
    assert_eq!(valor(balance_monedero(d(0, 0), d(0, 0)).unwrap()), dec("0"));
}

fn payload(cliente: Option<u128>, lineas: Vec<LineaPayload>) -> NuevaVentaPayload {
    let total: Decimal = lineas.iter().map(|l| valor(l.cantidad) * valor(l.precio_unitario)).sum();
    NuevaVentaPayload {
        cliente_id: cliente,
        pago: Dinero::nuevo(total.mantissa(), total.scale()).unwrap(),
        pago_monedero: d(0, 0),
        pago_tarjeta: d(0, 0),
        pago_transferencia: d(0, 0),
        pago_dolares: d(0, 0),
        tipo_cambio_dolares: d(0, 0),
        cambio: d(0, 0),
        lineas,
    }
}

fn linea_payload(producto: u128, cantidad: Dinero, precio: Dinero) -> LineaPayload {
    LineaPayload { producto_id: producto, cantidad, precio_unitario: precio, notas: None }
}

fn settings() -> Settings {
    Settings {
        iva: d(16, 2),
        tasa_comision_tc: d(36, 3),
        comision_tc_servicio_id: 9,
        tipo_cambio_dolares: d(1725, 2),
        id_cliente_generico: 8,
        tipo_cambio_monedero: d(5, 2),
        dias_vigencia_monedero: 90,
        banxico_api_token: "SECRET-REDACTED".to_string(),
    }
}

fn error_de_validacion(p: &NuevaVentaPayload) -> String {
    match crear_venta(p, &HashSet::new(), &settings()) {
        Err(AppError::Validacion(m)) => {
            assert_eq!(AppError::Validacion(m.clone()).codigo_estado(), 422);
            m
        }
        _ => panic!("se esperaba un error de validación"),
    }
}

#[test]
fn venta_sin_lineas_es_error() {
    assert_eq!(error_de_validacion(&payload(Some(1), vec![])), "La venta debe tener al menos una línea");
}

#[test]
fn lineas_y_cambio_invalidos() {
    let msg = "Cada línea debe tener cantidad mayor que cero y precio no negativo";
    assert_eq!(error_de_validacion(&payload(None, vec![linea_payload(1, d(0, 0), d(500, 2))])), msg);
    assert_eq!(error_de_validacion(&payload(None, vec![linea_payload(1, d(-1, 0), d(500, 2))])), msg);
    assert_eq!(error_de_validacion(&payload(None, vec![linea_payload(1, d(1, 0), d(-1, 2))])), msg);
    // A free item is fine.
    assert!(crear_venta(&payload(None, vec![linea_payload(1, d(1, 0), d(0, 2))]), &HashSet::new(), &settings()).is_ok());
    let mut p = payload(None, vec![linea_payload(1, d(1, 0), d(500, 2))]);
    p.cambio = d(-100, 2);
    p.pago = d(400, 2);
    assert_eq!(error_de_validacion(&p), "El cambio no puede ser negativo");
}

#[test]
fn reglas_de_los_pagos() {
    let mut p = payload(None, vec![linea_payload(1, d(2, 0), d(7500, 2))]);
    p.pago = d(14000, 2);
    p.pago_monedero = d(1000, 2);
    assert_eq!(error_de_validacion(&p), "El pago con monedero requiere un cliente");

    let mut q = payload(None, vec![linea_payload(1, d(2, 0), d(7500, 2))]);
    q.pago = d(0, 0);
    q.pago_tarjeta = d(20000, 2);
    q.cambio = d(5000, 2);
    assert_eq!(error_de_validacion(&q), "Solo efectivo y dólares pueden dar cambio");

    // Cash with change is fine: 200 paid, 50 back, for 150.
    let mut r = payload(None, vec![linea_payload(1, d(2, 0), d(7500, 2))]);
    r.pago = d(20000, 2);
    r.cambio = d(5000, 2);
    assert!(crear_venta(&r, &HashSet::new(), &settings()).is_ok());

    // Dollars at the exchange rate: 10 USD * 15.00 = 150.
    let mut u = payload(None, vec![linea_payload(1, d(2, 0), d(7500, 2))]);
    u.pago = d(0, 0);
    u.pago_dolares = d(10, 0);
    u.tipo_cambio_dolares = d(1500, 2);
    assert!(crear_venta(&u, &HashSet::new(), &settings()).is_ok());

    // Within one cent passes; two cents short does not.
    let mut c = payload(None, vec![linea_payload(1, d(2, 0), d(7500, 2))]);
    c.pago = d(14999, 2);
    assert!(crear_venta(&c, &HashSet::new(), &settings()).is_ok());
    c.pago = d(15001, 2);
    assert!(crear_venta(&c, &HashSet::new(), &settings()).is_ok());
    c.pago = d(14998, 2);
    assert_eq!(error_de_validacion(&c), "La suma de los pagos no coincide con el total de la venta");
    c.pago = d(15002, 2);
    assert_eq!(error_de_validacion(&c), "La suma de los pagos no coincide con el total de la venta");
}

#[test]
fn monedero_por_linea_con_cliente() {
    let mut trasladados = HashSet::new();
    trasladados.insert(200u128);
    let p = payload(
        Some(1),
        vec![linea_payload(100, d(2, 0), d(7500, 2)), linea_payload(200, d(1, 0), d(3000, 2))],
    );
    let plan = crear_venta(&p, &trasladados, &settings()).unwrap();
    assert_eq!(plan.monedero_por_linea.len(), 2);
    assert_eq!(valor(plan.monedero_por_linea[0].unwrap()), dec("7.50"));
    assert!(plan.monedero_por_linea[1].is_none());
    assert!(!plan.redimir_monedero);
    let por_verificar = crear_venta_verificada(&p, &trasladados, &settings()).unwrap().unwrap();
    assert_eq!(valor(por_verificar.monedero_por_linea[0].unwrap()), dec("7.50"));
    assert!(por_verificar.monedero_por_linea[1].is_none());
}

#[test]
fn sin_cliente_no_hay_monedero() {
    let p = payload(None, vec![linea_payload(100, d(2, 0), d(7500, 2))]);
    let plan = crear_venta(&p, &HashSet::new(), &settings()).unwrap();
    assert!(plan.monedero_por_linea[0].is_none());
    assert!(!plan.redimir_monedero);
    let mut q = payload(Some(3), vec![linea_payload(100, d(2, 0), d(7500, 2))]);
    q.pago = d(14000, 2);
    q.pago_monedero = d(1000, 2);
    assert!(crear_venta(&q, &HashSet::new(), &settings()).unwrap().redimir_monedero);
}

#[test]
fn plan_de_venta_con_desborde() {
    let grande = d(0xFFFF_FFFF_FFFF_FFFF_FFFF_FFFF, 0);
    let mut s = settings();
    s.tipo_cambio_monedero = d(2, 0);
    let p = payload(Some(1), vec![linea_payload(100, grande, d(1, 0))]);
    assert!(crear_venta_verificada(&p, &HashSet::new(), &s).is_none());
    let q = payload(None, vec![linea_payload(100, grande, d(1, 0))]);
    assert!(matches!(crear_venta_verificada(&q, &HashSet::new(), &s), Some(Ok(_))));
    // An invalid sale is refused even when its wallet money would overflow.
    let mut r = payload(Some(1), vec![linea_payload(100, grande, d(1, 0))]);
    r.cambio = d(-1, 0);
    assert!(matches!(crear_venta_verificada(&r, &HashSet::new(), &s), Some(Err(AppError::Validacion(_)))));
}

#[test]
fn redencion_consume_lo_mas_antiguo_primero() {
    let filas = vec![
        FilaMonedero { monederogeneradosid: 1, dinerodigitaldisponible: d(500, 2) },
        FilaMonedero { monederogeneradosid: 2, dinerodigitaldisponible: d(1000, 2) },
        FilaMonedero { monederogeneradosid: 3, dinerodigitaldisponible: d(800, 2) },
    ];
    let r = plan_redencion(d(1200, 2), &filas).unwrap();
    assert_eq!(r.len(), 2);
    assert_eq!(r[0].monederogeneradosid, 1);
    assert_eq!(valor(r[0].dinerodigital), dec("5"));
    assert_eq!(r[1].monederogeneradosid, 2);
    assert_eq!(valor(r[1].dinerodigital), dec("7"));
}

#[test]
fn redencion_sin_saldo_suficiente_y_sin_pago() {
    let filas = vec![FilaMonedero { monederogeneradosid: 4, dinerodigitaldisponible: d(300, 2) }];
    let r = plan_redencion(d(1000, 2), &filas).unwrap();
    assert_eq!(r.len(), 1);
    assert_eq!(valor(r[0].dinerodigital), dec("3"));
    assert!(plan_redencion(d(0, 0), &filas).unwrap().is_empty());
    assert!(plan_redencion(d(1000, 2), &vec![]).unwrap().is_empty());
}

#[test]
fn redencion_suma_exactamente_el_pago() {
    let filas = vec![
        FilaMonedero { monederogeneradosid: 7, dinerodigitaldisponible: d(0, 0) },
        FilaMonedero { monederogeneradosid: 8, dinerodigitaldisponible: d(333, 2) },
        FilaMonedero { monederogeneradosid: 9, dinerodigitaldisponible: d(10000, 2) },
    ];
    let r = plan_redencion(d(1001, 2), &filas).unwrap();
    assert_eq!(r.len(), 3);
    assert_eq!(valor(r[0].dinerodigital), dec("0"));
    let total: Decimal = r.iter().map(|x| valor(x.dinerodigital)).sum();
    assert_eq!(total, dec("10.01"));
}

#[test]
fn productos_e_ingresos_suman_todas_las_lineas() {
    let lineas_1 = vec![
        linea(d(3, 0), d(1999, 2), false),
        linea(d(1, 0), d(4550, 2), true),
        linea(d(0, 0), d(100, 2), true),
    ];
    let lineas_2 = vec![linea(d(2, 0), d(125, 2), false), linea(d(5, 0), d(1001, 2), true)];
    let total: Decimal = lineas_1
        .iter()
        .chain(lineas_2.iter())
        .map(|l| valor(l.cantidad) * valor(l.precio_unitario))
        .sum();
    let r = ResumenDia::from_ventas(&[venta(1, lineas_1), venta(2, lineas_2)]);
    assert_eq!(valor(r.venta_productos), dec("62.47"));
    assert_eq!(valor(r.ingresos_trasladados), dec("95.55"));
    assert_eq!(valor(r.venta_productos) + valor(r.ingresos_trasladados), total);
    assert_eq!(r.venta_productos.escala, 2);
}

#[test]
fn redencion_con_escalas_mezcladas_suma_el_pago() {
    let filas = vec![
        FilaMonedero { monederogeneradosid: 1, dinerodigitaldisponible: d(3, 0) },
        FilaMonedero { monederogeneradosid: 2, dinerodigitaldisponible: d(225, 2) },
        FilaMonedero { monederogeneradosid: 3, dinerodigitaldisponible: d(10000, 3) },
    ];
    let r = plan_redencion(d(105, 1), &filas).unwrap();
    assert_eq!(r.len(), 3);
    let total: Decimal = r.iter().map(|x| valor(x.dinerodigital)).sum();
    assert_eq!(total, dec("10.5"));
    assert_eq!(valor(r[2].dinerodigital), dec("5.25"));
    // Not enough in the rows: all of it is taken.
    let r = plan_redencion(d(2000, 2), &filas).unwrap();
    let total: Decimal = r.iter().map(|x| valor(x.dinerodigital)).sum();
    assert_eq!(total, dec("15.25"));
}

#[test]
fn productos_e_ingresos_con_escalas_mezcladas() {
    let v1 = venta(1, vec![linea(d(5, 1), d(1000, 2), false), linea(d(2, 0), d(125, 2), true)]);
    let v2 = venta(2, vec![linea(d(1250, 3), d(8, 0), false)]);
    let totales = valor(v1.total()) + valor(v2.total());
    let r = ResumenDia::from_ventas(&[v1, v2]);
    assert_eq!(valor(r.venta_productos), dec("15"));
    assert_eq!(valor(r.ingresos_trasladados), dec("2.50"));
    assert_eq!(valor(r.venta_productos) + valor(r.ingresos_trasladados), totales);
}

fn campos(r: &ResumenDia) -> Vec<Decimal> {
    vec![
        valor(r.venta_productos),
        valor(r.ingresos_trasladados),
        valor(r.efectivo_en_caja),
        valor(r.total_monedero),
        valor(r.total_tarjeta),
        valor(r.total_transferencia),
        valor(r.total_dolares),
        valor(r.total_dolares_en_pesos),
    ]
}

fn ventas_de_prueba() -> (Venta, Venta) {
    let mut v1 = venta(1, vec![linea(d(5, 1), d(1000, 2), false), linea(d(2, 0), d(125, 2), true)]);
    v1.pago_tarjeta = d(3, 0);
    v1.pago_monedero = d(150, 2);
    let mut v2 = venta(2, vec![linea(d(1250, 3), d(8, 0), false)]);
    v2.pago_transferencia = d(25, 1);
    v2.pago_dolares = d(2, 0);
    v2.tipo_cambio_dolares = d(17125, 3);
    (v1, v2)
}

#[test]
fn resumen_exacto_con_escalas_mezcladas() {
    let (v1, v2) = ventas_de_prueba();
    let r = ResumenDia::try_from_ventas(&[v1, v2]).unwrap();
    assert_eq!(valor(r.total_dolares_en_pesos), dec("34.25"));
    // 15 + 2.50 - 1.50 - 3 - 2.5 - 34.25
    assert_eq!(valor(r.efectivo_en_caja), dec("-23.75"));
    assert_eq!(
        valor(r.efectivo_en_caja),
        valor(r.venta_productos) + valor(r.ingresos_trasladados) - valor(r.total_monedero)
            - valor(r.total_tarjeta) - valor(r.total_transferencia) - valor(r.total_dolares_en_pesos)
    );
}

#[test]
fn resumen_de_listas_unidas_y_reordenadas() {
    let (v1, v2) = ventas_de_prueba();
    let (w1, w2) = ventas_de_prueba();
    let (x1, x2) = ventas_de_prueba();
    let ab = ResumenDia::from_ventas(&[v1, v2]);
    let ba = ResumenDia::from_ventas(&[w2, w1]);
    let a = ResumenDia::from_ventas(&[x1]);
    let b = ResumenDia::from_ventas(&[x2]);
    assert_eq!(campos(&ab), campos(&ba));
    let sumados: Vec<Decimal> = campos(&a).iter().zip(campos(&b).iter()).map(|(p, q)| p + q).collect();
    assert_eq!(campos(&ab), sumados);
}

#[test]
fn resumen_ignora_ids_nombres_y_cliente() {
    let (v1, v2) = ventas_de_prueba();
    let (mut w1, mut w2) = ventas_de_prueba();
    w1.id = 99;
    w1.cliente_id = Some(7);
    w1.pago = d(123456, 2);
    w1.cambio = d(1, 0);
    w2.monedero_generado = d(5, 0);
    w2.lineas[0].nombre = "Otro".to_string();
    w2.lineas[0].nid = 42;
    w2.lineas[0].producto_id = 1234;
    let r = ResumenDia::from_ventas(&[v1, v2]);
    let s = ResumenDia::from_ventas(&[w1, w2]);
    assert_eq!(campos(&r), campos(&s));
}

#[test]
fn totales_de_venta_suman_productos_e_ingresos() {
    let (v1, v2) = ventas_de_prueba();
    assert_eq!(valor(v1.total()), dec("7.50"));
    assert_eq!(valor(v2.total()), dec("10"));
    let totales = valor(v1.total()) + valor(v2.total());
    let r = ResumenDia::from_ventas(&[v1, v2]);
    assert_eq!(valor(r.venta_productos) + valor(r.ingresos_trasladados), totales);
}
