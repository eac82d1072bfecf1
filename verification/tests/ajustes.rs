use ro_inventario::db::settings::load;
use ro_inventario::error::AppError;
use ro_inventario::modules::ventas::routes::{tipo_cambio, Fecha, FuenteTipoCambio};
use ro_inventario::settings::model::{Hosting, Settings};

fn filas(pares: &[(&str, Option<&str>)]) -> Vec<(String, Option<String>)> {
    pares.iter().map(|(k, v)| (k.to_string(), v.map(|x| x.to_string()))).collect()
}

fn completas() -> Vec<(&'static str, Option<&'static str>)> {
    vec![
        ("IVA", Some("0.16")),
        ("TASA_COMISION_TARJETRA_CREDITO", Some("0.036")),
        ("SERVICIO_COMISION_TARJETRA_CREDITO_ID", Some("67e55044-10b1-426f-9247-bb680e5fe0c8")),
        ("TIPO_CAMBIO_DOLARES", Some("17.25")),
        ("ID_CLIENTE_GENERICO", Some("00000000-0000-0000-0000-000000000001")),
        ("TIPO_CAMBIO_MONEDERO", Some("0.05")),
        ("DIAS_VIGENCIA_MONEDERO", Some("90")),
        ("BANXICO_API_TOKEN", Some("SECRET-REDACTED")),
    ]
}

#[test]
fn carga_de_parametros() {
    let s = load(&filas(&completas())).unwrap();
    assert_eq!((s.iva.mantisa, s.iva.escala), (16, 2));
    assert_eq!((s.tasa_comision_tc.mantisa, s.tasa_comision_tc.escala), (36, 3));
    assert_eq!(s.comision_tc_servicio_id, 0x67e5504410b1426f9247bb680e5fe0c8);
    assert_eq!((s.tipo_cambio_dolares.mantisa, s.tipo_cambio_dolares.escala), (1725, 2));
    assert_eq!(s.id_cliente_generico, 1);
    assert_eq!((s.tipo_cambio_monedero.mantisa, s.tipo_cambio_monedero.escala), (5, 2));
    assert_eq!(s.dias_vigencia_monedero, 90);
    assert_eq!(s.banxico_api_token, "SECRET-REDACTED");
}

fn mensaje(r: Result<ro_inventario::db::settings::Settings, AppError>) -> String {
    match r {
        Err(AppError::Internal(m)) => m,
        _ => panic!("se esperaba un error interno"),
    }
}

#[test]
fn parametro_faltante_o_invalido() {
    let mut p = completas();
    p.remove(3);
    assert_eq!(mensaje(load(&filas(&p))), "Settings: falta la clave 'TIPO_CAMBIO_DOLARES'");
    let mut q = completas();
    q[6] = ("DIAS_VIGENCIA_MONEDERO", None);
    assert_eq!(mensaje(load(&filas(&q))), "Settings: falta la clave 'DIAS_VIGENCIA_MONEDERO'");
    let mut r = completas();
    r[0] = ("IVA", Some("dieciseis"));
    assert!(mensaje(load(&filas(&r))).starts_with("Settings 'IVA': "));
    let mut t = completas();
    t[6] = ("DIAS_VIGENCIA_MONEDERO", Some("noventa"));
    t[4] = ("ID_CLIENTE_GENERICO", Some("no-uuid"));
    assert!(mensaje(load(&filas(&t))).starts_with("Settings 'ID_CLIENTE_GENERICO': "));
    let mut u = completas();
    u.insert(0, ("BANXICO_API_TOKEN", None));
    assert_eq!(mensaje(load(&filas(&u))), "Settings: falta la clave 'BANXICO_API_TOKEN'");
}

#[test]
fn ruta_de_base_de_datos_y_hosting() {
    let s = Settings {
        db: "inventario.db".to_string(),
        hosting: Hosting { protocol: "http".to_string(), ip: "127.0.0.1".to_string(), port: 8080 },
    };
    assert_eq!(s.cnn_str("/srv/app"), "/srv/app/settings/inventario.db");
    assert_eq!(s.cnn_str("/srv/app/"), "/srv/app/settings/inventario.db");
    let abs = Settings { db: "/var/db.sqlite".to_string(), hosting: Hosting { protocol: "https".to_string(), ip: "0.0.0.0".to_string(), port: 0 } };
    assert_eq!(abs.cnn_str("/srv/app"), "/var/db.sqlite");
    assert_eq!(s.hosting.descripcion(), "http://127.0.0.1:8080");
    assert_eq!(abs.hosting.descripcion(), "https://0.0.0.0:0");
}

#[test]
fn fecha_para_el_formulario() {
    assert_eq!(Fecha { anio: 2026, mes: 5, dia: 20 }.fecha_iso(), "2026-05-20");
    assert_eq!(Fecha { anio: 7, mes: 12, dia: 1 }.fecha_iso(), "0007-12-01");
    assert_eq!(Fecha { anio: -44, mes: 3, dia: 15 }.fecha_iso(), "-0044-03-15");
    assert_eq!(Fecha { anio: 12345, mes: 1, dia: 9 }.fecha_iso(), "+12345-01-09");
}

#[test]
fn tipo_de_cambio_con_respaldo() {
    let mut s = load(&filas(&completas())).unwrap();
    let (v, f) = tipo_cambio(&Some(vec![vec!["N/E".to_string()]]), &mut s);
    assert_eq!((v.mantisa, v.escala), (1725, 2));
    assert!(matches!(f, FuenteTipoCambio::Cache));
    let (_, f) = tipo_cambio(&Some(vec![]), &mut s);
    assert_eq!(f.texto(), "cache");
    let (v, f) = tipo_cambio(&Some(vec![vec![" 18.0512 ".to_string(), "17".to_string()]]), &mut s);
    assert_eq!((v.mantisa, v.escala), (180512, 4));
    assert_eq!(f.texto(), "banxico");
    assert_eq!((s.tipo_cambio_dolares.mantisa, s.tipo_cambio_dolares.escala), (180512, 4));
    // A later failure answers the rate that was cached last.
    let (v, f) = tipo_cambio(&None, &mut s);
    assert_eq!(f.texto(), "cache");
    assert_eq!((v.mantisa, v.escala), (180512, 4));
    assert_eq!(s.dias_vigencia_monedero, 90);
    assert_eq!(s.banxico_api_token, "SECRET-REDACTED");
}

#[test]
fn errores_de_la_aplicacion() {
    assert_eq!(AppError::NotFound.codigo_estado(), 404);
    assert_eq!(AppError::NotFound.mensaje(), "No encontrado");
    assert_eq!(AppError::Db("conexión".to_string()).codigo_estado(), 500);
    assert_eq!(AppError::Db("conexión".to_string()).mensaje(), "Error de base de datos: conexión");
    assert_eq!(AppError::Internal("x".to_string()).mensaje(), "Error interno: x");
}
