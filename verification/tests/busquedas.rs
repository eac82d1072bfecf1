use ro_inventario::modules::clientes::queries::{
    normalizar_telefono, parece_telefono, plan_busqueda, BusquedaCliente,
};
use ro_inventario::modules::clientes::routes::BuscarParams as BuscarClientes;
use ro_inventario::modules::productos::queries::{
    primera_consulta, siguiente_consulta, ConsultaProducto, COLS,
};
use ro_inventario::modules::productos::routes::BuscarParams as BuscarProductos;
use ro_inventario::texto::{digitos_de, patron_de_contenido};

#[test]
fn telefono_normalizado_ultimos_diez() {
    assert_eq!(normalizar_telefono("+52 (55) 1234-5678"), "5512345678");
    assert_eq!(normalizar_telefono("55-12-34"), "551234");
    assert_eq!(normalizar_telefono("sin digitos"), "");
    assert_eq!(normalizar_telefono("٣٣ 12"), "12");
}

#[test]
fn parece_telefono_setenta_por_ciento() {
    assert!(!parece_telefono(""));
    assert!(parece_telefono("5512345678"));
    assert!(parece_telefono("1234567abc"));
    assert!(!parece_telefono("123456abcd"));
    assert!(!parece_telefono("Juan Pérez"));
}

#[test]
fn plan_de_busqueda_de_cliente() {
    match plan_busqueda("55 1234 5678") {
        BusquedaCliente::PorTelefono { patron } => assert_eq!(patron, "%5512345678%"),
        _ => panic!("se esperaba una búsqueda por teléfono"),
    }
    match plan_busqueda("Pérez") {
        BusquedaCliente::General { patron } => assert_eq!(patron, "%Pérez%"),
        _ => panic!("se esperaba una búsqueda general"),
    }
}

#[test]
fn consulta_recortada_o_vacia() {
    let p = BuscarClientes { q: Some("  lápiz \n".to_string()) };
    assert_eq!(p.consulta(), Some("lápiz".to_string()));
    assert_eq!(BuscarClientes { q: Some("   ".to_string()) }.consulta(), None);
    assert_eq!(BuscarClientes { q: None }.consulta(), None);
    let q = BuscarProductos { q: Some("\u{3000}goma".to_string()), stock: None };
    assert_eq!(q.consulta(), Some("goma".to_string()));
    assert!(!q.solo_con_stock());
    assert!(BuscarProductos { q: None, stock: Some(true) }.solo_con_stock());
}

#[test]
fn cascada_de_productos() {
    assert!(matches!(primera_consulta(" 123 "), ConsultaProducto::PorNid(123)));
    assert!(matches!(primera_consulta("-7"), ConsultaProducto::PorNid(-7)));
    assert!(matches!(primera_consulta("99999999999"), ConsultaProducto::PorCodigoBarras));
    match primera_consulta("67e55044-10b1-426f-9247-bb680e5fe0c8") {
        ConsultaProducto::PorId(id) => assert_eq!(id, 0x67e5504410b1426f9247bb680e5fe0c8),
        _ => panic!("se esperaba una búsqueda por id"),
    }
    assert!(matches!(primera_consulta("7501031311309X"), ConsultaProducto::PorCodigoBarras));
    assert!(matches!(
        siguiente_consulta(ConsultaProducto::PorCodigoBarras, true),
        Some(ConsultaProducto::TextoCompleto)
    ));
    assert!(matches!(
        siguiente_consulta(ConsultaProducto::TextoCompleto, true),
        Some(ConsultaProducto::Trigramas)
    ));
    assert!(siguiente_consulta(ConsultaProducto::TextoCompleto, false).is_none());
    assert!(siguiente_consulta(ConsultaProducto::Trigramas, true).is_none());
    assert!(siguiente_consulta(ConsultaProducto::PorNid(1), true).is_none());
}

#[test]
fn sql_de_productos_con_y_sin_stock() {
    let c = ConsultaProducto::PorNid(5);
    assert_eq!(
        c.sql(false),
        format!("SELECT {COLS} FROM v_inventario WHERE nid = $1  LIMIT 10")
    );
    assert_eq!(
        c.sql(true),
        format!("SELECT {COLS} FROM v_inventario WHERE nid = $1 AND stock > 0 LIMIT 10")
    );
    assert!(ConsultaProducto::PorId(1).sql(true).ends_with("AND stock > 0 LIMIT 1"));
    assert!(ConsultaProducto::Trigramas.sql(true).contains("AND stock > 0"));
    assert!(!ConsultaProducto::TextoCompleto.sql(false).contains("stock > 0"));
    assert!(ConsultaProducto::TextoCompleto.sql(false).ends_with("v.nombre\n         LIMIT 20"));
}

#[test]
fn patrones_y_digitos() {
    assert_eq!(patron_de_contenido("abc"), "%abc%");
    assert_eq!(digitos_de("a1b2c3"), "123");
}

#[test]
fn normalizar_dos_veces_no_cambia() {
    for t in ["+52 1 (998) 123-4567", "998 12", "", "abc"] {
        let una = normalizar_telefono(t);
        assert_eq!(normalizar_telefono(&una), una);
    }
    assert_eq!(normalizar_telefono("+52 1 (998) 123-4567"), "9981234567");
}

#[test]
fn parecido_a_telefono_al_agregar_y_sin_orden() {
    assert!(parece_telefono("5512a"));
    assert!(parece_telefono("5512a7"));
    assert!(!parece_telefono("55ab"));
    assert!(!parece_telefono("55abc"));
    assert_eq!(parece_telefono("a55512"), parece_telefono("55512a"));
    assert_eq!(parece_telefono("ab5551"), parece_telefono("5a5b51"));
}
