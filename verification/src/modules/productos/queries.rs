//! How a product search is carried out: a cascade of queries on the
//! inventory view, from the most exact to the most tolerant.

use crate::identificador::{leer_uuid, uuid_de_texto};
use crate::texto::{entero_de_texto, leer_i32, recortado, recortar};
use vstd::prelude::*;

verus! {

/// The columns that every product query selects.
pub const COLS: &'static str = "nid, id, nombre, esservicio, unidadmedida,\n    ultimoprecioventa, preciocomprapromedio,\n    COALESCE(stock, 0) AS stock,\n    COALESCE(codigobarrasitem, '') AS codigobarrasitem,\n    COALESCE(codigobarrascaja, '') AS codigobarrascaja";

/// One query of the product search cascade.
#[derive(Clone, Copy, Debug)]
pub enum ConsultaProducto {
    /// The text is an integer: the product with that NID (up to 10 rows).
    PorNid(i32),
    /// The text is a UUID: the product with that id (the system's own QR code).
    PorId(u128),
    /// The text is an exact item or box barcode.
    PorCodigoBarras,
    /// Full-text search on the product's search vector, or a name that
    /// contains the text ignoring accents; ordered by similarity.
    TextoCompleto,
    /// Trigram similarity of the name, which tolerates typos.
    Trigramas,
}

/// The first query for a search text: by NID when the trimmed text reads as
/// an `i32`, else by id when it reads as a UUID, else by barcode.
pub open spec fn primera_consulta_de(q: Seq<char>) -> ConsultaProducto {
    let t = recortado(q);
    match entero_de_texto(t) {
        Some(v) if i32::MIN <= v <= i32::MAX => ConsultaProducto::PorNid(v as i32),
        _ => match uuid_de_texto(t) {
            Ok(id) => ConsultaProducto::PorId(id),
            Err(_) => ConsultaProducto::PorCodigoBarras,
        },
    }
}

/// The first query that the product search runs for `q`.
pub fn primera_consulta(q: &str) -> (r: ConsultaProducto)
    ensures
        r == primera_consulta_de(q@),
{
    let t = recortar(q);
    match leer_i32(t) {
        Some(nid) => ConsultaProducto::PorNid(nid),
        None => match leer_uuid(t) {
            Ok(id) => ConsultaProducto::PorId(id),
            Err(_) => ConsultaProducto::PorCodigoBarras,
        },
    }
}

/// What runs after a query: the barcode query falls back to the full-text
/// query, and that one to the trigram query, when they find nothing; every
/// other outcome ends the search.
pub open spec fn siguiente_de(actual: ConsultaProducto, sin_resultados: bool) -> Option<
    ConsultaProducto,
> {
    match actual {
        ConsultaProducto::PorCodigoBarras => if sin_resultados {
            Some(ConsultaProducto::TextoCompleto)
        } else {
            None
        },
        ConsultaProducto::TextoCompleto => if sin_resultados {
            Some(ConsultaProducto::Trigramas)
        } else {
            None
        },
        _ => None,
    }
}

/// A query that found something ends the search: whatever the query, no
/// other runs after it. Only the barcode query and the full-text query fall
/// back, and only when they found nothing: the barcode to the full-text
/// query, the full-text to the trigram query.
pub proof fn ley_resultados_terminan(c: ConsultaProducto)
    ensures
        siguiente_de(c, false) is None,
        siguiente_de(c, true) is Some <==> (c is PorCodigoBarras || c is TextoCompleto),
        c is PorCodigoBarras ==> siguiente_de(c, true) == Some(ConsultaProducto::TextoCompleto),
        c is TextoCompleto ==> siguiente_de(c, true) == Some(ConsultaProducto::Trigramas),
{
}

/// What to run after a query, given whether it found nothing; a query that
/// found something ends the search.
pub fn siguiente_consulta(actual: ConsultaProducto, sin_resultados: bool) -> (r: Option<
    ConsultaProducto,
>)
    ensures
        r == siguiente_de(actual, sin_resultados),
        !sin_resultados ==> r is None,
{
    match actual {
        ConsultaProducto::PorCodigoBarras => if sin_resultados {
            Some(ConsultaProducto::TextoCompleto)
        } else {
            None
        },
        ConsultaProducto::TextoCompleto => if sin_resultados {
            Some(ConsultaProducto::Trigramas)
        } else {
            None
        },
        _ => None,
    }
}

/// The query after `a`, if there is one.
pub open spec fn despues_de(a: Option<ConsultaProducto>, sin_resultados: bool) -> Option<
    ConsultaProducto,
> {
    match a {
        Some(c) => siguiente_de(c, sin_resultados),
        None => None,
    }
}

/// The condition that keeps only products in stock, when asked for.
pub open spec fn condicion_stock(solo_con_stock: bool) -> Seq<char> {
    if solo_con_stock {
        "AND stock > 0"@
    } else {
        Seq::empty()
    }
}

/// The text of a query around the columns and the stock condition.
pub open spec fn partes_sql(c: ConsultaProducto) -> (Seq<char>, Seq<char>) {
    match c {
        ConsultaProducto::PorNid(_) => (" FROM v_inventario WHERE nid = $1 "@, " LIMIT 10"@),
        ConsultaProducto::PorId(_) => (" FROM v_inventario WHERE id = $1 "@, " LIMIT 1"@),
        ConsultaProducto::PorCodigoBarras => (" FROM v_inventario\n         WHERE (codigobarrasitem = $1 OR codigobarrascaja = $1) "@, "\n         LIMIT 1"@),
        ConsultaProducto::TextoCompleto => (" FROM v_inventario v\n         WHERE (\n             v.nid IN (\n                 SELECT DISTINCT nid FROM productos\n                 WHERE search_vector @@ websearch_to_tsquery('spanish', $1)\n             )\n             OR unaccent(v.nombre) ILIKE unaccent($2)\n         )\n         "@, "\n         ORDER BY similarity(lower(unaccent(v.nombre)), lower(unaccent($3))) DESC,\n                  v.nombre\n         LIMIT 20"@),
        ConsultaProducto::Trigramas => (" FROM v_inventario v\n         WHERE v.nid IN (\n             SELECT nid FROM productos\n             WHERE nombre % $1\n             ORDER BY similarity(nombre, $1) DESC\n             LIMIT 20\n         )\n         "@, "\n         ORDER BY similarity(lower(unaccent(v.nombre)), lower(unaccent($1))) DESC\n         LIMIT 20"@),
    }
}

/// The SQL text of a query: `SELECT`, the columns, the query's own text
/// with the stock condition in its place, and its limit.
pub open spec fn sql_de(c: ConsultaProducto, solo_con_stock: bool) -> Seq<char> {
    "SELECT "@ + COLS@ + partes_sql(c).0 + condicion_stock(solo_con_stock) + partes_sql(c).1
}

/// Asking for products in stock adds `AND stock > 0` to every query and
/// changes nothing else in its text.
pub proof fn ley_condicion_stock(c: ConsultaProducto)
    ensures
        exists|antes: Seq<char>, despues: Seq<char>|
            sql_de(c, true) == antes + "AND stock > 0"@ + despues && sql_de(c, false) == antes
                + despues,
{
    let antes = "SELECT "@ + COLS@ + partes_sql(c).0;
    let despues = partes_sql(c).1;
    assert(sql_de(c, false) =~= antes + despues);
    assert(sql_de(c, true) =~= antes + "AND stock > 0"@ + despues);
}

/// The barcode query looks the text up in both barcode columns: the item's
/// and the box's.
pub proof fn ley_codigo_de_barras(solo_con_stock: bool)
    ensures
        exists|antes: Seq<char>, despues: Seq<char>|
            sql_de(ConsultaProducto::PorCodigoBarras, solo_con_stock) == antes
                + "(codigobarrasitem = $1 OR codigobarrascaja = $1)"@ + despues,
{
    reveal_strlit(" FROM v_inventario\n         WHERE (codigobarrasitem = $1 OR codigobarrascaja = $1) ");
    reveal_strlit(" FROM v_inventario\n         WHERE ");
    reveal_strlit("(codigobarrasitem = $1 OR codigobarrascaja = $1)");
    reveal_strlit(" ");
    let medio = "(codigobarrasitem = $1 OR codigobarrascaja = $1)"@;
    let antes = "SELECT "@ + COLS@ + " FROM v_inventario\n         WHERE "@;
    let despues = " "@ + condicion_stock(solo_con_stock) + "\n         LIMIT 1"@;
    assert(partes_sql(ConsultaProducto::PorCodigoBarras).0 =~= " FROM v_inventario\n         WHERE "@
        + medio + " "@);
    assert(sql_de(ConsultaProducto::PorCodigoBarras, solo_con_stock) =~= antes + medio + despues);
}

/// The product search runs at most three queries: after the first, at most
/// two fallbacks follow, whatever each query finds.
pub proof fn ley_cascada_termina(c: ConsultaProducto, vacio1: bool, vacio2: bool, vacio3: bool)
    ensures
        despues_de(despues_de(siguiente_de(c, vacio1), vacio2), vacio3) is None,
{
}

impl ConsultaProducto {
    /// The SQL text of this query; with `solo_con_stock` every query keeps
    /// only products with stock (`AND stock > 0`).
    pub fn sql(&self, solo_con_stock: bool) -> (r: String)
        ensures
            r@ == sql_de(*self, solo_con_stock),
    {
        let (antes, despues) = match self {
            ConsultaProducto::PorNid(_) => (" FROM v_inventario WHERE nid = $1 ", " LIMIT 10"),
            ConsultaProducto::PorId(_) => (" FROM v_inventario WHERE id = $1 ", " LIMIT 1"),
            ConsultaProducto::PorCodigoBarras => (" FROM v_inventario\n         WHERE (codigobarrasitem = $1 OR codigobarrascaja = $1) ", "\n         LIMIT 1"),
            ConsultaProducto::TextoCompleto => (" FROM v_inventario v\n         WHERE (\n             v.nid IN (\n                 SELECT DISTINCT nid FROM productos\n                 WHERE search_vector @@ websearch_to_tsquery('spanish', $1)\n             )\n             OR unaccent(v.nombre) ILIKE unaccent($2)\n         )\n         ", "\n         ORDER BY similarity(lower(unaccent(v.nombre)), lower(unaccent($3))) DESC,\n                  v.nombre\n         LIMIT 20"),
            ConsultaProducto::Trigramas => (" FROM v_inventario v\n         WHERE v.nid IN (\n             SELECT nid FROM productos\n             WHERE nombre % $1\n             ORDER BY similarity(nombre, $1) DESC\n             LIMIT 20\n         )\n         ", "\n         ORDER BY similarity(lower(unaccent(v.nombre)), lower(unaccent($1))) DESC\n         LIMIT 20"),
        };
        let condicion = if solo_con_stock {
            "AND stock > 0"
        } else {
            ""
        };
        proof {
            reveal_strlit("");
        }
        let mut r = String::from_str("SELECT ");
        r.append(COLS);
        r.append(antes);
        r.append(condicion);
        r.append(despues);
        r
    }
}

} // verus!
