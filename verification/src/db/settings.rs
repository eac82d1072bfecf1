//! The business parameters, read once at start-up from the `settings`
//! table (key, value).

use crate::dinero::{decimal_de_texto, desde_texto, Dinero};
use crate::error::AppError;
use crate::identificador::{leer_uuid, uuid_de_texto};
use crate::texto::{i64_de_texto, leer_i64};
use vstd::prelude::*;

verus! {

/// The business parameters.
#[derive(Debug)]
pub struct Settings {
    /// VAT applied to the card commission.
    pub iva: Dinero,
    /// Credit card commission rate.
    pub tasa_comision_tc: Dinero,
    /// The product that stands for the card commission line in the cart.
    pub comision_tc_servicio_id: u128,
    /// The cached USD to MXN exchange rate.
    pub tipo_cambio_dolares: Dinero,
    /// The generic customer of sales without a registered customer.
    pub id_cliente_generico: u128,
    /// The rate at which sales generate wallet money.
    pub tipo_cambio_monedero: Dinero,
    /// How many days generated wallet money stays valid.
    pub dias_vigencia_monedero: i64,
    /// The token of the exchange rate service.
    pub banxico_api_token: String,
}

/// The value of the first row whose key is `clave`: `Some(None)` when that
/// row has no value, `None` when no row has the key.
pub open spec fn valor_de_clave(filas: Seq<(String, Option<String>)>, clave: Seq<char>) -> Option<
    Option<Seq<char>>,
>
    decreases filas.len(),
{
    if filas.len() == 0 {
        None
    } else if filas[0].0@ == clave {
        Some(
            match filas[0].1 {
                Some(v) => Some(v@),
                None => None,
            },
        )
    } else {
        valor_de_clave(filas.drop_first(), clave)
    }
}

/// The message of a missing parameter.
pub open spec fn mensaje_falta(clave: Seq<char>) -> Seq<char> {
    "Settings: falta la clave '"@ + clave + "'"@
}

/// The message of a parameter whose value does not parse.
pub open spec fn mensaje_invalido(clave: Seq<char>, error: Seq<char>) -> Seq<char> {
    "Settings '"@ + clave + "': "@ + error
}

/// The text of parameter `clave`, or the message of its absence.
pub open spec fn lectura_texto(filas: Seq<(String, Option<String>)>, clave: Seq<char>) -> Result<
    Seq<char>,
    Seq<char>,
> {
    match valor_de_clave(filas, clave) {
        Some(Some(v)) => Ok(v),
        _ => Err(mensaje_falta(clave)),
    }
}

/// Parameter `clave` read as a decimal, or the message of why it cannot be.
pub open spec fn lectura_decimal(filas: Seq<(String, Option<String>)>, clave: Seq<char>) -> Result<
    Dinero,
    Seq<char>,
> {
    match lectura_texto(filas, clave) {
        Ok(v) => match decimal_de_texto(v) {
            Ok(d) => Ok(d),
            Err(e) => Err(mensaje_invalido(clave, e)),
        },
        Err(m) => Err(m),
    }
}

/// Parameter `clave` read as a UUID, or the message of why it cannot be.
pub open spec fn lectura_uuid(filas: Seq<(String, Option<String>)>, clave: Seq<char>) -> Result<
    u128,
    Seq<char>,
> {
    match lectura_texto(filas, clave) {
        Ok(v) => match uuid_de_texto(v) {
            Ok(d) => Ok(d),
            Err(e) => Err(mensaje_invalido(clave, e)),
        },
        Err(m) => Err(m),
    }
}

/// Parameter `clave` read as an `i64`, or the message of why it cannot be.
pub open spec fn lectura_i64(filas: Seq<(String, Option<String>)>, clave: Seq<char>) -> Result<
    i64,
    Seq<char>,
> {
    match lectura_texto(filas, clave) {
        Ok(v) => match i64_de_texto(v) {
            Ok(d) => Ok(d),
            Err(e) => Err(mensaje_invalido(clave, e)),
        },
        Err(m) => Err(m),
    }
}

/// The message of a failed read, if any.
pub open spec fn error_de<T>(r: Result<T, Seq<char>>) -> Option<Seq<char>> {
    match r {
        Ok(_) => None,
        Err(m) => Some(m),
    }
}

/// The message of the first parameter, in the order of the fields of
/// `Settings`, that is missing or does not parse.
pub open spec fn primer_error(filas: Seq<(String, Option<String>)>) -> Option<Seq<char>> {
    let e = seq![
        error_de(lectura_decimal(filas, "IVA"@)),
        error_de(lectura_decimal(filas, "TASA_COMISION_TARJETRA_CREDITO"@)),
        error_de(lectura_uuid(filas, "SERVICIO_COMISION_TARJETRA_CREDITO_ID"@)),
        error_de(lectura_decimal(filas, "TIPO_CAMBIO_DOLARES"@)),
        error_de(lectura_uuid(filas, "ID_CLIENTE_GENERICO"@)),
        error_de(lectura_decimal(filas, "TIPO_CAMBIO_MONEDERO"@)),
        error_de(lectura_i64(filas, "DIAS_VIGENCIA_MONEDERO"@)),
        error_de(lectura_texto(filas, "BANXICO_API_TOKEN"@)),
    ];
    if e[0] is Some {
        e[0]
    } else if e[1] is Some {
        e[1]
    } else if e[2] is Some {
        e[2]
    } else if e[3] is Some {
        e[3]
    } else if e[4] is Some {
        e[4]
    } else if e[5] is Some {
        e[5]
    } else if e[6] is Some {
        e[6]
    } else {
        e[7]
    }
}

/// The value of the first row whose key is `clave`, or the message of its
/// absence.
fn obtener(filas: &Vec<(String, Option<String>)>, clave: &str) -> (r: Result<String, String>)
    ensures
        match r {
            Ok(v) => lectura_texto(filas@, clave@) == Ok::<Seq<char>, Seq<char>>(v@),
            Err(m) => lectura_texto(filas@, clave@) == Err::<Seq<char>, Seq<char>>(m@),
        },
{
    let buscada = String::from_str(clave);
    let n = filas.len();
    let mut i: usize = 0;
    assert(filas@.skip(0) =~= filas@);
    while i < n
        invariant
            n == filas@.len(),
            i <= n,
            buscada@ == clave@,
            valor_de_clave(filas@, clave@) == valor_de_clave(filas@.skip(i as int), clave@),
        decreases n - i,
    {
        assert(filas@.skip(i as int).drop_first() =~= filas@.skip(i + 1));
        if filas[i].0 == buscada {
            return match &filas[i].1 {
                Some(v) => Ok(v.clone()),
                None => Err(mensaje_faltante(clave)),
            };
        }
        i = i + 1;
    }
    Err(mensaje_faltante(clave))
}

/// `Settings: falta la clave '<clave>'`.
fn mensaje_faltante(clave: &str) -> (r: String)
    ensures
        r@ == mensaje_falta(clave@),
{
    let mut m = String::from_str("Settings: falta la clave '");
    m.append(clave);
    m.append("'");
    m
}

/// `Settings '<clave>': <error>`.
fn mensaje_no_valido(clave: &str, error: &str) -> (r: String)
    ensures
        r@ == mensaje_invalido(clave@, error@),
{
    let mut m = String::from_str("Settings '");
    m.append(clave);
    m.append("': ");
    m.append(error);
    m
}

/// Parameter `clave` read as a decimal.
fn obtener_decimal(filas: &Vec<(String, Option<String>)>, clave: &str) -> (r: Result<Dinero, String>)
    ensures
        match r {
            Ok(v) => lectura_decimal(filas@, clave@) == Ok::<Dinero, Seq<char>>(v) && v.wf(),
            Err(m) => lectura_decimal(filas@, clave@) == Err::<Dinero, Seq<char>>(m@),
        },
{
    match obtener(filas, clave) {
        Ok(v) => match desde_texto(v.as_str()) {
            Ok(d) => Ok(d),
            Err(e) => Err(mensaje_no_valido(clave, e.as_str())),
        },
        Err(m) => Err(m),
    }
}

/// Parameter `clave` read as a UUID.
fn obtener_uuid(filas: &Vec<(String, Option<String>)>, clave: &str) -> (r: Result<u128, String>)
    ensures
        match r {
            Ok(v) => lectura_uuid(filas@, clave@) == Ok::<u128, Seq<char>>(v),
            Err(m) => lectura_uuid(filas@, clave@) == Err::<u128, Seq<char>>(m@),
        },
{
    match obtener(filas, clave) {
        Ok(v) => match leer_uuid(v.as_str()) {
            Ok(d) => Ok(d),
            Err(e) => Err(mensaje_no_valido(clave, e.as_str())),
        },
        Err(m) => Err(m),
    }
}

/// Parameter `clave` read as an `i64`.
fn obtener_i64(filas: &Vec<(String, Option<String>)>, clave: &str) -> (r: Result<i64, String>)
    ensures
        match r {
            Ok(v) => lectura_i64(filas@, clave@) == Ok::<i64, Seq<char>>(v),
            Err(m) => lectura_i64(filas@, clave@) == Err::<i64, Seq<char>>(m@),
        },
{
    match obtener(filas, clave) {
        Ok(v) => match leer_i64(v.as_str()) {
            Ok(d) => Ok(d),
            Err(e) => Err(mensaje_no_valido(clave, e.as_str())),
        },
        Err(m) => Err(m),
    }
}

/// Builds the business parameters from the (key, value) rows of the
/// `settings` table. Each parameter is the value of the first row with its
/// key; the first parameter, in field order, that is missing, has no value
/// or does not parse makes the whole load fail with an internal error that
/// names it.
pub fn load(filas: &Vec<(String, Option<String>)>) -> (r: Result<Settings, AppError>)
    ensures
        r is Ok <==> primer_error(filas@) is None,
        r matches Err(e) ==> (e matches AppError::Internal(m) && primer_error(filas@) == Some(m@)),
        r matches Ok(s) ==> {
            &&& s.iva.wf() && s.tasa_comision_tc.wf() && s.tipo_cambio_dolares.wf()
            &&& s.tipo_cambio_monedero.wf()
            &&& lectura_decimal(filas@, "IVA"@) == Ok::<Dinero, Seq<char>>(s.iva)
            &&& lectura_decimal(filas@, "TASA_COMISION_TARJETRA_CREDITO"@) == Ok::<
                Dinero,
                Seq<char>,
            >(s.tasa_comision_tc)
            &&& lectura_uuid(filas@, "SERVICIO_COMISION_TARJETRA_CREDITO_ID"@) == Ok::<
                u128,
                Seq<char>,
            >(s.comision_tc_servicio_id)
            &&& lectura_decimal(filas@, "TIPO_CAMBIO_DOLARES"@) == Ok::<Dinero, Seq<char>>(
                s.tipo_cambio_dolares,
            )
            &&& lectura_uuid(filas@, "ID_CLIENTE_GENERICO"@) == Ok::<u128, Seq<char>>(
                s.id_cliente_generico,
            )
            &&& lectura_decimal(filas@, "TIPO_CAMBIO_MONEDERO"@) == Ok::<Dinero, Seq<char>>(
                s.tipo_cambio_monedero,
            )
            &&& lectura_i64(filas@, "DIAS_VIGENCIA_MONEDERO"@) == Ok::<i64, Seq<char>>(
                s.dias_vigencia_monedero,
            )
            &&& lectura_texto(filas@, "BANXICO_API_TOKEN"@) == Ok::<Seq<char>, Seq<char>>(
                s.banxico_api_token@,
            )
        },
{
    let iva = match obtener_decimal(filas, "IVA") {
        Ok(v) => v,
        Err(m) => return Err(AppError::Internal(m)),
    };
    let tasa_comision_tc = match obtener_decimal(filas, "TASA_COMISION_TARJETRA_CREDITO") {
        Ok(v) => v,
        Err(m) => return Err(AppError::Internal(m)),
    };
    let comision_tc_servicio_id = match obtener_uuid(filas, "SERVICIO_COMISION_TARJETRA_CREDITO_ID") {
        Ok(v) => v,
        Err(m) => return Err(AppError::Internal(m)),
    };
    let tipo_cambio_dolares = match obtener_decimal(filas, "TIPO_CAMBIO_DOLARES") {
        Ok(v) => v,
        Err(m) => return Err(AppError::Internal(m)),
    };
    let id_cliente_generico = match obtener_uuid(filas, "ID_CLIENTE_GENERICO") {
        Ok(v) => v,
        Err(m) => return Err(AppError::Internal(m)),
    };
    let tipo_cambio_monedero = match obtener_decimal(filas, "TIPO_CAMBIO_MONEDERO") {
        Ok(v) => v,
        Err(m) => return Err(AppError::Internal(m)),
    };
    let dias_vigencia_monedero = match obtener_i64(filas, "DIAS_VIGENCIA_MONEDERO") {
        Ok(v) => v,
        Err(m) => return Err(AppError::Internal(m)),
    };
    let banxico_api_token = match obtener(filas, "BANXICO_API_TOKEN") {
        Ok(v) => v,
        Err(m) => return Err(AppError::Internal(m)),
    };
    Ok(
        Settings {
            iva,
            tasa_comision_tc,
            comision_tc_servicio_id,
            tipo_cambio_dolares,
            id_cliente_generico,
            tipo_cambio_monedero,
            dias_vigencia_monedero,
            banxico_api_token,
        },
    )
}

} // verus!
