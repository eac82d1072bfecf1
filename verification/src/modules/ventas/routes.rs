//! The decisions of the sales endpoints: the exchange rate to report and
//! the date of the listing.

use crate::db::settings::Settings;
use crate::dinero::{decimal_de_texto, desde_texto, Dinero};
use crate::texto::{
    agregar_caracter, agregar_decimal, digito, dos_digitos, en_decimal, recortado, recortar,
};
use vstd::prelude::*;

verus! {

/// A calendar date.
#[derive(Clone, Copy, Debug)]
pub struct Fecha {
    pub anio: i32,
    pub mes: u32,
    pub dia: u32,
}

impl Fecha {
    /// Month and day lie in their ranges.
    pub open spec fn wf(self) -> bool {
        1 <= self.mes <= 12 && 1 <= self.dia <= 31
    }
}

/// `?fecha=` of the sales listing.
#[derive(Debug)]
pub struct VentasQuery {
    pub fecha: Option<Fecha>,
}

/// `n` in decimal, padded with zeros on the left to four digits.
pub open spec fn cuatro_digitos(n: nat) -> Seq<char> {
    let d = en_decimal(n);
    if d.len() < 4 {
        Seq::new((4 - d.len()) as nat, |i: int| '0') + d
    } else {
        d
    }
}

/// The year as `%Y` writes it: four digits from 0 to 9999, otherwise a sign
/// and at least four digits.
pub open spec fn anio_iso(y: int) -> Seq<char> {
    if 0 <= y <= 9999 {
        cuatro_digitos(y as nat)
    } else if y < 0 {
        seq!['-'] + cuatro_digitos((-y) as nat)
    } else {
        seq!['+'] + cuatro_digitos(y as nat)
    }
}

/// The date as `%Y-%m-%d`, the value of a date input.
pub open spec fn fecha_iso(f: Fecha) -> Seq<char> {
    anio_iso(f.anio as int) + seq!['-'] + dos_digitos(f.mes as nat) + seq!['-'] + dos_digitos(
        f.dia as nat,
    )
}

/// Appends `n` padded with zeros to four digits.
fn agregar_cuatro_digitos(s: &mut String, n: u32)
    ensures
        final(s)@ == old(s)@ + cuatro_digitos(n as nat),
{
    let ghost inicial = s@;
    if n < 1000 {
        agregar_caracter(s, '0');
    }
    if n < 100 {
        agregar_caracter(s, '0');
    }
    if n < 10 {
        agregar_caracter(s, '0');
    }
    let ghost ceros = s@.len() - inicial.len();
    agregar_decimal(s, n as u64);
    proof {
        lema_longitud_decimal(n as nat);
        let d = en_decimal(n as nat);
        if d.len() < 4 {
            assert(s@ =~= inicial + (Seq::new((4 - d.len()) as nat, |i: int| '0') + d));
        } else {
            assert(s@ =~= inicial + d);
        }
    }
}

/// The number of decimal digits of `n`.
proof fn lema_longitud_decimal(n: nat)
    ensures
        n < 10 ==> en_decimal(n).len() == 1,
        10 <= n < 100 ==> en_decimal(n).len() == 2,
        100 <= n < 1000 ==> en_decimal(n).len() == 3,
        1000 <= n ==> en_decimal(n).len() >= 4,
    decreases n,
{
    if n >= 10 {
        lema_longitud_decimal(n / 10);
    }
}

impl Fecha {
    /// The date as `%Y-%m-%d`.
    pub fn fecha_iso(&self) -> (r: String)
        requires
            self.wf(),
        ensures
            r@ == fecha_iso(*self),
    {
        let mut r = String::new();
        let y = self.anio;
        if y < 0 {
            agregar_caracter(&mut r, '-');
            let a: u32 = if y == i32::MIN {
                2147483648u32
            } else {
                (-y) as u32
            };
            agregar_cuatro_digitos(&mut r, a);
        } else if y > 9999 {
            agregar_caracter(&mut r, '+');
            agregar_cuatro_digitos(&mut r, y as u32);
        } else {
            agregar_cuatro_digitos(&mut r, y as u32);
        }
        agregar_caracter(&mut r, '-');
        agregar_caracter(&mut r, digito((self.mes / 10) as u8));
        agregar_caracter(&mut r, digito((self.mes % 10) as u8));
        agregar_caracter(&mut r, '-');
        agregar_caracter(&mut r, digito((self.dia / 10) as u8));
        agregar_caracter(&mut r, digito((self.dia % 10) as u8));
        proof {
            assert(r@ =~= fecha_iso(*self));
        }
        r
    }
}

/// Where the reported exchange rate comes from.
#[derive(Clone, Copy, Debug)]
pub enum FuenteTipoCambio {
    Banxico,
    Cache,
}

impl FuenteTipoCambio {
    /// `"banxico"` or `"cache"`.
    pub fn texto(&self) -> (r: &'static str)
        ensures
            r@ == (match self {
                FuenteTipoCambio::Banxico => "banxico"@,
                FuenteTipoCambio::Cache => "cache"@,
            }),
    {
        match self {
            FuenteTipoCambio::Banxico => "banxico",
            FuenteTipoCambio::Cache => "cache",
        }
    }
}

/// The first data point of the first series of the answer, if any.
pub open spec fn primer_dato(series: Seq<Vec<String>>) -> Option<Seq<char>> {
    if series.len() > 0 && series[0]@.len() > 0 {
        Some(series[0]@[0]@)
    } else {
        None
    }
}

/// The rate to report: the first data point of the first series of the
/// exchange rate service, trimmed and read as a decimal, when the service
/// answered with one that reads; otherwise the cached rate.
pub open spec fn tipo_cambio_de(respuesta: Option<Vec<Vec<String>>>, cache: Dinero) -> (Dinero, FuenteTipoCambio) {
    match respuesta {
        Some(series) => match primer_dato(series@) {
            Some(dato) => match decimal_de_texto(recortado(dato)) {
                Ok(tc) => (tc, FuenteTipoCambio::Banxico),
                Err(_) => (cache, FuenteTipoCambio::Cache),
            },
            None => (cache, FuenteTipoCambio::Cache),
        },
        None => (cache, FuenteTipoCambio::Cache),
    }
}

/// `GET /api/tipo-cambio`: given the data series of the exchange rate
/// service (`None` when the request or its decoding failed) and the
/// business parameters, the rate to report and where it comes from. A rate
/// read from the service becomes the new cached rate; nothing else of the
/// parameters changes.
pub fn tipo_cambio(respuesta: &Option<Vec<Vec<String>>>, settings: &mut Settings) -> (r: (
    Dinero,
    FuenteTipoCambio,
))
    requires
        old(settings).tipo_cambio_dolares.wf(),
    ensures
        r == tipo_cambio_de(*respuesta, old(settings).tipo_cambio_dolares),
        r.0.wf(),
        final(settings).tipo_cambio_dolares == r.0,
        final(settings).iva == old(settings).iva,
        final(settings).tasa_comision_tc == old(settings).tasa_comision_tc,
        final(settings).comision_tc_servicio_id == old(settings).comision_tc_servicio_id,
        final(settings).id_cliente_generico == old(settings).id_cliente_generico,
        final(settings).tipo_cambio_monedero == old(settings).tipo_cambio_monedero,
        final(settings).dias_vigencia_monedero == old(settings).dias_vigencia_monedero,
        final(settings).banxico_api_token == old(settings).banxico_api_token,
{
    let cache = settings.tipo_cambio_dolares;
    let r = match respuesta {
        Some(series) => {
            if series.len() > 0 && series[0].len() > 0 {
                let dato = recortar(series[0][0].as_str());
                match desde_texto(dato) {
                    Ok(tc) => (tc, FuenteTipoCambio::Banxico),
                    Err(_) => (cache, FuenteTipoCambio::Cache),
                }
            } else {
                (cache, FuenteTipoCambio::Cache)
            }
        },
        None => (cache, FuenteTipoCambio::Cache),
    };
    settings.tipo_cambio_dolares = r.0;
    r
}

} // verus!
