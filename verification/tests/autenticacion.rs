use ro_inventario::app_state::{AppState, IdentityError};
use ro_inventario::auth::backend::{
    authenticate, get_user, verify_hmac_sha512, Credentials, FilaCredenciales, FilaUsuario, User,
};
use ro_inventario::auth::routes::{login_get, login_post, logout, RespuestaLogin};
use ro_inventario::controllers::account_controller::{submit, RespuestaSubmit};
use ro_inventario::error::AppError;
use ro_inventario::models::account_models::{LoginModel, Validate};
use ro_inventario::repos::users_repo::UserEntity;

const HMAC_ESPERADO: [u8; 64] = [
    183, 195, 1, 107, 139, 124, 155, 1, 41, 168, 249, 189, 75, 161, 157, 50, 208, 181, 218, 31,
    61, 211, 162, 70, 193, 110, 24, 129, 29, 95, 154, 64, 239, 121, 51, 13, 122, 155, 61, 188, 87,
    168, 34, 66, 86, 241, 212, 127, 227, 177, 152, 33, 39, 63, 102, 35, 224, 147, 180, 208, 141,
    30, 121, 164,
];

const PBKDF2_ESPERADO: [u8; 64] = [
    216, 85, 81, 100, 86, 90, 49, 174, 230, 131, 84, 183, 35, 94, 81, 59, 226, 232, 158, 251, 74,
    214, 156, 199, 156, 4, 182, 74, 23, 155, 49, 214, 233, 133, 84, 176, 124, 33, 86, 17, 117, 194,
    196, 11, 82, 155, 144, 237, 7, 39, 108, 253, 135, 83, 239, 0, 129, 109, 43, 128, 56, 254, 205,
    73,
];

#[test]
fn hmac_sha512_verifica() {
    assert!(verify_hmac_sha512("contraseña", &HMAC_ESPERADO, b"sal"));
    assert!(!verify_hmac_sha512("contrasena", &HMAC_ESPERADO, b"sal"));
    assert!(!verify_hmac_sha512("contraseña", &HMAC_ESPERADO, b"otra"));
    assert!(!verify_hmac_sha512("contraseña", &HMAC_ESPERADO[..63], b"sal"));
}

fn fila(activa: Option<bool>) -> FilaCredenciales {
    FilaCredenciales {
        id: 42,
        email: "caja@papeleria.mx".to_string(),
        isactive: activa,
        essocio: true,
        passwordhash: HMAC_ESPERADO.to_vec(),
        passwordsalt: b"sal".to_vec(),
    }
}

#[test]
fn autenticacion_de_usuario() {
    let buenas = Credentials { email: "caja@papeleria.mx".to_string(), password: "contraseña".to_string() };
    let malas = Credentials { email: "caja@papeleria.mx".to_string(), password: "x".to_string() };
    let u = authenticate(Some(fila(Some(true))), &buenas).unwrap();
    assert_eq!(u.id, 42);
    assert_eq!(u.email, "caja@papeleria.mx");
    assert!(u.is_active);
    assert!(u.es_socio);
    assert!(authenticate(Some(fila(Some(true))), &malas).is_none());
    assert!(authenticate(Some(fila(Some(false))), &buenas).is_none());
    assert!(authenticate(Some(fila(None)), &buenas).is_none());
    assert!(authenticate(None, &buenas).is_none());
}

#[test]
fn usuario_de_sesion() {
    let f = FilaUsuario { id: 7, email: "a@b.mx".to_string(), isactive: None, essocio: false };
    let u = get_user(Some(f)).unwrap();
    assert_eq!(u.id(), 7);
    assert!(!u.is_active);
    assert_eq!(u.session_auth_hash(), b"a@b.mx");
    assert!(get_user(None).is_none());
}

fn usuario() -> User {
    User { id: 1, email: "x@y.mx".to_string(), is_active: true, es_socio: false }
}

#[test]
fn respuestas_de_login() {
    assert!(matches!(login_get(true), RespuestaLogin::Redirigir(u) if u == "/ventas"));
    assert!(matches!(login_get(false), RespuestaLogin::Formulario(None)));
    assert!(matches!(login_post(&Ok(Some(usuario()))), RespuestaLogin::Redirigir(u) if u == "/ventas"));
    assert!(matches!(login_post(&Ok(None)),
        RespuestaLogin::Formulario(Some(m)) if m == "Correo o contraseña incorrectos."));
    assert!(matches!(login_post(&Err(AppError::NotFound)),
        RespuestaLogin::Formulario(Some(m)) if m == "Error interno. Intenta de nuevo."));
    assert_eq!(logout(), "/login");
}

#[test]
fn envio_de_formulario() {
    assert!(matches!(submit(true, true), RespuestaSubmit::Redirigir(u) if u == "/home/index"));
    assert!(matches!(submit(true, false), RespuestaSubmit::Formulario(m) if m == "Su contraseña es incorrecta"));
    assert!(matches!(submit(false, true), RespuestaSubmit::Formulario(_)));
}

#[test]
fn pbkdf2_verifica() {
    assert!(UserEntity::verify_password_hash("secreto123", &PBKDF2_ESPERADO, b"salt"));
    assert!(!UserEntity::verify_password_hash("secreto124", &PBKDF2_ESPERADO, b"salt"));
    assert!(!UserEntity::verify_password_hash("secreto123", &PBKDF2_ESPERADO[..32], b"salt"));
}

#[test]
fn acceso_de_usuario() {
    let activo = UserEntity {
        id: "u-1".to_string(),
        email: "a@b.mx".to_string(),
        date_created: "2024-01-01".to_string(),
        is_active: true,
    };
    assert_eq!(UserEntity::id_a_verificar(&Some(activo)), Some("u-1".to_string()));
    let inactivo = UserEntity {
        id: "u-2".to_string(),
        email: "c@d.mx".to_string(),
        date_created: "2024-01-01".to_string(),
        is_active: false,
    };
    assert_eq!(UserEntity::id_a_verificar(&Some(inactivo)), None);
    assert_eq!(UserEntity::id_a_verificar(&None), None);
    let fila = Some((PBKDF2_ESPERADO.to_vec(), b"salt".to_vec()));
    assert!(UserEntity::acceso_con_fila(&fila, "secreto123"));
    assert!(!UserEntity::acceso_con_fila(&fila, "otra"));
    assert!(!UserEntity::acceso_con_fila(&None, "secreto123"));
}

#[test]
fn validacion_del_formulario_de_login() {
    let m = LoginModel { email: "no es correo".to_string(), password: "corta".to_string() };
    let e = m.run();
    assert_eq!(e.len(), 2);
    assert_eq!(e[0].0, "email");
    assert_eq!(e[0].1, "El correo electrónico no es válido");
    assert_eq!(e[1].0, "password");
    assert_eq!(e[1].1, "El password dete tener mínimo 8 carácteres de longitud");
    let ok = LoginModel { email: "ana.luz@papeleria.com.mx".to_string(), password: "Tres0!78".to_string() };
    assert!(ok.run().is_empty());
    let d = LoginModel::default();
    assert_eq!(d.email, "");
    assert_eq!(d.run().len(), 2);
}

#[test]
fn reclamos_de_identidad() {
    let a = AppState::identity_check(None).unwrap();
    assert!(!a.is_authenticated);
    assert_eq!(a.email, "");
    let b = AppState::identity_check(Some(Ok("ana@x.mx".to_string()))).unwrap();
    assert!(b.is_authenticated);
    assert_eq!(b.email, "ana@x.mx");
    match AppState::identity_check(Some(Err("sesión dañada".to_string()))) {
        Err(IdentityError::InvalidId(m)) => assert_eq!(m, "sesión dañada"),
        _ => panic!("se esperaba una identidad inválida"),
    }
}
