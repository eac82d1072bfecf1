use ro_inventario::models::account_models::{validate_email, validate_password};
use ro_inventario::validators::str_validators::is_empty_string;

#[test]
fn empty_string_is_invalid_email() {
    let is_valid = validate_email("");
    assert_eq!(is_valid, false);
}

#[test]
fn email_can_contain_dots() {
    let is_valid = validate_email("s.o.s@sos.org");
    assert_eq!(is_valid, true);
}

#[test]
fn password_complexity_min_length() {
    let is_valid = validate_password("");
    assert_eq!(is_valid, false);

    let is_valid = validate_password("len");
    assert_eq!(is_valid, false);

    let is_valid = validate_password("Tres0!");
    assert_eq!(is_valid, false);

    let is_valid = validate_password("Tres0!78");
    assert_eq!(is_valid, true);
}

#[test]
fn not_empty() {
    let it_is = is_empty_string("");
    assert_eq!(it_is, true);

    let it_is = is_empty_string("  ");
    assert_eq!(it_is, true);

    let it_is = is_empty_string("   ");
    assert_eq!(it_is, true);

    let it_is = is_empty_string("
        ");
    assert_eq!(it_is, true);

    let it_is = is_empty_string("no");
    assert_eq!(it_is, false);

    let it_is = is_empty_string(" casi pero ... no ");
    assert_eq!(it_is, false);

    let it_is = is_empty_string(".");
    assert_eq!(it_is, false);
}

#[test]
fn password_solo_cuenta_caracteres() {
    assert!(validate_password("1234\n5678"));
    assert!(validate_password(&"a".repeat(255)));
    assert!(!validate_password(&"a".repeat(256)));
    assert!(validate_password("ñandú\n\u{00e9}é"));
    assert!(!validate_password("ñandú\n\u{00e9}"));
}
