use spaceapi_server::{get_version, port_or_default};
use spaceapi_server::text::{decimal_string, hex_string, is_float_text, parse_u64};

#[test]
fn test_get_version() {
    let version = get_version();
    assert_eq!(3, version.split('.').count());
}

#[test]
fn parse_u64_reads_decimals() {
    assert_eq!(parse_u64("0"), Some(0));
    assert_eq!(parse_u64("42"), Some(42));
    assert_eq!(parse_u64("+7"), Some(7));
    assert_eq!(parse_u64("18446744073709551615"), Some(u64::MAX));
    assert_eq!(parse_u64("18446744073709551616"), None);
    assert_eq!(parse_u64(""), None);
    assert_eq!(parse_u64("+"), None);
    assert_eq!(parse_u64("-1"), None);
    assert_eq!(parse_u64("4 2"), None);
    assert_eq!(parse_u64("1.5"), None);
}

#[test]
fn parse_u64_agrees_with_std() {
    for s in ["0", "007", "+12", "99999999999999999999", "", "x", " 1", "1 ", "++1", "-0"] {
        assert_eq!(parse_u64(s), s.parse::<u64>().ok(), "{}", s);
    }
}

#[test]
fn float_text_agrees_with_std() {
    for s in [
        "13.37", "-4", "+.5", "5.", ".", "1e3", "1E-3", "1e", "e5", "inf", "-Infinity", "NaN",
        "nan1", "", "1.2.3", "1e+", "12a", "0x10", " 1", "1_000", "infinity", "INF",
    ] {
        assert_eq!(is_float_text(s), s.parse::<f64>().is_ok(), "{}", s);
    }
}

#[test]
fn decimal_and_hex_text() {
    assert_eq!(decimal_string(0), "0");
    assert_eq!(decimal_string(1234567890), "1234567890");
    assert_eq!(decimal_string(u64::MAX), "18446744073709551615");
    assert_eq!(hex_string(&[0x00, 0x0f, 0xa5, 0xff]), "000fa5ff");
    assert_eq!(hex_string(&[]), "");
}

#[test]
fn port_from_configuration() {
    assert_eq!(port_or_default(None), 3000);
    assert_eq!(port_or_default(Some("8080")), 8080);
    assert_eq!(port_or_default(Some("+80")), 80);
    assert_eq!(port_or_default(Some("65535")), 65535);
    assert_eq!(port_or_default(Some("65536")), 3000);
    assert_eq!(port_or_default(Some("http")), 3000);
    assert_eq!(port_or_default(Some("")), 3000);
}
