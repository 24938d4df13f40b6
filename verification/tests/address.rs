use port_scanner::addr::{address_ok, parse_ipv4, Ipv4Octets};

#[test]
fn test_parse_ipv4_loopback() {
    assert_eq!(
        parse_ipv4("127.0.0.1"),
        Some(Ipv4Octets { a: 127, b: 0, c: 0, d: 1 })
    );
}

#[test]
fn test_parse_ipv4_extremes() {
    assert_eq!(
        parse_ipv4("0.0.0.0"),
        Some(Ipv4Octets { a: 0, b: 0, c: 0, d: 0 })
    );
    assert_eq!(
        parse_ipv4("255.255.255.255"),
        Some(Ipv4Octets { a: 255, b: 255, c: 255, d: 255 })
    );
}

#[test]
fn test_parse_ipv4_rejects_octet_out_of_range() {
    assert_eq!(parse_ipv4("256.0.0.1"), None);
    assert_eq!(parse_ipv4("1.2.3.999"), None);
}

#[test]
fn test_parse_ipv4_rejects_leading_zero() {
    assert_eq!(parse_ipv4("01.2.3.4"), None);
    assert_eq!(parse_ipv4("1.2.00.4"), None);
}

#[test]
fn test_parse_ipv4_rejects_wrong_shape() {
    assert_eq!(parse_ipv4(""), None);
    assert_eq!(parse_ipv4("1.2.3"), None);
    assert_eq!(parse_ipv4("1.2.3.4.5"), None);
    assert_eq!(parse_ipv4("1..2.3"), None);
    assert_eq!(parse_ipv4("1.2.3.4."), None);
    assert_eq!(parse_ipv4(".1.2.3.4"), None);
    assert_eq!(parse_ipv4("a.b.c.d"), None);
    assert_eq!(parse_ipv4("1.2.3.4x"), None);
}

#[test]
fn test_address_ok() {
    assert!(address_ok("127.0.0.1", 80));
    assert!(address_ok("127.0.0.1", 65535));
    assert!(!address_ok("127.0.0.1", 65536));
    assert!(!address_ok("localhost", 80));
    assert!(!address_ok("", 80));
}
