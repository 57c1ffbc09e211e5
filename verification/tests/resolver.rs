//! Address selection, hostname normalisation and rendering.

use airprinter::errors::AirPrintError;
use airprinter::resolver::{ip_to_string, is_link_local_ip, normalize_hostname,
    select_advertise_ip, IpAddress};

#[test]
fn v4_link_local_is_rejected() {
    let ip = IpAddress::V4(169, 254, 3, 7);
    assert!(is_link_local_ip(&ip));
    assert_eq!(select_advertise_ip(ip), Err(AirPrintError::NoRoutableAddress));
}

#[test]
fn v4_private_is_kept() {
    let ip = IpAddress::V4(192, 168, 1, 100);
    assert!(!is_link_local_ip(&ip));
    assert_eq!(select_advertise_ip(ip), Ok(ip));
}

#[test]
fn v6_link_local_is_rejected() {
    let ip = IpAddress::V6(0xfe80, 0, 0, 0, 0, 0, 0, 1);
    assert!(is_link_local_ip(&ip));
    let also = IpAddress::V6(0xfebf, 0, 0, 0, 0, 0, 0, 1); // still within fe80::/10
    assert!(is_link_local_ip(&also));
    assert_eq!(select_advertise_ip(ip), Err(AirPrintError::NoRoutableAddress));
}

#[test]
fn v6_global_is_kept() {
    let ip = IpAddress::V6(0x2001, 0xdb8, 0, 0, 0, 0, 0, 0x10);
    assert!(!is_link_local_ip(&ip));
    assert_eq!(select_advertise_ip(ip), Ok(ip));
}

#[test]
fn bare_name_is_invalid() {
    assert_eq!(normalize_hostname("x"), Err(AirPrintError::InvalidHostname));
    assert_eq!(normalize_hostname("printer.example.com"), Err(AirPrintError::InvalidHostname));
}

#[test]
fn local_name_gains_trailing_dot() {
    assert_eq!(normalize_hostname("x.local").unwrap(), "x.local.");
}

#[test]
fn normalised_name_is_kept() {
    assert_eq!(normalize_hostname("x.local.").unwrap(), "x.local.");
}

#[test]
fn v4_renders_dotted_decimal() {
    assert_eq!(ip_to_string(&IpAddress::V4(192, 168, 1, 100)), "192.168.1.100");
    assert_eq!(ip_to_string(&IpAddress::V4(10, 0, 0, 1)), "10.0.0.1");
}

#[test]
fn v6_renders_full_hex_groups() {
    assert_eq!(
        ip_to_string(&IpAddress::V6(0x2001, 0xdb8, 0, 0, 0, 0, 0, 0x10)),
        "2001:db8:0:0:0:0:0:10"
    );
}
