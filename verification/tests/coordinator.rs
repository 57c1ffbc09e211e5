//! The lifecycle coordinator: share, stop, and their refusals.
//!
//! A successful share registers with a real mDNS daemon, which needs
//! a host with a network stack.  Where the daemon cannot register
//! (`MdnsStartFailed`), these tests instead pin the contract for that
//! case: the failed share records nothing and leaves the coordinator
//! exactly as it was.

use airprinter::airprint::AirPrintServer;
use airprinter::errors::AirPrintError;
use airprinter::models::{Printer, PrinterStatus};
use airprinter::resolver::IpAddress;

fn printer(id: &str, name: &str) -> Printer {
    Printer { name: name.to_string(), id: id.to_string(), status: PrinterStatus::Online }
}

fn routable() -> IpAddress {
    IpAddress::V4(192, 168, 1, 50)
}

/// Share, expecting success where mDNS works; where it does not,
/// check the failure left no trace and report `false`.
fn share_or_verify_unchanged(server: &mut AirPrintServer, id: &str, name: &str) -> bool {
    let before = server.get_shared_printers().len();
    match server.share_with_ip(printer(id, name), true, routable()) {
        Ok(shared) => {
            assert_eq!(shared, id);
            assert!(server.is_shared(id));
            assert!(server.ipp_should_run());
            assert_eq!(server.get_shared_printers().len(), before + 1);
            true
        }
        Err(AirPrintError::MdnsStartFailed(_)) => {
            assert!(!server.is_shared(id));
            assert_eq!(server.get_shared_printers().len(), before);
            false
        }
        Err(other) => panic!("unexpected share failure: {:?}", other.message()),
    }
}

#[test]
fn fresh_coordinator_shares_nothing() {
    let server = AirPrintServer::new();
    assert!(!server.ipp_should_run());
    assert!(server.get_shared_printers().is_empty());
    assert!(!server.is_shared("hp"));
    assert_eq!(server.hostname(), "airprinter.local.");
    assert_eq!(server.port(), 631);
}

#[test]
fn with_hostname_normalises() {
    let server = AirPrintServer::new().with_hostname("hp.local").unwrap();
    assert_eq!(server.hostname(), "hp.local.");
    let err = AirPrintServer::new().with_hostname("hp").err().unwrap();
    assert_eq!(err, AirPrintError::InvalidHostname);
}

#[test]
fn share_then_stop_frees_everything() {
    let mut server = AirPrintServer::new().with_hostname("hp.local.").unwrap();
    if !share_or_verify_unchanged(&mut server, "hp", "HP") {
        return;
    }
    assert_eq!(server.get_shared_printers()[0].name, "HP");
    server.stop("hp").unwrap();
    assert!(!server.is_shared("hp"));
    assert!(!server.ipp_should_run());
    assert!(server.get_shared_printers().is_empty());
}

#[test]
fn share_is_not_idempotent() {
    let mut server = AirPrintServer::new();
    if !share_or_verify_unchanged(&mut server, "hp", "HP") {
        return;
    }
    let second = server.share_with_ip(printer("hp", "HP"), true, routable());
    assert_eq!(second.err().unwrap(), AirPrintError::AlreadyShared);
    assert_eq!(server.get_shared_printers().len(), 1);
}

#[test]
fn stop_is_not_idempotent() {
    let mut server = AirPrintServer::new();
    if !share_or_verify_unchanged(&mut server, "hp", "HP") {
        return;
    }
    server.stop("hp").unwrap();
    assert_eq!(server.stop("hp").err().unwrap(), AirPrintError::NotShared);
}

#[test]
fn stop_then_share_same_id_succeeds_again() {
    let mut server = AirPrintServer::new();
    if !share_or_verify_unchanged(&mut server, "hp", "HP") {
        return;
    }
    server.stop("hp").unwrap();
    assert!(share_or_verify_unchanged(&mut server, "hp", "HP"));
}

#[test]
fn stop_of_unknown_id_is_refused() {
    let mut server = AirPrintServer::new();
    assert_eq!(server.stop("nope").err().unwrap(), AirPrintError::NotShared);
}

#[test]
fn share_without_listener_fails() {
    let mut server = AirPrintServer::new();
    let r = server.share_with_ip(printer("hp", "HP"), false, routable());
    assert!(matches!(r.err().unwrap(), AirPrintError::IppStartFailed(_)));
    assert!(!server.ipp_should_run());
    assert!(server.get_shared_printers().is_empty());
}

#[test]
fn share_with_link_local_address_fails() {
    let mut server = AirPrintServer::new();
    let r = server.share_with_ip(printer("hp", "HP"), true, IpAddress::V4(169, 254, 0, 5));
    assert_eq!(r.err().unwrap(), AirPrintError::NoRoutableAddress);
    assert!(server.get_shared_printers().is_empty());
    let r6 = server.share_with_ip(printer("hp", "HP"), true, IpAddress::V6(0xfe80, 0, 0, 0, 0, 0, 0, 1));
    assert_eq!(r6.err().unwrap(), AirPrintError::NoRoutableAddress);
}

#[test]
fn ten_distinct_printers_all_share() {
    let mut server = AirPrintServer::new();
    let mut shared = 0;
    for k in 0..10 {
        let id = format!("printer-{}", k);
        let name = format!("Printer {}", k);
        if share_or_verify_unchanged(&mut server, &id, &name) {
            shared += 1;
        }
    }
    assert_eq!(server.get_shared_printers().len(), shared);
    for k in 0..10 {
        let id = format!("printer-{}", k);
        if server.is_shared(&id) {
            server.stop(&id).unwrap();
        }
    }
    assert!(server.get_shared_printers().is_empty());
    assert!(!server.ipp_should_run());
}
