//! The AirPrint TXT record and instance naming.

use airprinter::mdns::build_instance_name;
use airprinter::txt::AirPrintTxtRecords;

#[test]
fn mandated_keys_are_filled() {
    let t = AirPrintTxtRecords::new("HP", "hp.local.", 631);
    assert_eq!(t.txtvers, "1");
    assert_eq!(t.qtotal, "1");
    assert_eq!(t.rp, "ipp/print");
    assert_eq!(t.ty, "HP");
    assert_eq!(t.product, "(HP)");
    assert_eq!(t.pdl, "application/pdf,image/urf,image/jpeg,image/pwg-raster");
    assert_eq!(t.urf, "V1.4,W8,DM1,CP1,RS300,SRGB24,IS1");
    assert_eq!(t.color, "T");
    assert_eq!(t.duplex, "T");
    assert_eq!(t.copies, "T");
    assert_eq!(t.uuid.len(), 36);
    assert_eq!(t.adminurl.as_deref(), Some("http://hp.local.:631/"));
    assert_eq!(t.priority, "25");
    assert_eq!(t.kind, "document");
    assert_eq!(t.paper_max, "legal-A4");
    assert_eq!(t.printer_state, "3");
    assert_eq!(t.printer_type, "0x0480FFFC");
    assert_eq!(t.scan, "F");
    assert_eq!(t.fax, "F");
    assert_eq!(t.universal, "true");
}

#[test]
fn pairs_cover_every_key_once() {
    let t = AirPrintTxtRecords::new("HP", "hp.local.", 631);
    let pairs = t.to_pairs();
    assert_eq!(pairs.len(), 25);
    let urf: Vec<&String> = pairs.iter().filter(|(k, _)| k == "URF").map(|(_, v)| v).collect();
    assert_eq!(urf, vec![&t.urf]);
    let mut keys: Vec<&str> = pairs.iter().map(|(k, _)| k.as_str()).collect();
    keys.sort();
    let mut unique = keys.clone();
    unique.dedup();
    assert_eq!(keys, unique);
    assert!(keys.contains(&"universal"));
    assert!(keys.contains(&"usb_MFG"));
}

#[test]
fn hashmap_reflects_pairs() {
    let t = AirPrintTxtRecords::new("HP", "hp.local.", 631);
    let map = t.to_hashmap();
    assert_eq!(map.get("URF"), Some(&t.urf));
    assert_eq!(map.get("rp").map(String::as_str), Some("ipp/print"));
    assert_eq!(map.get("universal").map(String::as_str), Some("true"));
    assert_eq!(map.len(), 25);
}

#[test]
fn fresh_uuid_per_record() {
    let a = AirPrintTxtRecords::new("HP", "hp.local.", 631);
    let b = AirPrintTxtRecords::new("HP", "hp.local.", 631);
    assert_ne!(a.uuid, b.uuid);
}

#[test]
fn instance_name_dashes_spaces() {
    assert_eq!(build_instance_name("HP"), "air-HP");
    assert_eq!(build_instance_name("My Nice Printer"), "air-My-Nice-Printer");
}
