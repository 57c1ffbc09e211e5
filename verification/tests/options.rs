//! Extracting print options from a decoded request.

use airprinter::ipp_decode::decode;
use airprinter::ipp_msg::{encode, Attribute, AttributeGroup, IppMessage};
use airprinter::ipp_options::extract_print_options;

fn attr(vtag: u8, name: &str, value: &[u8]) -> Attribute {
    Attribute { vtag, name: name.as_bytes().to_vec(), value: value.to_vec() }
}

fn message_with(attrs: Vec<Attribute>) -> IppMessage {
    let bytes = encode(&IppMessage {
        version_major: 2,
        version_minor: 0,
        op_or_status: 0x0002,
        request_id: 1,
        groups: vec![AttributeGroup { gtag: 0x01, attributes: attrs }],
        payload: None,
    });
    decode(&bytes).expect("test request decodes")
}

#[test]
fn defaults_apply_when_nothing_is_recognised() {
    let m = message_with(vec![attr(0x47, "attributes-charset", b"utf-8")]);
    let o = extract_print_options(&m);
    assert_eq!(o.copies, 1);
    assert_eq!(o.sides, "one-sided");
    assert_eq!(o.color_mode, "auto");
    assert_eq!(o.media, "A4");
    assert!(o.job_name.is_none());
}

#[test]
fn recognised_attributes_override_defaults() {
    let m = message_with(vec![
        attr(0x21, "copies", &[0, 0, 0, 3]),
        attr(0x44, "sides", b"two-sided-long-edge"),
        attr(0x44, "print-color-mode", b"monochrome"),
        attr(0x44, "media", b"na_letter_8.5x11in"),
        attr(0x42, "job-name", b"Report"),
    ]);
    let o = extract_print_options(&m);
    assert_eq!(o.copies, 3);
    assert_eq!(o.sides, "two-sided-long-edge");
    assert_eq!(o.color_mode, "monochrome");
    assert_eq!(o.media, "na_letter_8.5x11in");
    assert_eq!(o.job_name.as_deref(), Some("Report"));
}

#[test]
fn alternate_names_are_recognised() {
    let m = message_with(vec![
        attr(0x42, "color-mode", b"color"),
        attr(0x42, "media-size", b"iso_a4_210x297mm"),
    ]);
    let o = extract_print_options(&m);
    assert_eq!(o.color_mode, "color");
    assert_eq!(o.media, "iso_a4_210x297mm");
}

#[test]
fn copies_above_range_clamp_to_ninety_nine() {
    let m = message_with(vec![attr(0x21, "copies", &[0, 0, 0, 150])]);
    let o = extract_print_options(&m);
    assert_eq!(o.copies, 99);
}

#[test]
fn copies_below_range_clamp_to_ninety_nine() {
    let m = message_with(vec![attr(0x21, "copies", &[0, 0, 0, 0])]);
    let o = extract_print_options(&m);
    assert_eq!(o.copies, 99);
}

#[test]
fn copies_in_range_pass_through() {
    let m = message_with(vec![attr(0x21, "copies", &[0, 0, 0, 99])]);
    let o = extract_print_options(&m);
    assert_eq!(o.copies, 99);
    let m = message_with(vec![attr(0x21, "copies", &[0, 0, 0, 1])]);
    assert_eq!(extract_print_options(&m).copies, 1);
}

#[test]
fn later_occurrences_win() {
    let m = message_with(vec![
        attr(0x44, "sides", b"one-sided"),
        attr(0x44, "sides", b"two-sided-short-edge"),
    ]);
    let o = extract_print_options(&m);
    assert_eq!(o.sides, "two-sided-short-edge");
}

#[test]
fn unknown_attributes_are_ignored() {
    let m = message_with(vec![
        attr(0x44, "finishings", b"staple"),
        attr(0x21, "job-priority", &[0, 0, 0, 50]),
    ]);
    let o = extract_print_options(&m);
    assert_eq!(o.copies, 1);
    assert_eq!(o.sides, "one-sided");
}
