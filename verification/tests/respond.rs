//! The IPP dispatcher: one response per request shape, always
//! echoing the request id.

use airprinter::ipp_decode::decode;
use airprinter::ipp_msg::{encode, Attribute, AttributeGroup, IppMessage};
use airprinter::ipp_respond::{effective_host, handle_ipp};
use airprinter::txt::AirPrintTxtRecords;

fn attr(vtag: u8, name: &str, value: &[u8]) -> Attribute {
    Attribute { vtag, name: name.as_bytes().to_vec(), value: value.to_vec() }
}

fn op_group() -> AttributeGroup {
    AttributeGroup {
        gtag: 0x01,
        attributes: vec![
            attr(0x47, "attributes-charset", b"utf-8"),
            attr(0x48, "attributes-natural-language", b"en"),
        ],
    }
}

fn request(op: u16, request_id: u32, payload: Option<Vec<u8>>) -> Vec<u8> {
    let m = IppMessage {
        version_major: 2,
        version_minor: 0,
        op_or_status: op,
        request_id,
        groups: vec![op_group()],
        payload,
    };
    encode(&m)
}

/// All values of a (possibly multi-valued) attribute in a decoded
/// message: the named member and its empty-named continuations.
fn attr_values(m: &IppMessage, name: &str) -> Vec<Vec<u8>> {
    let mut out = Vec::new();
    for g in &m.groups {
        let mut in_run = false;
        for a in &g.attributes {
            if a.name == name.as_bytes() {
                in_run = true;
                out.push(a.value.clone());
            } else if in_run && a.name.is_empty() {
                out.push(a.value.clone());
            } else {
                in_run = false;
            }
        }
    }
    out
}

#[test]
fn short_body_gets_permissive_reply_with_id_one() {
    let out = handle_ipp(&vec![2, 0, 0], "hp.local", "airprinter.local.", 631);
    let m = decode(&out.response).expect("response decodes");
    assert_eq!(m.op_or_status, 0x0000);
    assert_eq!(m.request_id, 1);
    assert!(out.print.is_none());
}

#[test]
fn nine_byte_body_gets_permissive_reply_echoing_id() {
    let body: Vec<u8> = vec![2, 0, 0, 11, 0, 0, 0, 42, 9];
    let out = handle_ipp(&body, "hp.local", "airprinter.local.", 631);
    let m = decode(&out.response).expect("response decodes");
    assert_eq!(m.op_or_status, 0x0000);
    assert_eq!(m.request_id, 42);
    assert!(out.print.is_none());
}

#[test]
fn undecodable_body_gets_bad_request() {
    let body: Vec<u8> = vec![2, 0, 0, 11, 0, 0, 0, 9, 0x07, 0x07];
    let out = handle_ipp(&body, "hp.local", "airprinter.local.", 631);
    let m = decode(&out.response).expect("response decodes");
    assert_eq!(m.op_or_status, 0x0400);
    assert_eq!(m.request_id, 9);
}

#[test]
fn response_echoes_request_id_bytes() {
    let body = request(0x000B, 0xDEADBEEF, None);
    let out = handle_ipp(&body, "hp.local", "airprinter.local.", 631);
    assert_eq!(&out.response[4..8], &body[4..8]);
}

#[test]
fn charset_then_language_open_every_response() {
    let body = request(0x0026, 5, None);
    let out = handle_ipp(&body, "hp.local", "airprinter.local.", 631);
    let m = decode(&out.response).expect("response decodes");
    assert_eq!(m.groups[0].gtag, 0x01);
    let a0 = &m.groups[0].attributes[0];
    let a1 = &m.groups[0].attributes[1];
    assert_eq!(a0.vtag, 0x47);
    assert_eq!(a0.name, b"attributes-charset".to_vec());
    assert_eq!(a0.value, b"utf-8".to_vec());
    assert_eq!(a1.vtag, 0x48);
    assert_eq!(a1.name, b"attributes-natural-language".to_vec());
    assert_eq!(a1.value, b"en".to_vec());
}

#[test]
fn validate_job_succeeds_with_no_side_effect() {
    let body = request(0x0026, 43, None);
    let out = handle_ipp(&body, "hp.local", "airprinter.local.", 631);
    let m = decode(&out.response).expect("response decodes");
    assert_eq!(m.op_or_status, 0x0000);
    assert_eq!(m.request_id, 43);
    assert!(out.print.is_none());
}

#[test]
fn unsupported_operation_is_refused_with_id_preserved() {
    let body = request(0x0009, 77, None); // Create-Job: not offered
    let out = handle_ipp(&body, "hp.local", "airprinter.local.", 631);
    let m = decode(&out.response).expect("response decodes");
    assert_eq!(m.op_or_status, 0x0401);
    assert_eq!(m.request_id, 77);
    assert!(out.print.is_none());
}

#[test]
fn get_printer_attributes_reports_the_printer() {
    let body = request(0x000B, 42, None);
    let out = handle_ipp(&body, "hp.local", "airprinter.local.", 631);
    let m = decode(&out.response).expect("response decodes");
    assert_eq!(m.op_or_status, 0x0000);
    assert_eq!(m.request_id, 42);
    assert_eq!(m.groups[1].gtag, 0x04);
    let uris = attr_values(&m, "printer-uri-supported");
    assert!(uris.contains(&b"ipp://hp.local:631/ipp/print".to_vec()));
    // the configured hostname differs, so its URI appears as well
    assert!(uris.contains(&b"ipp://airprinter.local.:631/ipp/print".to_vec()));
    let ops = attr_values(&m, "operations-supported");
    assert!(ops.contains(&vec![0, 0, 0, 0x02]));
    assert!(ops.contains(&vec![0, 0, 0, 0x0B]));
    assert!(ops.contains(&vec![0, 0, 0, 0x26]));
    assert_eq!(attr_values(&m, "printer-is-accepting-jobs"), vec![vec![1]]);
    assert_eq!(attr_values(&m, "printer-state"), vec![vec![0, 0, 0, 3]]);
    let ranges = attr_values(&m, "copies-supported");
    assert_eq!(ranges, vec![vec![0, 0, 0, 1, 0, 0, 0, 99]]);
    let formats = attr_values(&m, "document-format-supported");
    assert!(formats.contains(&b"application/pdf".to_vec()));
    assert!(formats.contains(&b"image/urf".to_vec()));
    assert!(formats.contains(&b"image/jpeg".to_vec()));
    assert!(formats.contains(&b"image/pwg-raster".to_vec()));
    assert!(out.print.is_none());
}

#[test]
fn same_host_gets_single_uri() {
    let body = request(0x000B, 1, None);
    let out = handle_ipp(&body, "hp.local.", "hp.local.", 631);
    let m = decode(&out.response).expect("response decodes");
    let uris = attr_values(&m, "printer-uri-supported");
    assert_eq!(uris, vec![b"ipp://hp.local.:631/ipp/print".to_vec()]);
}

#[test]
fn urf_tokens_match_txt_record() {
    let body = request(0x000B, 2, None);
    let out = handle_ipp(&body, "hp.local", "airprinter.local.", 631);
    let m = decode(&out.response).expect("response decodes");
    let tokens = attr_values(&m, "urf-supported");
    let joined = tokens
        .iter()
        .map(|v| String::from_utf8(v.clone()).unwrap())
        .collect::<Vec<_>>()
        .join(",");
    let records = AirPrintTxtRecords::new("HP", "hp.local.", 631);
    assert_eq!(joined, records.urf);
    assert_eq!(joined, "V1.4,W8,DM1,CP1,RS300,SRGB24,IS1");
}

#[test]
fn print_job_with_payload_reports_completed_job() {
    let payload: Vec<u8> = vec![0x25; 200];
    let body = request(0x0002, 44, Some(payload.clone()));
    let out = handle_ipp(&body, "hp.local", "airprinter.local.", 631);
    let m = decode(&out.response).expect("response decodes");
    assert_eq!(m.op_or_status, 0x0000);
    assert_eq!(m.request_id, 44);
    assert_eq!(m.groups[1].gtag, 0x02);
    assert_eq!(attr_values(&m, "job-id"), vec![vec![0, 0, 0, 44]]);
    assert_eq!(attr_values(&m, "job-state"), vec![vec![0, 0, 0, 9]]);
    assert_eq!(
        attr_values(&m, "job-uri"),
        vec![b"ipp://hp.local:631/jobs/44".to_vec()]
    );
    assert_eq!(
        attr_values(&m, "job-state-reasons"),
        vec![b"job-completed-successfully".to_vec()]
    );
    let task = out.print.expect("a print task is handed back");
    assert_eq!(task.request_id, 44);
    assert_eq!(task.payload, payload);
}

#[test]
fn print_job_without_payload_is_bad_request() {
    let body = request(0x0002, 45, None);
    let out = handle_ipp(&body, "hp.local", "airprinter.local.", 631);
    let m = decode(&out.response).expect("response decodes");
    assert_eq!(m.op_or_status, 0x0400);
    assert_eq!(m.request_id, 45);
    assert!(out.print.is_none());
}

#[test]
fn effective_host_prefers_header_and_strips_port() {
    let h = String::from("hp.local:631");
    assert_eq!(effective_host(Some(&h), "airprinter.local."), "hp.local");
    let bare = String::from("hp.local");
    assert_eq!(effective_host(Some(&bare), "airprinter.local."), "hp.local");
    assert_eq!(effective_host(None, "airprinter.local."), "airprinter.local.");
}

#[test]
fn landing_page_names_the_printer_uri() {
    let page = airprinter::ipp_respond::landing_page("hp.local", 631);
    assert!(page.starts_with("<!DOCTYPE html>"));
    assert!(page.contains("ipp://hp.local:631/ipp/print"));
    assert!(page.contains("AirPrint Virtual Printer"));
}
