//! Building IPP responses and dispatching decoded requests.
//!
//! Every response is described first as a message model (`simple_msg`,
//! `attrs_response`, `job_msg`) and the executable builders produce
//! exactly the encoding of those models.  `response_model` is the one
//! place that says which response each request receives; the
//! dispatcher `handle_ipp` returns exactly that, along with the spool
//! work a Print-Job request implies.

use vstd::prelude::*;

use crate::errors::ParseError;
use crate::ipp_decode::{dec_msg, decode};
use crate::ipp_msg::{
    wf_group, lemma_be32_read32,
    AttrModel, Attribute, AttributeGroup, GroupModel, IppMessage, MsgModel, be32, be32_vec,
    enc_msg, encode, read32, wf_attr, wf_msg, END_OF_ATTRIBUTES_TAG, JOB_ATTRIBUTES_TAG,
    OPERATION_ATTRIBUTES_TAG, PRINTER_ATTRIBUTES_TAG, TAG_BOOLEAN, TAG_CHARSET, TAG_ENUM,
    TAG_INTEGER, TAG_KEYWORD, TAG_MIME_MEDIA_TYPE, TAG_NATURAL_LANGUAGE, TAG_RANGE_OF_INTEGER,
    TAG_TEXT_WITHOUT_LANGUAGE, TAG_URI,
};
use crate::ipp_options::{extract_options_model, extract_print_options};
use crate::jobs::{OptionsModel, PrintOptions};
use crate::text::{ascii_bytes, dec_bytes, push_dec, str_bytes, str_eq};

verus! {

/// The Print-Job operation code.
pub const OP_PRINT_JOB: u16 = 0x0002;

/// The Get-Printer-Attributes operation code.
pub const OP_GET_PRINTER_ATTRIBUTES: u16 = 0x000B;

/// The Validate-Job operation code.
pub const OP_VALIDATE_JOB: u16 = 0x0026;

/// Status: successful-ok.
pub const STATUS_OK: u16 = 0x0000;

/// Status: client-error-bad-request.
pub const STATUS_BAD_REQUEST: u16 = 0x0400;

/// Status: server-error-operation-not-supported.
pub const STATUS_OPERATION_NOT_SUPPORTED: u16 = 0x0401;

/// Status: server-error-internal-error.
pub const STATUS_INTERNAL_ERROR: u16 = 0x0500;

/// An attribute whose name and value are ASCII text.
pub open spec fn attr_m(vtag: u8, name: Seq<char>, value: Seq<char>) -> AttrModel {
    AttrModel { vtag, name: ascii_bytes(name), value: ascii_bytes(value) }
}

/// A continuation member of a multi-valued attribute: same value tag,
/// empty name.
pub open spec fn extra_m(vtag: u8, value: Seq<char>) -> AttrModel {
    AttrModel { vtag, name: Seq::empty(), value: ascii_bytes(value) }
}

/// An attribute whose value is raw bytes.
pub open spec fn attr_bytes_m(vtag: u8, name: Seq<char>, value: Seq<u8>) -> AttrModel {
    AttrModel { vtag, name: ascii_bytes(name), value }
}

/// An attribute holding one 32-bit integer or enum.
pub open spec fn int_attr_m(vtag: u8, name: Seq<char>, v: u32) -> AttrModel {
    AttrModel { vtag, name: ascii_bytes(name), value: be32(v) }
}

/// A continuation member holding one 32-bit integer.
pub open spec fn extra_int_m(vtag: u8, v: u32) -> AttrModel {
    AttrModel { vtag, name: Seq::empty(), value: be32(v) }
}

/// A boolean attribute (one value byte).
pub open spec fn bool_attr_m(name: Seq<char>, v: bool) -> AttrModel {
    AttrModel {
        vtag: TAG_BOOLEAN,
        name: ascii_bytes(name),
        value: seq![
            if v {
                1u8
            } else {
                0u8
            },
        ],
    }
}

/// A rangeOfInteger attribute (two 32-bit integers).
pub open spec fn range_attr_m(name: Seq<char>, lo: u32, hi: u32) -> AttrModel {
    AttrModel { vtag: TAG_RANGE_OF_INTEGER, name: ascii_bytes(name), value: be32(lo) + be32(hi) }
}

/// The two operation attributes every response opens with, in the
/// order AirPrint clients require: charset first, then language.
pub open spec fn op_attrs() -> Seq<AttrModel> {
    seq![
        attr_m(TAG_CHARSET, "attributes-charset"@, "utf-8"@),
        attr_m(TAG_NATURAL_LANGUAGE, "attributes-natural-language"@, "en"@),
    ]
}

/// The operation attributes group.
pub open spec fn op_group() -> GroupModel {
    GroupModel { gtag: OPERATION_ATTRIBUTES_TAG, attributes: op_attrs() }
}

/// A minimal response: header, the operation group, nothing else.
pub open spec fn simple_msg(request_id: u32, status: u16) -> MsgModel {
    MsgModel {
        version_major: 2,
        version_minor: 0,
        op_or_status: status,
        request_id,
        groups: seq![op_group()],
        payload: None,
    }
}

/// Build the charset attribute.
fn make_charset_attr() -> (a: Attribute)
    ensures
        a@ == op_attrs()[0],
        wf_attr(a@),
{
    proof {
        reveal_strlit("attributes-charset");
        reveal_strlit("utf-8");
    }
    let a = Attribute {
        vtag: TAG_CHARSET,
        name: str_bytes("attributes-charset"),
        value: str_bytes("utf-8"),
    };
    a
}

/// Build the natural-language attribute.
fn make_language_attr() -> (a: Attribute)
    ensures
        a@ == op_attrs()[1],
        wf_attr(a@),
{
    proof {
        reveal_strlit("attributes-natural-language");
        reveal_strlit("en");
    }
    let a = Attribute {
        vtag: TAG_NATURAL_LANGUAGE,
        name: str_bytes("attributes-natural-language"),
        value: str_bytes("en"),
    };
    a
}

/// Build the operation attributes group.
fn make_op_group() -> (g: AttributeGroup)
    ensures
        g@ =~~= op_group(),
        g@.attributes.len() == 2,
        wf_attr(g@.attributes[0]),
        wf_attr(g@.attributes[1]),
{
    let mut attrs: Vec<Attribute> = Vec::new();
    attrs.push(make_charset_attr());
    attrs.push(make_language_attr());
    let g = AttributeGroup { gtag: OPERATION_ATTRIBUTES_TAG, attributes: attrs };
    proof {
        assert(g@.attributes =~= op_attrs());
    }
    g
}

/// Encode a minimal response carrying just a status and the request
/// id.
pub fn build_simple_response(request_id: u32, status: u16) -> (r: Vec<u8>)
    ensures
        r@ == enc_msg(simple_msg(request_id, status)),
{
    let mut groups: Vec<AttributeGroup> = Vec::new();
    groups.push(make_op_group());
    let m = IppMessage {
        version_major: 2,
        version_minor: 0,
        op_or_status: status,
        request_id,
        groups,
        payload: None,
    };
    proof {
        assert(m@.groups =~= seq![op_group()]);
        assert(m@ =~~= simple_msg(request_id, status));
        assert(wf_msg(m@));
    }
    encode(&m)
}

/// Powers of ten.
pub open spec fn pow10(d: int) -> int
    decreases d,
    when d >= 0
{
    if d == 0 {
        1
    } else {
        10 * pow10(d - 1)
    }
}

/// A decimal rendering has at most `d` digits when the value is below
/// the `d`-th power of ten.
pub proof fn lemma_dec_bytes_len_le(n: int, d: int)
    requires
        0 <= n,
        1 <= d,
        n < pow10(d),
    ensures
        dec_bytes(n).len() <= d,
    decreases d,
{
    if n < 10 {
    } else {
        if d == 1 {
            assert(pow10(1) == 10);
            assert(false);
        }
        assert(pow10(d) == 10 * pow10(d - 1));
        assert(n / 10 < pow10(d - 1));
        lemma_dec_bytes_len_le(n / 10, d - 1);
    }
}

/// Any 32-bit value renders in at most ten decimal digits.
pub proof fn lemma_dec_bytes_len_u32(n: u32)
    ensures
        1 <= dec_bytes(n as int).len() <= 10,
{
    reveal_with_fuel(pow10, 11);
    assert(pow10(10) == 10000000000);
    lemma_dec_bytes_len_le(n as int, 10);
    if n as int >= 10 {
    }
}

/// The absolute IPP printer URI, `ipp://<host>:<port>/ipp/print`.
pub open spec fn print_uri(host: Seq<char>, port: u16) -> Seq<u8> {
    ascii_bytes("ipp://"@) + ascii_bytes(host) + ascii_bytes(":"@) + dec_bytes(port as int)
        + ascii_bytes("/ipp/print"@)
}

/// The job URI for a given request id,
/// `ipp://<host>:<port>/jobs/<request-id>`.
pub open spec fn job_uri(host: Seq<char>, port: u16, request_id: u32) -> Seq<u8> {
    ascii_bytes("ipp://"@) + ascii_bytes(host) + ascii_bytes(":"@) + dec_bytes(port as int)
        + ascii_bytes("/jobs/"@) + dec_bytes(request_id as int)
}

/// Build the printer URI bytes.
fn build_print_uri(host: &str, port: u16) -> (r: Vec<u8>)
    requires
        host.is_ascii(),
    ensures
        r@ == print_uri(host@, port),
{
    proof {
        reveal_strlit("ipp://");
        reveal_strlit(":");
        reveal_strlit("/ipp/print");
    }
    let mut out = str_bytes("ipp://");
    let mut part = str_bytes(host);
    out.append(&mut part);
    let mut colon = str_bytes(":");
    out.append(&mut colon);
    push_dec(&mut out, port as u64);
    let mut tail = str_bytes("/ipp/print");
    out.append(&mut tail);
    assert(out@ =~= print_uri(host@, port));
    out
}

/// Build the job URI bytes.
fn build_job_uri(host: &str, port: u16, request_id: u32) -> (r: Vec<u8>)
    requires
        host.is_ascii(),
    ensures
        r@ == job_uri(host@, port, request_id),
{
    proof {
        reveal_strlit("ipp://");
        reveal_strlit(":");
        reveal_strlit("/jobs/");
    }
    let mut out = str_bytes("ipp://");
    let mut part = str_bytes(host);
    out.append(&mut part);
    let mut colon = str_bytes(":");
    out.append(&mut colon);
    push_dec(&mut out, port as u64);
    let mut tail = str_bytes("/jobs/");
    out.append(&mut tail);
    push_dec(&mut out, request_id as u64);
    assert(out@ =~= job_uri(host@, port, request_id));
    out
}

/// Build an attribute with ASCII name and value.
fn make_attr(vtag: u8, name: &str, value: &str) -> (a: Attribute)
    requires
        name.is_ascii(),
        value.is_ascii(),
        vtag >= 0x10,
        vtag != TAG_BOOLEAN && vtag != TAG_INTEGER && vtag != TAG_ENUM,
        name@.len() < 0x10000,
        value@.len() < 0x10000,
    ensures
        a@ == attr_m(vtag, name@, value@),
        wf_attr(a@),
{
    Attribute { vtag, name: str_bytes(name), value: str_bytes(value) }
}

/// Build a continuation member of a multi-valued attribute.
fn make_extra(vtag: u8, value: &str) -> (a: Attribute)
    requires
        value.is_ascii(),
        vtag >= 0x10,
        vtag != TAG_BOOLEAN && vtag != TAG_INTEGER && vtag != TAG_ENUM,
        value@.len() < 0x10000,
    ensures
        a@ == extra_m(vtag, value@),
        wf_attr(a@),
{
    let a = Attribute { vtag, name: Vec::new(), value: str_bytes(value) };
    proof {
        assert(a@.name =~= Seq::<u8>::empty());
    }
    a
}

/// Build an integer or enum attribute.
fn make_int_attr(vtag: u8, name: &str, v: u32) -> (a: Attribute)
    requires
        name.is_ascii(),
        vtag >= 0x10,
        vtag != TAG_BOOLEAN,
        name@.len() < 0x10000,
    ensures
        a@ == int_attr_m(vtag, name@, v),
        wf_attr(a@),
{
    Attribute { vtag, name: str_bytes(name), value: be32_vec(v) }
}

/// Build a continuation integer member.
fn make_extra_int(vtag: u8, v: u32) -> (a: Attribute)
    requires
        vtag >= 0x10,
        vtag != TAG_BOOLEAN,
    ensures
        a@ == extra_int_m(vtag, v),
        wf_attr(a@),
{
    let a = Attribute { vtag, name: Vec::new(), value: be32_vec(v) };
    proof {
        assert(a@.name =~= Seq::<u8>::empty());
    }
    a
}

/// Build a boolean attribute.
fn make_bool_attr(name: &str, v: bool) -> (a: Attribute)
    requires
        name.is_ascii(),
        name@.len() < 0x10000,
    ensures
        a@ == bool_attr_m(name@, v),
        wf_attr(a@),
{
    let mut value: Vec<u8> = Vec::new();
    if v {
        value.push(1);
    } else {
        value.push(0);
    }
    let a = Attribute { vtag: TAG_BOOLEAN, name: str_bytes(name), value };
    proof {
        assert(a@.value =~= bool_attr_m(name@, v).value);
    }
    a
}

/// Build a rangeOfInteger attribute.
fn make_range_attr(name: &str, lo: u32, hi: u32) -> (a: Attribute)
    requires
        name.is_ascii(),
        name@.len() < 0x10000,
    ensures
        a@ == range_attr_m(name@, lo, hi),
        wf_attr(a@),
{
    let mut value = be32_vec(lo);
    let mut hi_part = be32_vec(hi);
    value.append(&mut hi_part);
    let a = Attribute { vtag: TAG_RANGE_OF_INTEGER, name: str_bytes(name), value };
    proof {
        assert(a@.value =~= be32(lo) + be32(hi));
    }
    a
}

/// The printer attributes advertised in a Get-Printer-Attributes
/// response: identity, URIs (the effective one, then the configured
/// one when it differs), state, supported operations, document
/// formats, colour, copies, media, and the URF capability tokens.
pub open spec fn printer_attrs(base_uri: Seq<u8>, alt: Option<Seq<u8>>) -> Seq<AttrModel> {
    seq![
        attr_m(TAG_TEXT_WITHOUT_LANGUAGE, "printer-name"@, "AirPrinter"@),
        attr_m(TAG_TEXT_WITHOUT_LANGUAGE, "printer-info"@, "Virtual AirPrint Printer"@),
        attr_m(TAG_TEXT_WITHOUT_LANGUAGE, "printer-location"@, "Local Network"@),
        attr_m(TAG_TEXT_WITHOUT_LANGUAGE, "printer-make-and-model"@, "Generic AirPrint Device"@),
        attr_bytes_m(TAG_URI, "printer-uri-supported"@, base_uri),
    ] + (match alt {
        Some(u) => seq![AttrModel { vtag: TAG_URI, name: Seq::<u8>::empty(), value: u }],
        None => Seq::<AttrModel>::empty(),
    }) + seq![
        int_attr_m(TAG_ENUM, "printer-state"@, 3),
        attr_m(TAG_KEYWORD, "printer-state-reasons"@, "none"@),
        bool_attr_m("printer-is-accepting-jobs"@, true),
        int_attr_m(TAG_INTEGER, "operations-supported"@, 0x0002),
        extra_int_m(TAG_INTEGER, 0x000B),
        extra_int_m(TAG_INTEGER, 0x0026),
        attr_m(TAG_MIME_MEDIA_TYPE, "document-format-default"@, "application/pdf"@),
        attr_m(TAG_MIME_MEDIA_TYPE, "document-format-supported"@, "application/pdf"@),
        extra_m(TAG_MIME_MEDIA_TYPE, "image/jpeg"@),
        extra_m(TAG_MIME_MEDIA_TYPE, "image/urf"@),
        extra_m(TAG_MIME_MEDIA_TYPE, "image/pwg-raster"@),
        bool_attr_m("color-supported"@, true),
        attr_m(TAG_KEYWORD, "output-mode-supported"@, "monochrome"@),
        extra_m(TAG_KEYWORD, "color"@),
        attr_m(TAG_KEYWORD, "output-mode-default"@, "color"@),
        range_attr_m("copies-supported"@, 1, 99),
        int_attr_m(TAG_INTEGER, "copies-default"@, 1),
        attr_m(TAG_KEYWORD, "media-supported"@, "iso_a4_210x297mm"@),
        extra_m(TAG_KEYWORD, "na_letter_8.5x11in"@),
        attr_m(TAG_KEYWORD, "media-default"@, "iso_a4_210x297mm"@),
        attr_m(TAG_KEYWORD, "urf-supported"@, "V1.4"@),
        extra_m(TAG_KEYWORD, "W8"@),
        extra_m(TAG_KEYWORD, "DM1"@),
        extra_m(TAG_KEYWORD, "CP1"@),
        extra_m(TAG_KEYWORD, "RS300"@),
        extra_m(TAG_KEYWORD, "SRGB24"@),
        extra_m(TAG_KEYWORD, "IS1"@),
    ]
}

/// The configured hostname's URI is advertised as a second
/// `printer-uri-supported` value when it differs from the effective
/// host.
pub open spec fn alt_uri(eh: Seq<char>, ch: Seq<char>, port: u16) -> Option<Seq<u8>> {
    if eh == ch {
        None
    } else {
        Some(print_uri(ch, port))
    }
}

/// The full Get-Printer-Attributes response model.
pub open spec fn attrs_response(request_id: u32, eh: Seq<char>, ch: Seq<char>, port: u16)
    -> MsgModel {
    MsgModel {
        version_major: 2,
        version_minor: 0,
        op_or_status: STATUS_OK,
        request_id,
        groups: seq![
            op_group(),
            GroupModel {
                gtag: PRINTER_ATTRIBUTES_TAG,
                attributes: printer_attrs(print_uri(eh, port), alt_uri(eh, ch, port)),
            },
        ],
        payload: None,
    }
}

/// Encode the Get-Printer-Attributes response.
#[verifier::rlimit(60)]
pub fn build_attrs_response(request_id: u32, effective_host: &str, configured_host: &str, port: u16)
    -> (r: Vec<u8>)
    requires
        effective_host.is_ascii(),
        configured_host.is_ascii(),
        effective_host@.len() <= 255,
        configured_host@.len() <= 255,
    ensures
        r@ == enc_msg(attrs_response(request_id, effective_host@, configured_host@, port)),
{
    proof {
        reveal_strlit("printer-name");
        reveal_strlit("AirPrinter");
        reveal_strlit("printer-info");
        reveal_strlit("Virtual AirPrint Printer");
        reveal_strlit("printer-location");
        reveal_strlit("Local Network");
        reveal_strlit("printer-make-and-model");
        reveal_strlit("Generic AirPrint Device");
        reveal_strlit("printer-uri-supported");
        reveal_strlit("printer-state");
        reveal_strlit("printer-state-reasons");
        reveal_strlit("none");
        reveal_strlit("printer-is-accepting-jobs");
        reveal_strlit("operations-supported");
        reveal_strlit("document-format-default");
        reveal_strlit("document-format-supported");
        reveal_strlit("application/pdf");
        reveal_strlit("image/jpeg");
        reveal_strlit("image/urf");
        reveal_strlit("image/pwg-raster");
        reveal_strlit("color-supported");
        reveal_strlit("output-mode-supported");
        reveal_strlit("monochrome");
        reveal_strlit("color");
        reveal_strlit("output-mode-default");
        reveal_strlit("copies-supported");
        reveal_strlit("copies-default");
        reveal_strlit("media-supported");
        reveal_strlit("iso_a4_210x297mm");
        reveal_strlit("na_letter_8.5x11in");
        reveal_strlit("media-default");
        reveal_strlit("urf-supported");
        reveal_strlit("V1.4");
        reveal_strlit("W8");
        reveal_strlit("DM1");
        reveal_strlit("CP1");
        reveal_strlit("RS300");
        reveal_strlit("SRGB24");
        reveal_strlit("IS1");
        lemma_dec_bytes_len_u32(port as u32);
    }
    let base = build_print_uri(effective_host, port);
    let mut attrs: Vec<Attribute> = Vec::new();
    attrs.push(make_attr(TAG_TEXT_WITHOUT_LANGUAGE, "printer-name", "AirPrinter"));
    attrs.push(make_attr(TAG_TEXT_WITHOUT_LANGUAGE, "printer-info", "Virtual AirPrint Printer"));
    attrs.push(make_attr(TAG_TEXT_WITHOUT_LANGUAGE, "printer-location", "Local Network"));
    attrs.push(
        make_attr(TAG_TEXT_WITHOUT_LANGUAGE, "printer-make-and-model", "Generic AirPrint Device"),
    );
    attrs.push(Attribute { vtag: TAG_URI, name: str_bytes("printer-uri-supported"), value: base });
    if !str_eq(effective_host, configured_host) {
        let alt = build_print_uri(configured_host, port);
        let extra = Attribute { vtag: TAG_URI, name: Vec::new(), value: alt };
        proof {
            assert(extra@.name =~= Seq::<u8>::empty());
        }
        attrs.push(extra);
    }
    attrs.push(make_int_attr(TAG_ENUM, "printer-state", 3));
    attrs.push(make_attr(TAG_KEYWORD, "printer-state-reasons", "none"));
    attrs.push(make_bool_attr("printer-is-accepting-jobs", true));
    attrs.push(make_int_attr(TAG_INTEGER, "operations-supported", 0x0002));
    attrs.push(make_extra_int(TAG_INTEGER, 0x000B));
    attrs.push(make_extra_int(TAG_INTEGER, 0x0026));
    attrs.push(make_attr(TAG_MIME_MEDIA_TYPE, "document-format-default", "application/pdf"));
    attrs.push(make_attr(TAG_MIME_MEDIA_TYPE, "document-format-supported", "application/pdf"));
    attrs.push(make_extra(TAG_MIME_MEDIA_TYPE, "image/jpeg"));
    attrs.push(make_extra(TAG_MIME_MEDIA_TYPE, "image/urf"));
    attrs.push(make_extra(TAG_MIME_MEDIA_TYPE, "image/pwg-raster"));
    attrs.push(make_bool_attr("color-supported", true));
    attrs.push(make_attr(TAG_KEYWORD, "output-mode-supported", "monochrome"));
    attrs.push(make_extra(TAG_KEYWORD, "color"));
    attrs.push(make_attr(TAG_KEYWORD, "output-mode-default", "color"));
    attrs.push(make_range_attr("copies-supported", 1, 99));
    attrs.push(make_int_attr(TAG_INTEGER, "copies-default", 1));
    attrs.push(make_attr(TAG_KEYWORD, "media-supported", "iso_a4_210x297mm"));
    attrs.push(make_extra(TAG_KEYWORD, "na_letter_8.5x11in"));
    attrs.push(make_attr(TAG_KEYWORD, "media-default", "iso_a4_210x297mm"));
    attrs.push(make_attr(TAG_KEYWORD, "urf-supported", "V1.4"));
    attrs.push(make_extra(TAG_KEYWORD, "W8"));
    attrs.push(make_extra(TAG_KEYWORD, "DM1"));
    attrs.push(make_extra(TAG_KEYWORD, "CP1"));
    attrs.push(make_extra(TAG_KEYWORD, "RS300"));
    attrs.push(make_extra(TAG_KEYWORD, "SRGB24"));
    attrs.push(make_extra(TAG_KEYWORD, "IS1"));
    let group = AttributeGroup { gtag: PRINTER_ATTRIBUTES_TAG, attributes: attrs };
    let mut groups: Vec<AttributeGroup> = Vec::new();
    groups.push(make_op_group());
    groups.push(group);
    let m = IppMessage {
        version_major: 2,
        version_minor: 0,
        op_or_status: STATUS_OK,
        request_id,
        groups,
        payload: None,
    };
    proof {
        let target = attrs_response(request_id, effective_host@, configured_host@, port);
        assert(m@.groups[1].attributes =~= target.groups[1].attributes);
        assert(m@.groups =~~= target.groups);
        assert(m@ =~~= target);
        reveal_strlit("ipp://");
        reveal_strlit(":");
        reveal_strlit("/ipp/print");
        assert(print_uri(effective_host@, port).len() < 0x10000);
        assert(print_uri(configured_host@, port).len() < 0x10000);
        assert forall|j: int| 0 <= j < m@.groups[1].attributes.len() implies wf_attr(
            #[trigger] m@.groups[1].attributes[j],
        ) by {}
        assert(wf_group(m@.groups[0]));
        assert(wf_group(m@.groups[1]));
        assert(wf_msg(m@));
    }
    encode(&m)
}

/// The Print-Job response model: a successful status and one job
/// group reporting the job already completed (the host print path is
/// fire-and-forget).
pub open spec fn job_attrs(request_id: u32, uri: Seq<u8>) -> Seq<AttrModel> {
    seq![
        int_attr_m(TAG_INTEGER, "job-id"@, request_id),
        attr_bytes_m(TAG_URI, "job-uri"@, uri),
        int_attr_m(TAG_ENUM, "job-state"@, 9),
        attr_m(TAG_KEYWORD, "job-state-reasons"@, "job-completed-successfully"@),
    ]
}

/// The full Print-Job response model.
pub open spec fn job_msg(request_id: u32, eh: Seq<char>, port: u16) -> MsgModel {
    MsgModel {
        version_major: 2,
        version_minor: 0,
        op_or_status: STATUS_OK,
        request_id,
        groups: seq![
            op_group(),
            GroupModel {
                gtag: JOB_ATTRIBUTES_TAG,
                attributes: job_attrs(request_id, job_uri(eh, port, request_id)),
            },
        ],
        payload: None,
    }
}

/// Encode the Print-Job response.
pub fn build_job_response(request_id: u32, effective_host: &str, port: u16) -> (r: Vec<u8>)
    requires
        effective_host.is_ascii(),
        effective_host@.len() <= 255,
    ensures
        r@ == enc_msg(job_msg(request_id, effective_host@, port)),
{
    proof {
        reveal_strlit("job-id");
        reveal_strlit("job-uri");
        reveal_strlit("job-state");
        reveal_strlit("job-state-reasons");
        reveal_strlit("job-completed-successfully");
        lemma_dec_bytes_len_u32(port as u32);
        lemma_dec_bytes_len_u32(request_id);
    }
    let uri = build_job_uri(effective_host, port, request_id);
    let mut attrs: Vec<Attribute> = Vec::new();
    attrs.push(make_int_attr(TAG_INTEGER, "job-id", request_id));
    attrs.push(Attribute { vtag: TAG_URI, name: str_bytes("job-uri"), value: uri });
    attrs.push(make_int_attr(TAG_ENUM, "job-state", 9));
    attrs.push(make_attr(TAG_KEYWORD, "job-state-reasons", "job-completed-successfully"));
    let group = AttributeGroup { gtag: JOB_ATTRIBUTES_TAG, attributes: attrs };
    let mut groups: Vec<AttributeGroup> = Vec::new();
    groups.push(make_op_group());
    groups.push(group);
    let m = IppMessage {
        version_major: 2,
        version_minor: 0,
        op_or_status: STATUS_OK,
        request_id,
        groups,
        payload: None,
    };
    proof {
        let target = job_msg(request_id, effective_host@, port);
        assert(m@.groups[1].attributes =~= target.groups[1].attributes);
        assert(m@.groups =~~= target.groups);
        assert(m@ =~~= target);
        reveal_strlit("ipp://");
        reveal_strlit(":");
        reveal_strlit("/jobs/");
        assert(job_uri(effective_host@, port, request_id).len() < 0x10000);
        assert forall|j: int| 0 <= j < m@.groups[1].attributes.len() implies wf_attr(
            #[trigger] m@.groups[1].attributes[j],
        ) by {}
        assert(wf_group(m@.groups[0]));
        assert(wf_group(m@.groups[1]));
        assert(wf_msg(m@));
    }
    encode(&m)
}

/// The request id held in the fixed header.
pub open spec fn header_request_id(b: Seq<u8>) -> u32 {
    read32(b[4], b[5], b[6], b[7])
}

/// The host a response's URIs should name: the inbound `Host:` header
/// with any port stripped, falling back to the configured hostname
/// when there is no header (or the header is longer than a DNS name
/// can be).
pub open spec fn effective_host_model(header: Option<Seq<char>>, configured: Seq<char>)
    -> Seq<char> {
    match header {
        Some(h) => {
            let p = h.subrange(0, crate::text::find_from(h, ':', 0));
            if p.len() <= 255 {
                p
            } else {
                configured
            }
        },
        None => configured,
    }
}

/// Compute the effective host from the `Host:` header.
pub fn effective_host(host_header: Option<&String>, configured: &str) -> (r: String)
    requires
        configured.is_ascii(),
        configured@.len() <= 255,
        host_header matches Some(h) ==> vstd::string::string_is_ascii(h),
    ensures
        r@ == effective_host_model(
            match host_header {
                Some(h) => Some(h@),
                None => None,
            },
            configured@,
        ),
        vstd::string::string_is_ascii(&r),
        r@.len() <= 255,
{
    match host_header {
        Some(h) => {
            let p = crate::text::take_before(h.as_str(), ':');
            let pl = p.as_str().unicode_len();
            if pl <= 255 {
                proof {
                    crate::text::lemma_find_from_bounds(h@, ':', 0);
                    assert forall|i: int| 0 <= i < p@.len() implies '\0' <= #[trigger] p@[i]
                        <= '\u{7f}' by {
                        assert(p@[i] == h@[i]);
                    };
                }
                p
            } else {
                configured.to_owned()
            }
        },
        None => configured.to_owned(),
    }
}

/// Which response each request body receives:
/// - under nine bytes: a permissive success with request id 1;
/// - exactly nine bytes (a bare header): a permissive success echoing
///   the request id;
/// - undecodable: client-error-bad-request, echoing the request id;
/// - Get-Printer-Attributes: the full printer attributes;
/// - Validate-Job: a plain success;
/// - Print-Job with a payload: the job attributes; without one:
///   client-error-bad-request;
/// - anything else: operation-not-supported.
pub open spec fn response_model(body: Seq<u8>, eh: Seq<char>, ch: Seq<char>, port: u16) -> Seq<
    u8,
> {
    if body.len() < 9 {
        enc_msg(simple_msg(1, STATUS_OK))
    } else if body.len() == 9 {
        enc_msg(simple_msg(header_request_id(body), STATUS_OK))
    } else {
        match dec_msg(body) {
            Err(_) => enc_msg(simple_msg(header_request_id(body), STATUS_BAD_REQUEST)),
            Ok(m) => {
                if m.op_or_status == OP_GET_PRINTER_ATTRIBUTES {
                    enc_msg(attrs_response(m.request_id, eh, ch, port))
                } else if m.op_or_status == OP_VALIDATE_JOB {
                    enc_msg(simple_msg(m.request_id, STATUS_OK))
                } else if m.op_or_status == OP_PRINT_JOB {
                    match m.payload {
                        Some(p) => enc_msg(job_msg(m.request_id, eh, port)),
                        None => enc_msg(simple_msg(m.request_id, STATUS_BAD_REQUEST)),
                    }
                } else {
                    enc_msg(simple_msg(m.request_id, STATUS_OPERATION_NOT_SUPPORTED))
                }
            },
        }
    }
}

/// The spool work a request implies: only a decodable Print-Job with
/// a non-empty payload asks for anything.
pub open spec fn print_task_model(body: Seq<u8>) -> Option<(u32, OptionsModel, Seq<u8>)> {
    if body.len() <= 9 {
        None
    } else {
        match dec_msg(body) {
            Ok(m) => {
                if m.op_or_status == OP_PRINT_JOB {
                    match m.payload {
                        Some(p) => Some((m.request_id, extract_options_model(m), p)),
                        None => None,
                    }
                } else {
                    None
                }
            },
            Err(_) => None,
        }
    }
}

/// The spool work of one Print-Job request.
pub struct PrintTask {
    pub request_id: u32,
    pub options: PrintOptions,
    pub payload: Vec<u8>,
}

/// The outcome of one IPP request: the response bytes to send back,
/// and the spool work to hand to the job manager, if any.
pub struct IppOutcome {
    pub response: Vec<u8>,
    pub print: Option<PrintTask>,
}

/// Handle one IPP request body.  The response is exactly
/// `response_model`, and the returned print task exactly
/// `print_task_model`.
pub fn handle_ipp(body: &Vec<u8>, effective_host: &str, configured_host: &str, port: u16) -> (r:
    IppOutcome)
    requires
        effective_host.is_ascii(),
        configured_host.is_ascii(),
        effective_host@.len() <= 255,
        configured_host@.len() <= 255,
    ensures
        r.response@ == response_model(body@, effective_host@, configured_host@, port),
        match r.print {
            Some(t) => print_task_model(body@) == Some((t.request_id, t.options@, t.payload@)),
            None => print_task_model(body@) is None,
        },
{
    if body.len() < 9 {
        return IppOutcome { response: build_simple_response(1, STATUS_OK), print: None };
    }
    let rid = (body[4] as u32) * 0x1000000 + (body[5] as u32) * 0x10000 + (body[6] as u32) * 256 + (
    body[7] as u32);
    assert(rid == header_request_id(body@));
    if body.len() == 9 {
        return IppOutcome { response: build_simple_response(rid, STATUS_OK), print: None };
    }
    match decode(body) {
        Err(_) => IppOutcome {
            response: build_simple_response(rid, STATUS_BAD_REQUEST),
            print: None,
        },
        Ok(m) => {
            if m.op_or_status == OP_GET_PRINTER_ATTRIBUTES {
                IppOutcome {
                    response: build_attrs_response(
                        m.request_id,
                        effective_host,
                        configured_host,
                        port,
                    ),
                    print: None,
                }
            } else if m.op_or_status == OP_VALIDATE_JOB {
                IppOutcome { response: build_simple_response(m.request_id, STATUS_OK), print: None }
            } else if m.op_or_status == OP_PRINT_JOB {
                let options = extract_print_options(&m);
                let request_id = m.request_id;
                match m.payload {
                    Some(payload) => IppOutcome {
                        response: build_job_response(request_id, effective_host, port),
                        print: Some(PrintTask { request_id, options, payload }),
                    },
                    None => IppOutcome {
                        response: build_simple_response(request_id, STATUS_BAD_REQUEST),
                        print: None,
                    },
                }
            } else {
                IppOutcome {
                    response: build_simple_response(m.request_id, STATUS_OPERATION_NOT_SUPPORTED),
                    print: None,
                }
            }
        },
    }
}

/// The HTML landing page served to plain browsers probing port 631:
/// a static page naming the printer URI.
pub open spec fn landing_page_model(host: Seq<char>, port: u16) -> Seq<char> {
    "<!DOCTYPE html>\n<html>\n<head><meta charset=\"UTF-8\"><title>AirPrint Server</title></head>\n<body>\n<h1>AirPrint Virtual Printer</h1>\n<p>Status: <strong>Online</strong></p>\n<p>Printer URI: <code>ipp://"@
        + host + ":"@ + crate::text::ascii_chars(dec_bytes(port as int))
        + "/ipp/print</code></p>\n<p>This printer supports AirPrint and IPP Everywhere.</p>\n</body>\n</html>\n"@
}

/// Build the landing page.
pub fn landing_page(effective_host: &str, port: u16) -> (r: String)
    ensures
        r@ == landing_page_model(effective_host@, port),
{
    let mut out = String::from_str(
        "<!DOCTYPE html>\n<html>\n<head><meta charset=\"UTF-8\"><title>AirPrint Server</title></head>\n<body>\n<h1>AirPrint Virtual Printer</h1>\n<p>Status: <strong>Online</strong></p>\n<p>Printer URI: <code>ipp://",
    );
    out.append(effective_host);
    out.append(":");
    let digits = crate::text::dec_string(port as u64);
    out.append(digits.as_str());
    out.append(
        "/ipp/print</code></p>\n<p>This printer supports AirPrint and IPP Everywhere.</p>\n</body>\n</html>\n",
    );
    out
}

/// The header of every encoded message carries its request id at
/// bytes four to eight.
pub proof fn lemma_enc_msg_request_id(m: MsgModel)
    ensures
        enc_msg(m).len() >= 9,
        enc_msg(m).subrange(4, 8) =~= be32(m.request_id),
{
}

/// Every response echoes the request's id; only a request too short
/// to hold an id (under nine bytes) is answered with id 1.
#[verifier::rlimit(100)]
pub proof fn lemma_response_request_id(body: Seq<u8>, eh: Seq<char>, ch: Seq<char>, port: u16)
    ensures
        response_model(body, eh, ch, port).len() >= 9,
        body.len() >= 9 ==> response_model(body, eh, ch, port).subrange(4, 8) =~= body.subrange(
            4,
            8,
        ),
        body.len() < 9 ==> response_model(body, eh, ch, port).subrange(4, 8) =~= be32(1),
{
    let r = response_model(body, eh, ch, port);
    if body.len() < 9 {
        lemma_enc_msg_request_id(simple_msg(1, STATUS_OK));
    } else {
        lemma_be32_read32(body[4], body[5], body[6], body[7]);
        if body.len() == 9 {
            lemma_enc_msg_request_id(simple_msg(header_request_id(body), STATUS_OK));
            assert(r.subrange(4, 8) =~= body.subrange(4, 8));
        } else {
            match dec_msg(body) {
                Err(_) => {
                    lemma_enc_msg_request_id(
                        simple_msg(header_request_id(body), STATUS_BAD_REQUEST),
                    );
                    assert(r.subrange(4, 8) =~= body.subrange(4, 8));
                },
                Ok(m) => {
                    assert(m.request_id == header_request_id(body));
                    if m.op_or_status == OP_GET_PRINTER_ATTRIBUTES {
                        lemma_enc_msg_request_id(attrs_response(m.request_id, eh, ch, port));
                    } else if m.op_or_status == OP_VALIDATE_JOB {
                        lemma_enc_msg_request_id(simple_msg(m.request_id, STATUS_OK));
                    } else if m.op_or_status == OP_PRINT_JOB {
                        lemma_enc_msg_request_id(job_msg(m.request_id, eh, port));
                        lemma_enc_msg_request_id(simple_msg(m.request_id, STATUS_BAD_REQUEST));
                    } else {
                        lemma_enc_msg_request_id(
                            simple_msg(m.request_id, STATUS_OPERATION_NOT_SUPPORTED),
                        );
                    }
                    assert(r.subrange(4, 8) =~= body.subrange(4, 8));
                },
            }
        }
    }
}

/// The index of the first attribute with the given name, or the
/// length of the run when no attribute has it.
pub open spec fn find_attr(s: Seq<AttrModel>, name: Seq<u8>, i: int) -> int
    decreases s.len() - i,
    when 0 <= i <= s.len()
{
    if i == s.len() {
        i
    } else if s[i].name == name {
        i
    } else {
        find_attr(s, name, i + 1)
    }
}

/// The values of the continuation members from position `j` on: the
/// second and later members of a multi-valued attribute carry an
/// empty name, so the run ends at the first named attribute.
pub open spec fn member_run(s: Seq<AttrModel>, j: int) -> Seq<Seq<u8>>
    decreases s.len() - j,
    when 0 <= j <= s.len()
{
    if j == s.len() || s[j].name.len() != 0 {
        Seq::<Seq<u8>>::empty()
    } else {
        seq![s[j].value] + member_run(s, j + 1)
    }
}

/// All values of the (possibly multi-valued) attribute with the given
/// name: the named member's value followed by the values of its
/// continuation members.
pub open spec fn attr_values(s: Seq<AttrModel>, name: Seq<u8>) -> Seq<Seq<u8>> {
    let k = find_attr(s, name, 0);
    if k < s.len() {
        seq![s[k].value] + member_run(s, k + 1)
    } else {
        Seq::<Seq<u8>>::empty()
    }
}

/// The `urf-supported` values of the printer attributes group are
/// exactly the URF capability tokens, in order.  The TXT record's
/// `URF` value is `join_comma` of the same tokens (see
/// `caps::urf_value`), so the two advertisements present the same
/// token set.
#[verifier::rlimit(100)]
pub proof fn lemma_urf_consistency(base_uri: Seq<u8>, alt: Option<Seq<u8>>)
    ensures
        attr_values(printer_attrs(base_uri, alt), ascii_bytes("urf-supported"@)) =~= Seq::new(
            crate::caps::urf_tokens().len(),
            |i: int| ascii_bytes(crate::caps::urf_tokens()[i]),
        ),
{
    reveal_strlit("printer-name");
    reveal_strlit("printer-info");
    reveal_strlit("printer-location");
    reveal_strlit("printer-make-and-model");
    reveal_strlit("printer-uri-supported");
    reveal_strlit("printer-state");
    reveal_strlit("printer-state-reasons");
    reveal_strlit("printer-is-accepting-jobs");
    reveal_strlit("operations-supported");
    reveal_strlit("document-format-default");
    reveal_strlit("document-format-supported");
    reveal_strlit("color-supported");
    reveal_strlit("output-mode-supported");
    reveal_strlit("output-mode-default");
    reveal_strlit("copies-supported");
    reveal_strlit("copies-default");
    reveal_strlit("media-supported");
    reveal_strlit("media-default");
    reveal_strlit("urf-supported");
    reveal_strlit("V1.4");
    reveal_strlit("W8");
    reveal_strlit("DM1");
    reveal_strlit("CP1");
    reveal_strlit("RS300");
    reveal_strlit("SRGB24");
    reveal_strlit("IS1");
    let s = printer_attrs(base_uri, alt);
    let t = ascii_bytes("urf-supported"@);
    assert(t.len() == 13);
    // The two names of the same length differ in their first byte.
    assert(ascii_bytes("printer-state"@)[0] != t[0]);
    assert(ascii_bytes("media-default"@)[0] != t[0]);
    let k = find_attr(s, t, 0);
    reveal_with_fuel(find_attr, 40);
    reveal_with_fuel(member_run, 10);
    match alt {
        Some(_) => {
            assert(s.len() == 33);
            assert(k == 26);
        },
        None => {
            assert(s.len() == 32);
            assert(k == 25);
        },
    }
    assert(attr_values(s, t) =~= Seq::new(
        crate::caps::urf_tokens().len(),
        |i: int| ascii_bytes(crate::caps::urf_tokens()[i]),
    ));
}

/// A minimal response survives a round trip through the codec, and
/// decodes to one Operation group whose first two attributes are the
/// charset and the natural language, in that order.
pub proof fn lemma_simple_response_round_trip(request_id: u32, status: u16)
    ensures
        dec_msg(enc_msg(simple_msg(request_id, status))) == Ok::<MsgModel, ParseError>(
            simple_msg(request_id, status),
        ),
        simple_msg(request_id, status).groups.len() == 1,
        simple_msg(request_id, status).groups[0].gtag == OPERATION_ATTRIBUTES_TAG,
        simple_msg(request_id, status).groups[0].attributes =~= op_attrs(),
{
    reveal_strlit("attributes-charset");
    reveal_strlit("utf-8");
    reveal_strlit("attributes-natural-language");
    reveal_strlit("en");
    assert(wf_msg(simple_msg(request_id, status)));
    crate::ipp_decode::lemma_dec_msg_complete(simple_msg(request_id, status));
}

} // verus!
