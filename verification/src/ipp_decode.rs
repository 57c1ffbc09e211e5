//! The IPP binary decoder.
//!
//! `dec_msg` is the mathematical decoder: a total function from byte
//! sequences to either a message model or a parse error.  The
//! executable `decode` returns exactly what `dec_msg` says, and the
//! lemmas here show that `dec_msg` is the inverse of `enc_msg`: every
//! accepted input is the encoding of the returned message, and every
//! encoding of a well-formed message is accepted.

use vstd::prelude::*;

use crate::errors::ParseError;
use crate::ipp_msg::{
    AttrModel, Attribute, AttributeGroup, GroupModel, IppMessage, MsgModel, attrs_view,
    groups_view, END_OF_ATTRIBUTES_TAG, JOB_ATTRIBUTES_TAG, OPERATION_ATTRIBUTES_TAG,
    PRINTER_ATTRIBUTES_TAG, TAG_BOOLEAN, TAG_ENUM, TAG_INTEGER, be16, be32, enc_attr, enc_attrs,
    enc_group, enc_groups, enc_msg, lemma_be16_read16, lemma_be32_read32, lemma_read16_be16,
    lemma_read32_be32, payload_bytes, read16, read32, wf_attr, wf_attrs, wf_group, wf_groups,
    wf_msg,
};

verus! {

/// The outcome of parsing a run of attributes: the attributes and the
/// index of the first byte after them (which is a delimiter byte).
#[verifier::ext_equal]
pub ghost struct AttrsParse {
    pub attrs: Seq<AttrModel>,
    pub end: int,
}

/// The outcome of parsing the attribute section: the groups and the
/// index of the first byte after the end-of-attributes tag.
#[verifier::ext_equal]
pub ghost struct GroupsParse {
    pub groups: Seq<GroupModel>,
    pub end: int,
}

/// Parse attributes from position `i` up to the next delimiter byte
/// (any byte below 0x10).  An attribute is
/// `tag | name_len | name | value_len | value` with big-endian 16-bit
/// lengths.
pub open spec fn dec_attrs(b: Seq<u8>, i: int) -> Result<AttrsParse, ParseError>
    decreases b.len() - i,
    when 0 <= i <= b.len()
{
    if i == b.len() {
        Err(ParseError::Truncated)
    } else if b[i] < 0x10 {
        Ok(AttrsParse { attrs: Seq::empty(), end: i })
    } else if i + 3 > b.len() {
        Err(ParseError::Truncated)
    } else {
        let nl = read16(b[i + 1], b[i + 2]) as int;
        if i + 5 + nl > b.len() {
            Err(ParseError::Truncated)
        } else {
            let vl = read16(b[i + 3 + nl], b[i + 4 + nl]) as int;
            if i + 5 + nl + vl > b.len() {
                Err(ParseError::Truncated)
            } else if b[i] == TAG_BOOLEAN && vl != 1 {
                Err(ParseError::BadValue)
            } else if (b[i] == TAG_INTEGER || b[i] == TAG_ENUM) && vl != 4 {
                Err(ParseError::BadValue)
            } else {
                let a = AttrModel {
                    vtag: b[i],
                    name: b.subrange(i + 3, i + 3 + nl),
                    value: b.subrange(i + 5 + nl, i + 5 + nl + vl),
                };
                match dec_attrs(b, i + 5 + nl + vl) {
                    Ok(p) => Ok(AttrsParse { attrs: seq![a] + p.attrs, end: p.end }),
                    Err(e) => Err(e),
                }
            }
        }
    }
}

/// A successful attribute parse ends at a delimiter byte between `i`
/// and the end of the input.
pub proof fn lemma_dec_attrs_end(b: Seq<u8>, i: int)
    requires
        0 <= i <= b.len(),
    ensures
        dec_attrs(b, i) matches Ok(p) ==> i <= p.end < b.len() && b[p.end] < 0x10,
    decreases b.len() - i,
{
    if i == b.len() {
    } else if b[i] < 0x10 {
    } else if i + 3 > b.len() {
    } else {
        let nl = read16(b[i + 1], b[i + 2]) as int;
        if i + 5 + nl <= b.len() {
            let vl = read16(b[i + 3 + nl], b[i + 4 + nl]) as int;
            if i + 5 + nl + vl <= b.len() {
                lemma_dec_attrs_end(b, i + 5 + nl + vl);
            }
        }
    }
}

/// Parse attribute groups from position `i`.  Each group is opened by
/// a delimiter tag in {0x01, 0x02, 0x04} and the section is closed by
/// 0x03; any other byte in delimiter position is rejected.
pub open spec fn dec_groups(b: Seq<u8>, i: int) -> Result<GroupsParse, ParseError>
    decreases b.len() - i,
    when 0 <= i <= b.len()
    via dec_groups_decreases
{
    if i == b.len() {
        Err(ParseError::Truncated)
    } else if b[i] == END_OF_ATTRIBUTES_TAG {
        Ok(GroupsParse { groups: Seq::empty(), end: i + 1 })
    } else if b[i] == OPERATION_ATTRIBUTES_TAG || b[i] == JOB_ATTRIBUTES_TAG || b[i]
        == PRINTER_ATTRIBUTES_TAG {
        match dec_attrs(b, i + 1) {
            Ok(ap) => {
                let g = GroupModel { gtag: b[i], attributes: ap.attrs };
                match dec_groups(b, ap.end) {
                    Ok(gp) => Ok(GroupsParse { groups: seq![g] + gp.groups, end: gp.end }),
                    Err(e) => Err(e),
                }
            },
            Err(e) => Err(e),
        }
    } else {
        Err(ParseError::BadTag)
    }
}

#[via_fn]
proof fn dec_groups_decreases(b: Seq<u8>, i: int) {
    if 0 <= i <= b.len() && i != b.len() && b[i] != END_OF_ATTRIBUTES_TAG && (b[i]
        == OPERATION_ATTRIBUTES_TAG || b[i] == JOB_ATTRIBUTES_TAG || b[i]
        == PRINTER_ATTRIBUTES_TAG) {
        lemma_dec_attrs_end(b, i + 1);
    }
}

/// A successful group parse ends just after the end-of-attributes tag.
pub proof fn lemma_dec_groups_end(b: Seq<u8>, i: int)
    requires
        0 <= i <= b.len(),
    ensures
        dec_groups(b, i) matches Ok(p) ==> i < p.end <= b.len() && b[p.end - 1]
            == END_OF_ATTRIBUTES_TAG,
    decreases b.len() - i,
{
    if i == b.len() {
    } else if b[i] == END_OF_ATTRIBUTES_TAG {
    } else if b[i] == OPERATION_ATTRIBUTES_TAG || b[i] == JOB_ATTRIBUTES_TAG || b[i]
        == PRINTER_ATTRIBUTES_TAG {
        lemma_dec_attrs_end(b, i + 1);
        match dec_attrs(b, i + 1) {
            Ok(ap) => {
                lemma_dec_groups_end(b, ap.end);
            },
            Err(_) => {},
        }
    }
}

/// Parse one whole message: fixed header at bytes 0..8, groups from
/// byte 8, then the payload.  Inputs shorter than nine bytes do not
/// hold a header and a delimiter and are rejected as `Short`.
pub open spec fn dec_msg(b: Seq<u8>) -> Result<MsgModel, ParseError> {
    if b.len() < 9 {
        Err(ParseError::Short)
    } else {
        match dec_groups(b, 8) {
            Ok(gp) => Ok(
                MsgModel {
                    version_major: b[0],
                    version_minor: b[1],
                    op_or_status: read16(b[2], b[3]),
                    request_id: read32(b[4], b[5], b[6], b[7]),
                    groups: gp.groups,
                    payload: if gp.end == b.len() {
                        None
                    } else {
                        Some(b.skip(gp.end))
                    },
                },
            ),
            Err(e) => Err(e),
        }
    }
}

/// Soundness for attributes: whatever `dec_attrs` accepts is
/// well-formed and re-encodes to exactly the bytes it was read from.
pub proof fn lemma_dec_attrs_sound(b: Seq<u8>, i: int)
    requires
        0 <= i <= b.len(),
    ensures
        dec_attrs(b, i) matches Ok(p) ==> {
            &&& i <= p.end < b.len()
            &&& wf_attrs(p.attrs)
            &&& enc_attrs(p.attrs) =~= b.subrange(i, p.end)
        },
    decreases b.len() - i,
{
    lemma_dec_attrs_end(b, i);
    if i == b.len() {
    } else if b[i] < 0x10 {
        assert(enc_attrs(Seq::<AttrModel>::empty()) =~= b.subrange(i, i));
    } else if i + 3 > b.len() {
    } else {
        let nl = read16(b[i + 1], b[i + 2]) as int;
        if i + 5 + nl <= b.len() {
            let vl = read16(b[i + 3 + nl], b[i + 4 + nl]) as int;
            if i + 5 + nl + vl <= b.len() && !(b[i] == TAG_BOOLEAN && vl != 1) && !((b[i]
                == TAG_INTEGER || b[i] == TAG_ENUM) && vl != 4) {
                let j = i + 5 + nl + vl;
                lemma_dec_attrs_sound(b, j);
                lemma_dec_attrs_end(b, j);
                match dec_attrs(b, j) {
                    Ok(p2) => {
                        let a = AttrModel {
                            vtag: b[i],
                            name: b.subrange(i + 3, i + 3 + nl),
                            value: b.subrange(i + 5 + nl, i + 5 + nl + vl),
                        };
                        let p = AttrsParse { attrs: seq![a] + p2.attrs, end: p2.end };
                        assert(dec_attrs(b, i) == Ok::<AttrsParse, ParseError>(p));
                        assert(wf_attr(a));
                        lemma_be16_read16(b[i + 1], b[i + 2]);
                        lemma_be16_read16(b[i + 3 + nl], b[i + 4 + nl]);
                        assert(enc_attr(a) =~= b.subrange(i, j));
                        assert((seq![a] + p2.attrs)[0] == a);
                        assert((seq![a] + p2.attrs).skip(1) =~= p2.attrs);
                        assert(enc_attrs(p.attrs) == enc_attr(a) + enc_attrs(p2.attrs));
                        assert(enc_attrs(p.attrs) =~= b.subrange(i, p.end));
                        assert(forall|k: int|
                            0 <= k < p.attrs.len() ==> wf_attr(#[trigger] p.attrs[k]));
                    },
                    Err(_) => {},
                }
            }
        }
    }
}

/// Soundness for groups: whatever `dec_groups` accepts is well-formed
/// and re-encodes (with the closing tag) to exactly the bytes it was
/// read from.
pub proof fn lemma_dec_groups_sound(b: Seq<u8>, i: int)
    requires
        0 <= i <= b.len(),
    ensures
        dec_groups(b, i) matches Ok(p) ==> {
            &&& i < p.end <= b.len()
            &&& wf_groups(p.groups)
            &&& enc_groups(p.groups) + seq![END_OF_ATTRIBUTES_TAG] =~= b.subrange(i, p.end)
        },
    decreases b.len() - i,
{
    lemma_dec_groups_end(b, i);
    if i == b.len() {
    } else if b[i] == END_OF_ATTRIBUTES_TAG {
        assert(enc_groups(Seq::<GroupModel>::empty()) + seq![END_OF_ATTRIBUTES_TAG] =~= b.subrange(
            i,
            i + 1,
        ));
    } else if b[i] == OPERATION_ATTRIBUTES_TAG || b[i] == JOB_ATTRIBUTES_TAG || b[i]
        == PRINTER_ATTRIBUTES_TAG {
        lemma_dec_attrs_sound(b, i + 1);
        lemma_dec_attrs_end(b, i + 1);
        match dec_attrs(b, i + 1) {
            Ok(ap) => {
                let g = GroupModel { gtag: b[i], attributes: ap.attrs };
                lemma_dec_groups_sound(b, ap.end);
                lemma_dec_groups_end(b, ap.end);
                match dec_groups(b, ap.end) {
                    Ok(gp) => {
                        let p = GroupsParse { groups: seq![g] + gp.groups, end: gp.end };
                        assert(dec_groups(b, i) == Ok::<GroupsParse, ParseError>(p));
                        assert(wf_group(g));
                        assert(enc_group(g) =~= b.subrange(i, ap.end));
                        assert((seq![g] + gp.groups)[0] == g);
                        assert((seq![g] + gp.groups).skip(1) =~= gp.groups);
                        assert(enc_groups(p.groups) == enc_group(g) + enc_groups(gp.groups));
                        assert(enc_groups(gp.groups) + seq![END_OF_ATTRIBUTES_TAG] =~= b.subrange(
                            ap.end,
                            gp.end,
                        ));
                        assert(b.subrange(i, p.end) =~= b.subrange(i, ap.end) + b.subrange(
                            ap.end,
                            gp.end,
                        ));
                        assert(enc_groups(p.groups) + seq![END_OF_ATTRIBUTES_TAG] =~= b.subrange(
                            i,
                            p.end,
                        ));
                        assert(forall|k: int|
                            0 <= k < p.groups.len() ==> wf_group(#[trigger] p.groups[k]));
                    },
                    Err(_) => {},
                }
            },
            Err(_) => {},
        }
    }
}

/// Soundness: whatever `dec_msg` accepts is well-formed and re-encodes
/// to exactly the input.  Together with the encoder's contract this
/// says `encode(decode(b)) == b` whenever `decode(b)` succeeds.
pub proof fn lemma_dec_msg_sound(b: Seq<u8>)
    ensures
        dec_msg(b) matches Ok(m) ==> {
            &&& wf_msg(m)
            &&& enc_msg(m) =~= b
        },
{
    if b.len() >= 9 {
        lemma_dec_groups_sound(b, 8);
        lemma_dec_groups_end(b, 8);
        match dec_groups(b, 8) {
            Ok(gp) => {
                match dec_msg(b) {
                    Ok(m) => {
                        lemma_be16_read16(b[2], b[3]);
                        lemma_be32_read32(b[4], b[5], b[6], b[7]);
                        assert(m.groups == gp.groups);
                        assert(seq![m.version_major, m.version_minor] + be16(m.op_or_status)
                            + be32(m.request_id) =~= b.subrange(0, 8));
                        assert(enc_groups(m.groups) + seq![END_OF_ATTRIBUTES_TAG] =~= b.subrange(
                            8,
                            gp.end,
                        ));
                        if gp.end == b.len() {
                            assert(payload_bytes(m.payload) =~= b.skip(gp.end));
                        } else {
                            assert(payload_bytes(m.payload) =~= b.skip(gp.end));
                        }
                        assert(b =~= b.subrange(0, 8) + b.subrange(8, gp.end) + b.skip(gp.end));
                        assert(enc_msg(m) =~= b);
                    },
                    Err(_) => {},
                }
            },
            Err(_) => {},
        }
    }
}

/// A non-empty run of groups encodes to bytes that open with the
/// first group's delimiter tag.
proof fn lemma_enc_groups_first(s: Seq<GroupModel>)
    requires
        s.len() > 0,
    ensures
        enc_groups(s).len() > 0,
        enc_groups(s)[0] == s[0].gtag,
{
    assert(enc_groups(s) == enc_group(s[0]) + enc_groups(s.skip(1)));
}

/// Completeness for attributes: the encoding of any well-formed run of
/// attributes, followed by a delimiter byte, parses back to exactly
/// that run.
pub proof fn lemma_dec_attrs_complete(b: Seq<u8>, i: int, attrs: Seq<AttrModel>)
    requires
        0 <= i,
        wf_attrs(attrs),
        i + enc_attrs(attrs).len() < b.len(),
        b.subrange(i, i + enc_attrs(attrs).len()) == enc_attrs(attrs),
        b[i + enc_attrs(attrs).len()] < 0x10,
    ensures
        dec_attrs(b, i) == Ok::<AttrsParse, ParseError>(
            AttrsParse { attrs, end: i + enc_attrs(attrs).len() },
        ),
    decreases attrs.len(),
{
    if attrs.len() == 0 {
        assert(enc_attrs(attrs).len() == 0);
        assert(b[i] < 0x10);
        assert(dec_attrs(b, i) == Ok::<AttrsParse, ParseError>(
            AttrsParse { attrs: Seq::empty(), end: i },
        ));
        assert(attrs =~= Seq::<AttrModel>::empty());
    } else {
        let a = attrs[0];
        let rest = attrs.skip(1);
        assert(enc_attrs(attrs) == enc_attr(a) + enc_attrs(rest));
        let nl = a.name.len() as int;
        let vl = a.value.len() as int;
        let la = 5 + nl + vl;
        assert(enc_attr(a).len() == la);
        let ltotal = enc_attrs(attrs).len() as int;
        // Each byte of the encoding is visible through the subrange equality.
        assert forall|k: int| 0 <= k < ltotal implies b[i + k] == #[trigger] enc_attrs(attrs)[k] by {
            assert(b.subrange(i, i + ltotal)[k] == b[i + k]);
        };
        lemma_read16_be16(a.name.len() as u16);
        lemma_read16_be16(a.value.len() as u16);
        assert(enc_attrs(attrs)[0] == a.vtag);
        assert(b[i] == a.vtag);
        assert(a.vtag >= 0x10);
        assert(enc_attrs(attrs)[1] == be16(a.name.len() as u16)[0]);
        assert(enc_attrs(attrs)[2] == be16(a.name.len() as u16)[1]);
        assert(b[i + 1] == be16(a.name.len() as u16)[0]);
        assert(b[i + 2] == be16(a.name.len() as u16)[1]);
        assert(read16(b[i + 1], b[i + 2]) as int == nl);
        assert(enc_attrs(attrs)[3 + nl] == be16(a.value.len() as u16)[0]);
        assert(enc_attrs(attrs)[4 + nl] == be16(a.value.len() as u16)[1]);
        assert(b[i + 3 + nl] == be16(a.value.len() as u16)[0]);
        assert(b[i + 4 + nl] == be16(a.value.len() as u16)[1]);
        assert(read16(b[i + 3 + nl], b[i + 4 + nl]) as int == vl);
        assert forall|k: int| 0 <= k < nl implies b[i + 3 + k] == a.name[k] by {
            assert(b[i + (3 + k)] == enc_attrs(attrs)[3 + k]);
            assert(enc_attrs(attrs)[3 + k] == a.name[k]);
        };
        assert(b.subrange(i + 3, i + 3 + nl) =~= a.name);
        assert forall|k: int| 0 <= k < vl implies b[i + 5 + nl + k] == a.value[k] by {
            assert(b[i + (5 + nl + k)] == enc_attrs(attrs)[5 + nl + k]);
            assert(enc_attrs(attrs)[5 + nl + k] == a.value[k]);
        };
        assert(b.subrange(i + 5 + nl, i + 5 + nl + vl) =~= a.value);
        let parsed = AttrModel {
            vtag: b[i],
            name: b.subrange(i + 3, i + 3 + nl),
            value: b.subrange(i + 5 + nl, i + 5 + nl + vl),
        };
        assert(parsed =~= a);
        let j = i + la;
        assert forall|k: int| 0 <= k < enc_attrs(rest).len() implies b[j + k] == #[trigger] enc_attrs(
            rest,
        )[k] by {
            assert(b[i + (la + k)] == enc_attrs(attrs)[la + k]);
            assert(enc_attrs(attrs)[la + k] == enc_attrs(rest)[k]);
        };
        assert(b.subrange(j, j + enc_attrs(rest).len()) =~= enc_attrs(rest));
        lemma_dec_attrs_complete(b, j, rest);
        assert(dec_attrs(b, i) == Ok::<AttrsParse, ParseError>(
            AttrsParse { attrs: seq![a] + rest, end: i + ltotal },
        ));
        assert(seq![a] + rest =~= attrs);
    }
}

/// Completeness for groups: the encoding of any well-formed run of
/// groups, followed by the end-of-attributes tag, parses back to
/// exactly that run.
pub proof fn lemma_dec_groups_complete(b: Seq<u8>, i: int, gs: Seq<GroupModel>)
    requires
        0 <= i,
        wf_groups(gs),
        i + enc_groups(gs).len() < b.len(),
        b.subrange(i, i + enc_groups(gs).len()) == enc_groups(gs),
        b[i + enc_groups(gs).len()] == END_OF_ATTRIBUTES_TAG,
    ensures
        dec_groups(b, i) == Ok::<GroupsParse, ParseError>(
            GroupsParse { groups: gs, end: i + enc_groups(gs).len() + 1 },
        ),
    decreases gs.len(),
{
    if gs.len() == 0 {
        assert(enc_groups(gs).len() == 0);
        assert(b[i] == END_OF_ATTRIBUTES_TAG);
        assert(gs =~= Seq::<GroupModel>::empty());
    } else {
        let g = gs[0];
        let rest = gs.skip(1);
        assert(enc_groups(gs) == enc_group(g) + enc_groups(rest));
        let la = enc_attrs(g.attributes).len() as int;
        let ltotal = enc_groups(gs).len() as int;
        assert(enc_group(g).len() == 1 + la);
        assert forall|k: int| 0 <= k < ltotal implies b[i + k] == #[trigger] enc_groups(gs)[k] by {
            assert(b.subrange(i, i + ltotal)[k] == b[i + k]);
        };
        assert(enc_groups(gs)[0] == g.gtag);
        assert(b[i] == g.gtag);
        assert(g.gtag == OPERATION_ATTRIBUTES_TAG || g.gtag == JOB_ATTRIBUTES_TAG || g.gtag
            == PRINTER_ATTRIBUTES_TAG);
        // The byte after this group's attributes is the next group's
        // delimiter tag, or the closing tag when this group is last.
        if rest.len() > 0 {
            lemma_enc_groups_first(rest);
            assert(enc_groups(gs)[1 + la] == enc_groups(rest)[0]);
            assert(b[i + (1 + la)] == enc_groups(gs)[1 + la]);
            assert(b[i + 1 + la] == rest[0].gtag);
            assert(rest[0].gtag < 0x10);
        } else {
            assert(i + 1 + la == i + ltotal);
            assert(b[i + 1 + la] == END_OF_ATTRIBUTES_TAG);
        }
        assert forall|k: int| 0 <= k < la implies b[i + 1 + k] == #[trigger] enc_attrs(
            g.attributes,
        )[k] by {
            assert(b[i + (1 + k)] == enc_groups(gs)[1 + k]);
            assert(enc_groups(gs)[1 + k] == enc_group(g)[1 + k]);
            assert(enc_group(g)[1 + k] == enc_attrs(g.attributes)[k]);
        };
        assert(b.subrange(i + 1, i + 1 + la) =~= enc_attrs(g.attributes));
        lemma_dec_attrs_complete(b, i + 1, g.attributes);
        let j = i + 1 + la;
        assert forall|k: int| 0 <= k < enc_groups(rest).len() implies b[j + k]
            == #[trigger] enc_groups(rest)[k] by {
            assert(b[i + (1 + la + k)] == enc_groups(gs)[1 + la + k]);
            assert(enc_groups(gs)[1 + la + k] == enc_groups(rest)[k]);
        };
        assert(b.subrange(j, j + enc_groups(rest).len()) =~= enc_groups(rest));
        assert(b[j + enc_groups(rest).len()] == END_OF_ATTRIBUTES_TAG);
        lemma_dec_groups_complete(b, j, rest);
        let parsed = GroupModel { gtag: b[i], attributes: g.attributes };
        assert(parsed =~= g);
        assert(dec_groups(b, i) == Ok::<GroupsParse, ParseError>(
            GroupsParse { groups: seq![g] + rest, end: i + ltotal + 1 },
        ));
        assert(seq![g] + rest =~= gs);
    }
}

/// Completeness: decoding the encoding of any well-formed message
/// yields that very message.  Together with `lemma_dec_msg_sound`
/// this makes `dec_msg` the exact inverse of `enc_msg`, so a decoded
/// request re-encodes to the same header and the same attributes in
/// the same order, and an encoded response survives a round trip
/// through the decoder.
pub proof fn lemma_dec_msg_complete(m: MsgModel)
    requires
        wf_msg(m),
    ensures
        dec_msg(enc_msg(m)) == Ok::<MsgModel, ParseError>(m),
{
    let b = enc_msg(m);
    let lg = enc_groups(m.groups).len() as int;
    let lp = payload_bytes(m.payload).len() as int;
    assert(b.len() == 8 + lg + 1 + lp);
    assert(b.subrange(8, 8 + lg) =~= enc_groups(m.groups));
    assert(b[8 + lg] == END_OF_ATTRIBUTES_TAG);
    lemma_dec_groups_complete(b, 8, m.groups);
    let end = 9 + lg;
    assert(b.skip(end) =~= payload_bytes(m.payload));
    lemma_read16_be16(m.op_or_status);
    lemma_read32_be32(m.request_id);
    assert(b[0] == m.version_major);
    assert(b[1] == m.version_minor);
    assert(read16(b[2], b[3]) == m.op_or_status);
    assert(read32(b[4], b[5], b[6], b[7]) == m.request_id);
    match dec_msg(b) {
        Ok(m2) => {
            match m.payload {
                Some(p) => {
                    assert(p.len() > 0);
                    assert(end < b.len());
                    assert(m2.payload == Some(b.skip(end)));
                    assert(b.skip(end) =~= p);
                },
                None => {
                    assert(end == b.len());
                },
            }
            assert(m2 =~= m);
        },
        Err(_) => {
            assert(false);
        },
    }
}

/// A copy of `b[from..to]`.
fn copy_range(b: &Vec<u8>, from: usize, to: usize) -> (r: Vec<u8>)
    requires
        from <= to <= b.len(),
    ensures
        r@ =~= b@.subrange(from as int, to as int),
{
    let mut r: Vec<u8> = Vec::new();
    let mut k: usize = from;
    while k < to
        invariant
            from <= k <= to <= b.len(),
            r@ =~= b@.subrange(from as int, k as int),
        decreases to - k,
    {
        r.push(b[k]);
        k = k + 1;
        assert(b@.subrange(from as int, k as int) =~= b@.subrange(from as int, k - 1).push(
            b@[k - 1],
        ));
    }
    r
}

/// Parse a run of attributes starting at `start`; returns them and
/// the index of the delimiter byte that ended the run.  Follows
/// `dec_attrs` exactly, one attribute per loop step, so the stack
/// stays flat however many attributes an input holds.
fn parse_attrs(b: &Vec<u8>, start: usize) -> (r: Result<(Vec<Attribute>, usize), ParseError>)
    requires
        start <= b.len(),
    ensures
        match r {
            Ok(p) => dec_attrs(b@, start as int) == Ok::<AttrsParse, ParseError>(
                AttrsParse { attrs: attrs_view(p.0@), end: p.1 as int },
            ) && p.1 <= b.len(),
            Err(e) => dec_attrs(b@, start as int) == Err::<AttrsParse, ParseError>(e),
        },
{
    let mut acc: Vec<Attribute> = Vec::new();
    let mut i: usize = start;
    loop
        invariant
            start <= i <= b.len(),
            // The overall parse is the parse from here, with the
            // attributes gathered so far in front of it.
            match dec_attrs(b@, i as int) {
                Ok(p) => dec_attrs(b@, start as int) == Ok::<AttrsParse, ParseError>(
                    AttrsParse { attrs: attrs_view(acc@) + p.attrs, end: p.end },
                ),
                Err(e) => dec_attrs(b@, start as int) == Err::<AttrsParse, ParseError>(e),
            },
        decreases b.len() - i,
    {
        if i == b.len() {
            return Err(ParseError::Truncated);
        }
        let tag = b[i];
        if tag < 0x10 {
            proof {
                assert(attrs_view(acc@) + Seq::<AttrModel>::empty() =~= attrs_view(acc@));
            }
            return Ok((acc, i));
        }
        let rem = b.len() - i;
        if rem < 3 {
            return Err(ParseError::Truncated);
        }
        let nl = (b[i + 1] as usize) * 256 + (b[i + 2] as usize);
        assert(nl == read16(b@[i + 1], b@[i + 2]) as int);
        if rem < 5 + nl {
            assert(i + 5 + nl > b@.len());
            return Err(ParseError::Truncated);
        }
        let vl = (b[i + 3 + nl] as usize) * 256 + (b[i + 4 + nl] as usize);
        assert(vl == read16(b@[i + 3 + nl], b@[i + 4 + nl]) as int);
        if rem < 5 + nl + vl {
            assert(i + 5 + nl + vl > b@.len());
            return Err(ParseError::Truncated);
        }
        if tag == TAG_BOOLEAN && vl != 1 {
            return Err(ParseError::BadValue);
        }
        if (tag == TAG_INTEGER || tag == TAG_ENUM) && vl != 4 {
            return Err(ParseError::BadValue);
        }
        let name = copy_range(b, i + 3, i + 3 + nl);
        let value = copy_range(b, i + 5 + nl, i + 5 + nl + vl);
        let a = Attribute { vtag: tag, name, value };
        let j = i + 5 + nl + vl;
        let ghost acc0: Seq<Attribute> = acc@;
        acc.push(a);
        proof {
            assert(attrs_view(acc@) =~= attrs_view(acc0) + seq![a@]);
            match dec_attrs(b@, j as int) {
                Ok(p) => {
                    assert(dec_attrs(b@, i as int) == Ok::<AttrsParse, ParseError>(
                        AttrsParse { attrs: seq![a@] + p.attrs, end: p.end },
                    ));
                    assert(attrs_view(acc0) + (seq![a@] + p.attrs) =~= attrs_view(acc@) + p.attrs);
                },
                Err(e) => {
                    assert(dec_attrs(b@, i as int) == Err::<AttrsParse, ParseError>(e));
                },
            }
        }
        i = j;
    }
}

/// Parse the whole attribute section starting at `start`; returns
/// the groups and the index just after the end-of-attributes tag.
/// Follows `dec_groups` exactly, one group per loop step.
fn parse_groups(b: &Vec<u8>, start: usize) -> (r: Result<
    (Vec<AttributeGroup>, usize),
    ParseError,
>)
    requires
        start <= b.len(),
    ensures
        match r {
            Ok(p) => dec_groups(b@, start as int) == Ok::<GroupsParse, ParseError>(
                GroupsParse { groups: groups_view(p.0@), end: p.1 as int },
            ) && p.1 <= b.len(),
            Err(e) => dec_groups(b@, start as int) == Err::<GroupsParse, ParseError>(e),
        },
{
    let mut acc: Vec<AttributeGroup> = Vec::new();
    let mut i: usize = start;
    loop
        invariant
            start <= i <= b.len(),
            // The overall parse is the parse from here, with the
            // groups gathered so far in front of it.
            match dec_groups(b@, i as int) {
                Ok(p) => dec_groups(b@, start as int) == Ok::<GroupsParse, ParseError>(
                    GroupsParse { groups: groups_view(acc@) + p.groups, end: p.end },
                ),
                Err(e) => dec_groups(b@, start as int) == Err::<GroupsParse, ParseError>(e),
            },
        decreases b.len() - i,
    {
        if i == b.len() {
            return Err(ParseError::Truncated);
        }
        let tag = b[i];
        if tag == END_OF_ATTRIBUTES_TAG {
            proof {
                assert(groups_view(acc@) + Seq::<GroupModel>::empty() =~= groups_view(acc@));
            }
            return Ok((acc, i + 1));
        }
        if tag == OPERATION_ATTRIBUTES_TAG || tag == JOB_ATTRIBUTES_TAG || tag
            == PRINTER_ATTRIBUTES_TAG {
            match parse_attrs(b, i + 1) {
                Ok((attrs, aend)) => {
                    let g = AttributeGroup { gtag: tag, attributes: attrs };
                    proof {
                        lemma_dec_attrs_end(b@, i as int + 1);
                    }
                    let ghost acc0: Seq<AttributeGroup> = acc@;
                    acc.push(g);
                    proof {
                        assert(groups_view(acc@) =~= groups_view(acc0) + seq![g@]);
                        match dec_groups(b@, aend as int) {
                            Ok(p) => {
                                assert(dec_groups(b@, i as int) == Ok::<GroupsParse, ParseError>(
                                    GroupsParse { groups: seq![g@] + p.groups, end: p.end },
                                ));
                                assert(groups_view(acc0) + (seq![g@] + p.groups) =~= groups_view(
                                    acc@,
                                ) + p.groups);
                            },
                            Err(e) => {
                                assert(dec_groups(b@, i as int) == Err::<GroupsParse, ParseError>(
                                    e,
                                ));
                            },
                        }
                    }
                    i = aend;
                },
                Err(e) => {
                    return Err(e);
                },
            }
        } else {
            return Err(ParseError::BadTag);
        }
    }
}

/// Decode one IPP message.  The result is exactly `dec_msg` of the
/// input: on success the returned message is well-formed and
/// re-encodes byte for byte to the input (`lemma_dec_msg_sound`); and
/// the encoding of any well-formed message decodes successfully
/// (`lemma_dec_msg_complete`), so an `Err` is returned only for inputs
/// that no well-formed message encodes to.
pub fn decode(b: &Vec<u8>) -> (r: Result<IppMessage, ParseError>)
    ensures
        match r {
            Ok(m) => dec_msg(b@) == Ok::<MsgModel, ParseError>(m@),
            Err(e) => dec_msg(b@) == Err::<MsgModel, ParseError>(e),
        },
{
    if b.len() < 9 {
        return Err(ParseError::Short);
    }
    match parse_groups(b, 8) {
        Ok((groups, end)) => {
            let payload: Option<Vec<u8>> = if end == b.len() {
                None
            } else {
                Some(copy_range(b, end, b.len()))
            };
            let op = (b[2] as u16) * 256 + (b[3] as u16);
            let rid = (b[4] as u32) * 0x1000000 + (b[5] as u32) * 0x10000 + (b[6] as u32) * 256 + (
            b[7] as u32);
            let m = IppMessage {
                version_major: b[0],
                version_minor: b[1],
                op_or_status: op,
                request_id: rid,
                groups,
                payload,
            };
            proof {
                assert(m@.op_or_status == read16(b@[2], b@[3]));
                assert(m@.request_id == read32(b@[4], b@[5], b@[6], b@[7]));
                match dec_msg(b@) {
                    Ok(mm) => {
                        assert(m@ =~= mm);
                    },
                    Err(_) => {
                        assert(false);
                    },
                }
            }
            Ok(m)
        },
        Err(e) => Err(e),
    }
}

} // verus!
