//! The IPP binary message model.
//!
//! An IPP message is a fixed header (version, operation or status,
//! request id), a run of attribute groups, a closing end-of-attributes
//! tag, and an optional trailing payload.  `enc_msg` is the one
//! authoritative description of that wire shape: the executable encoder
//! produces exactly `enc_msg` of its input, and the decoder (see
//! `ipp_decode`) accepts exactly the byte sequences that `enc_msg` can
//! produce from a well-formed message.

use vstd::prelude::*;

verus! {

/// Delimiter tag opening the operation attributes group.
pub const OPERATION_ATTRIBUTES_TAG: u8 = 0x01;

/// Delimiter tag opening the job attributes group.
pub const JOB_ATTRIBUTES_TAG: u8 = 0x02;

/// Delimiter tag closing the attribute section.
pub const END_OF_ATTRIBUTES_TAG: u8 = 0x03;

/// Delimiter tag opening the printer attributes group.
pub const PRINTER_ATTRIBUTES_TAG: u8 = 0x04;

/// Value tag: 32-bit integer.
pub const TAG_INTEGER: u8 = 0x21;

/// Value tag: boolean (one byte).
pub const TAG_BOOLEAN: u8 = 0x22;

/// Value tag: 32-bit enum.
pub const TAG_ENUM: u8 = 0x23;

/// Value tag: octet string.
pub const TAG_OCTET_STRING: u8 = 0x30;

/// Value tag: range of integer (two 32-bit integers).
pub const TAG_RANGE_OF_INTEGER: u8 = 0x33;

/// Value tag: text without language.
pub const TAG_TEXT_WITHOUT_LANGUAGE: u8 = 0x41;

/// Value tag: name without language.
pub const TAG_NAME_WITHOUT_LANGUAGE: u8 = 0x42;

/// Value tag: keyword.
pub const TAG_KEYWORD: u8 = 0x44;

/// Value tag: URI.
pub const TAG_URI: u8 = 0x45;

/// Value tag: charset.
pub const TAG_CHARSET: u8 = 0x47;

/// Value tag: natural language.
pub const TAG_NATURAL_LANGUAGE: u8 = 0x48;

/// Value tag: MIME media type.
pub const TAG_MIME_MEDIA_TYPE: u8 = 0x49;

/// One attribute on the wire: a value tag, a name (empty for the
/// second and later members of a multi-valued attribute), and the raw
/// value bytes.
#[derive(Debug)]
pub struct Attribute {
    pub vtag: u8,
    pub name: Vec<u8>,
    pub value: Vec<u8>,
}

/// The mathematical shape of an [`Attribute`].
#[verifier::ext_equal]
pub ghost struct AttrModel {
    pub vtag: u8,
    pub name: Seq<u8>,
    pub value: Seq<u8>,
}

impl View for Attribute {
    type V = AttrModel;

    open spec fn view(&self) -> AttrModel {
        AttrModel { vtag: self.vtag, name: self.name@, value: self.value@ }
    }
}

/// One attribute group: its delimiter tag and its attributes in wire
/// order.
#[derive(Debug)]
pub struct AttributeGroup {
    pub gtag: u8,
    pub attributes: Vec<Attribute>,
}

/// The mathematical shape of an [`AttributeGroup`].
#[verifier::ext_equal]
pub ghost struct GroupModel {
    pub gtag: u8,
    pub attributes: Seq<AttrModel>,
}

/// The models of a sequence of attributes.
pub open spec fn attrs_view(v: Seq<Attribute>) -> Seq<AttrModel> {
    Seq::new(v.len(), |i: int| v[i]@)
}

impl View for AttributeGroup {
    type V = GroupModel;

    open spec fn view(&self) -> GroupModel {
        GroupModel { gtag: self.gtag, attributes: attrs_view(self.attributes@) }
    }
}

/// A whole IPP message.  `op_or_status` is an operation code in
/// requests and a status code in responses.  `payload` is the document
/// data after the end-of-attributes tag; it is `None` when no bytes
/// follow that tag.
#[derive(Debug)]
pub struct IppMessage {
    pub version_major: u8,
    pub version_minor: u8,
    pub op_or_status: u16,
    pub request_id: u32,
    pub groups: Vec<AttributeGroup>,
    pub payload: Option<Vec<u8>>,
}

/// The mathematical shape of an [`IppMessage`].
#[verifier::ext_equal]
pub ghost struct MsgModel {
    pub version_major: u8,
    pub version_minor: u8,
    pub op_or_status: u16,
    pub request_id: u32,
    pub groups: Seq<GroupModel>,
    pub payload: Option<Seq<u8>>,
}

/// The models of a sequence of groups.
pub open spec fn groups_view(v: Seq<AttributeGroup>) -> Seq<GroupModel> {
    Seq::new(v.len(), |i: int| v[i]@)
}

impl View for IppMessage {
    type V = MsgModel;

    open spec fn view(&self) -> MsgModel {
        MsgModel {
            version_major: self.version_major,
            version_minor: self.version_minor,
            op_or_status: self.op_or_status,
            request_id: self.request_id,
            groups: groups_view(self.groups@),
            payload: match self.payload {
                Some(p) => Some(p@),
                None => None,
            },
        }
    }
}

/// The two big-endian bytes of a 16-bit value.
pub open spec fn be16(v: u16) -> Seq<u8> {
    seq![(v / 256) as u8, (v % 256) as u8]
}

/// The four big-endian bytes of a 32-bit value.
pub open spec fn be32(v: u32) -> Seq<u8> {
    seq![
        (v / 0x1000000) as u8,
        ((v / 0x10000) % 256) as u8,
        ((v / 256) % 256) as u8,
        (v % 256) as u8,
    ]
}

/// The 16-bit value read big-endian from two bytes.
pub open spec fn read16(b0: u8, b1: u8) -> u16 {
    ((b0 as int) * 256 + (b1 as int)) as u16
}

/// The 32-bit value read big-endian from four bytes.
pub open spec fn read32(b0: u8, b1: u8, b2: u8, b3: u8) -> u32 {
    ((b0 as int) * 0x1000000 + (b1 as int) * 0x10000 + (b2 as int) * 256 + (b3 as int)) as u32
}

pub proof fn lemma_read16_be16(v: u16)
    ensures
        read16(be16(v)[0], be16(v)[1]) == v,
{
}

pub proof fn lemma_read32_be32(v: u32)
    ensures
        read32(be32(v)[0], be32(v)[1], be32(v)[2], be32(v)[3]) == v,
{
}

pub proof fn lemma_be16_read16(b0: u8, b1: u8)
    ensures
        be16(read16(b0, b1)) =~= seq![b0, b1],
{
}

pub proof fn lemma_be32_read32(b0: u8, b1: u8, b2: u8, b3: u8)
    ensures
        be32(read32(b0, b1, b2, b3)) =~= seq![b0, b1, b2, b3],
{
    let v = (b0 as int) * 0x1000000 + (b1 as int) * 0x10000 + (b2 as int) * 256 + (b3 as int);
    vstd::arithmetic::div_mod::lemma_fundamental_div_mod_converse(
        v,
        0x1000000,
        b0 as int,
        (b1 as int) * 0x10000 + (b2 as int) * 256 + (b3 as int),
    );
    vstd::arithmetic::div_mod::lemma_fundamental_div_mod_converse(
        v,
        0x10000,
        (b0 as int) * 256 + (b1 as int),
        (b2 as int) * 256 + (b3 as int),
    );
    vstd::arithmetic::div_mod::lemma_fundamental_div_mod_converse(
        (b0 as int) * 256 + (b1 as int),
        256,
        b0 as int,
        b1 as int,
    );
    vstd::arithmetic::div_mod::lemma_fundamental_div_mod_converse(
        v,
        256,
        (b0 as int) * 0x10000 + (b1 as int) * 256 + (b2 as int),
        b3 as int,
    );
    vstd::arithmetic::div_mod::lemma_fundamental_div_mod_converse(
        (b0 as int) * 0x10000 + (b1 as int) * 256 + (b2 as int),
        256,
        (b0 as int) * 256 + (b1 as int),
        b2 as int,
    );
}

/// The wire bytes of one attribute.
pub open spec fn enc_attr(a: AttrModel) -> Seq<u8> {
    seq![a.vtag] + be16(a.name.len() as u16) + a.name + be16(a.value.len() as u16) + a.value
}

/// The wire bytes of a run of attributes.
pub open spec fn enc_attrs(s: Seq<AttrModel>) -> Seq<u8>
    decreases s.len(),
{
    if s.len() == 0 {
        Seq::<u8>::empty()
    } else {
        enc_attr(s[0]) + enc_attrs(s.skip(1))
    }
}

/// The wire bytes of one group: its delimiter tag, then its attributes.
pub open spec fn enc_group(g: GroupModel) -> Seq<u8> {
    seq![g.gtag] + enc_attrs(g.attributes)
}

/// The wire bytes of a run of groups.
pub open spec fn enc_groups(s: Seq<GroupModel>) -> Seq<u8>
    decreases s.len(),
{
    if s.len() == 0 {
        Seq::<u8>::empty()
    } else {
        enc_group(s[0]) + enc_groups(s.skip(1))
    }
}

/// The trailing payload bytes, empty when there is no payload.
pub open spec fn payload_bytes(p: Option<Seq<u8>>) -> Seq<u8> {
    match p {
        Some(b) => b,
        None => Seq::<u8>::empty(),
    }
}

/// The complete wire shape of a message: header, groups,
/// end-of-attributes tag, payload.
pub open spec fn enc_msg(m: MsgModel) -> Seq<u8> {
    seq![m.version_major, m.version_minor] + be16(m.op_or_status) + be32(m.request_id)
        + enc_groups(m.groups) + seq![END_OF_ATTRIBUTES_TAG] + payload_bytes(m.payload)
}

/// An attribute the codec can carry: a value tag (delimiter tags are
/// below 0x10), name and value short enough for their 16-bit length
/// fields, and a value length that agrees with the boolean, integer
/// and enum tags.
pub open spec fn wf_attr(a: AttrModel) -> bool {
    &&& a.vtag >= 0x10
    &&& a.name.len() < 0x10000
    &&& a.value.len() < 0x10000
    &&& (a.vtag == TAG_BOOLEAN ==> a.value.len() == 1)
    &&& ((a.vtag == TAG_INTEGER || a.vtag == TAG_ENUM) ==> a.value.len() == 4)
}

pub open spec fn wf_attrs(s: Seq<AttrModel>) -> bool {
    forall|i: int| 0 <= i < s.len() ==> wf_attr(#[trigger] s[i])
}

/// A group the codec can carry: a known delimiter tag and well-formed
/// attributes.
pub open spec fn wf_group(g: GroupModel) -> bool {
    &&& (g.gtag == OPERATION_ATTRIBUTES_TAG || g.gtag == JOB_ATTRIBUTES_TAG
        || g.gtag == PRINTER_ATTRIBUTES_TAG)
    &&& wf_attrs(g.attributes)
}

pub open spec fn wf_groups(s: Seq<GroupModel>) -> bool {
    forall|i: int| 0 <= i < s.len() ==> wf_group(#[trigger] s[i])
}

/// A message the codec can carry.  A present payload is non-empty:
/// the wire cannot tell an absent payload from an empty one.
pub open spec fn wf_msg(m: MsgModel) -> bool {
    &&& wf_groups(m.groups)
    &&& (m.payload matches Some(p) ==> p.len() > 0)
}

pub proof fn lemma_enc_attrs_push(s: Seq<AttrModel>, a: AttrModel)
    ensures
        enc_attrs(s.push(a)) =~= enc_attrs(s) + enc_attr(a),
    decreases s.len(),
{
    if s.len() == 0 {
        assert(s.push(a)[0] == a);
        assert(s.push(a).skip(1) =~= s);
        assert(enc_attrs(s) =~= Seq::<u8>::empty());
        assert(enc_attrs(s.push(a)) == enc_attr(a) + enc_attrs(s));
    } else {
        assert(s.push(a)[0] == s[0]);
        assert(s.push(a).skip(1) =~= s.skip(1).push(a));
        lemma_enc_attrs_push(s.skip(1), a);
        assert(enc_attrs(s.push(a)) == enc_attr(s[0]) + enc_attrs(s.skip(1).push(a)));
        assert(enc_attrs(s) == enc_attr(s[0]) + enc_attrs(s.skip(1)));
    }
}

pub proof fn lemma_enc_groups_push(s: Seq<GroupModel>, g: GroupModel)
    ensures
        enc_groups(s.push(g)) =~= enc_groups(s) + enc_group(g),
    decreases s.len(),
{
    if s.len() == 0 {
        assert(s.push(g)[0] == g);
        assert(s.push(g).skip(1) =~= s);
        assert(enc_groups(s) =~= Seq::<u8>::empty());
        assert(enc_groups(s.push(g)) == enc_group(g) + enc_groups(s));
    } else {
        assert(s.push(g)[0] == s[0]);
        assert(s.push(g).skip(1) =~= s.skip(1).push(g));
        lemma_enc_groups_push(s.skip(1), g);
        assert(enc_groups(s.push(g)) == enc_group(s[0]) + enc_groups(s.skip(1).push(g)));
        assert(enc_groups(s) == enc_group(s[0]) + enc_groups(s.skip(1)));
    }
}

/// Append the two big-endian bytes of `v`.
fn push_be16(out: &mut Vec<u8>, v: u16)
    ensures
        final(out)@ =~= old(out)@ + be16(v),
{
    out.push((v / 256) as u8);
    out.push((v % 256) as u8);
}

/// Append the four big-endian bytes of `v`.
fn push_be32(out: &mut Vec<u8>, v: u32)
    ensures
        final(out)@ =~= old(out)@ + be32(v),
{
    out.push((v / 0x1000000) as u8);
    out.push(((v / 0x10000) % 256) as u8);
    out.push(((v / 256) % 256) as u8);
    out.push((v % 256) as u8);
}

/// The four big-endian bytes of `v`, as a fresh vector.
pub fn be32_vec(v: u32) -> (r: Vec<u8>)
    ensures
        r@ =~= be32(v),
{
    let mut out: Vec<u8> = Vec::new();
    push_be32(&mut out, v);
    out
}

/// Append a copy of `b`.
fn push_bytes(out: &mut Vec<u8>, b: &Vec<u8>)
    ensures
        final(out)@ =~= old(out)@ + b@,
{
    let mut i: usize = 0;
    while i < b.len()
        invariant
            i <= b.len(),
            out@ =~= old(out)@ + b@.take(i as int),
        decreases b.len() - i,
    {
        out.push(b[i]);
        i = i + 1;
        assert(b@.take(i as int) =~= b@.take(i as int - 1).push(b@[i as int - 1]));
    }
    assert(b@.take(b@.len() as int) =~= b@);
}

/// Append the wire bytes of one attribute.
fn push_attr(out: &mut Vec<u8>, a: &Attribute)
    requires
        wf_attr(a@),
    ensures
        final(out)@ =~= old(out)@ + enc_attr(a@),
{
    out.push(a.vtag);
    push_be16(out, a.name.len() as u16);
    push_bytes(out, &a.name);
    push_be16(out, a.value.len() as u16);
    push_bytes(out, &a.value);
}

/// Serialise a message to its wire bytes.
pub fn encode(m: &IppMessage) -> (r: Vec<u8>)
    requires
        wf_msg(m@),
    ensures
        r@ =~= enc_msg(m@),
{
    let mut out: Vec<u8> = Vec::new();
    out.push(m.version_major);
    out.push(m.version_minor);
    push_be16(&mut out, m.op_or_status);
    push_be32(&mut out, m.request_id);
    let ghost header: Seq<u8> = seq![m.version_major, m.version_minor] + be16(m.op_or_status)
        + be32(m.request_id);
    assert(out@ =~= header);

    let mut gi: usize = 0;
    while gi < m.groups.len()
        invariant
            gi <= m.groups.len(),
            wf_msg(m@),
            m@.groups.len() == m.groups@.len(),
            out@ =~= header + enc_groups(m@.groups.take(gi as int)),
        decreases m.groups.len() - gi,
    {
        let g = &m.groups[gi];
        assert(g@ == m@.groups[gi as int]);
        assert(wf_group(g@));
        out.push(g.gtag);
        let ghost group_start: Seq<u8> = header + enc_groups(m@.groups.take(gi as int))
            + seq![g.gtag];
        let mut ai: usize = 0;
        while ai < g.attributes.len()
            invariant
                ai <= g.attributes.len(),
                wf_group(g@),
                g@.attributes.len() == g.attributes@.len(),
                out@ =~= group_start + enc_attrs(g@.attributes.take(ai as int)),
            decreases g.attributes.len() - ai,
        {
            let a = &g.attributes[ai];
            assert(a@ == g@.attributes[ai as int]);
            push_attr(&mut out, a);
            proof {
                assert(g@.attributes.take(ai + 1) =~= g@.attributes.take(ai as int).push(
                    g@.attributes[ai as int],
                ));
                lemma_enc_attrs_push(g@.attributes.take(ai as int), g@.attributes[ai as int]);
            }
            ai = ai + 1;
        }
        proof {
            assert(g@.attributes.take(g.attributes@.len() as int) =~= g@.attributes);
            assert(out@ =~= header + enc_groups(m@.groups.take(gi as int)) + enc_group(g@));
            assert(m@.groups.take(gi + 1) =~= m@.groups.take(gi as int).push(m@.groups[gi as int]));
            lemma_enc_groups_push(m@.groups.take(gi as int), m@.groups[gi as int]);
        }
        gi = gi + 1;
    }
    assert(m@.groups.take(m.groups@.len() as int) =~= m@.groups);
    out.push(END_OF_ATTRIBUTES_TAG);
    match &m.payload {
        Some(p) => {
            push_bytes(&mut out, p);
        },
        None => {},
    }
    assert(out@ =~= enc_msg(m@));
    out
}

} // verus!
