//! Extracting [`PrintOptions`] from a decoded Print-Job request.
//!
//! All attribute groups are walked in order; `copies` (integer),
//! `sides`, `print-color-mode`/`color-mode`, `media`/`media-size`
//! (keyword or name) and `job-name` (name) are recognised, later
//! occurrences overriding earlier ones; everything else is ignored,
//! which keeps the walk forward-compatible.  A `copies` value outside
//! 1..=99 is accepted and clamped to 99.  Keyword and name values are
//! only taken when ASCII, as the IPP keyword syntax demands.

use vstd::prelude::*;

use crate::ipp_msg::{
    AttrModel, Attribute, GroupModel, IppMessage, MsgModel, TAG_INTEGER, TAG_KEYWORD,
    TAG_NAME_WITHOUT_LANGUAGE, read32,
};
use crate::jobs::{OptionsModel, PrintOptions, default_options};
use crate::text::{
    ascii_bytes, ascii_chars, bytes_all_ascii, bytes_eq, bytes_to_string, check_all_ascii,
    str_bytes,
};

verus! {

/// `copies` values outside the advertised 1..=99 range are clamped to
/// the advertised maximum.
pub open spec fn clamp_copies(c: i32) -> i32 {
    if c < 1 || c > 99 {
        99
    } else {
        c
    }
}

/// The signed 32-bit value of a four-byte big-endian attribute value.
pub open spec fn i32_of_value(v: Seq<u8>) -> i32 {
    read32(v[0], v[1], v[2], v[3]) as i32
}

/// How one attribute changes the options collected so far.
pub open spec fn opt_update(o: OptionsModel, a: AttrModel) -> OptionsModel {
    if a.vtag == TAG_INTEGER && a.value.len() == 4 && a.name == ascii_bytes("copies"@) {
        OptionsModel { copies: clamp_copies(i32_of_value(a.value)), ..o }
    } else if (a.vtag == TAG_KEYWORD || a.vtag == TAG_NAME_WITHOUT_LANGUAGE) && bytes_all_ascii(
        a.value,
    ) {
        if a.name == ascii_bytes("sides"@) {
            OptionsModel { sides: ascii_chars(a.value), ..o }
        } else if a.name == ascii_bytes("print-color-mode"@) || a.name == ascii_bytes(
            "color-mode"@,
        ) {
            OptionsModel { color_mode: ascii_chars(a.value), ..o }
        } else if a.name == ascii_bytes("media"@) || a.name == ascii_bytes("media-size"@) {
            OptionsModel { media: ascii_chars(a.value), ..o }
        } else if a.vtag == TAG_NAME_WITHOUT_LANGUAGE && a.name == ascii_bytes("job-name"@) {
            OptionsModel { job_name: Some(ascii_chars(a.value)), ..o }
        } else {
            o
        }
    } else {
        o
    }
}

/// Folding `opt_update` over a run of attributes.
pub open spec fn opts_attrs(s: Seq<AttrModel>, o: OptionsModel) -> OptionsModel
    decreases s.len(),
{
    if s.len() == 0 {
        o
    } else {
        opts_attrs(s.skip(1), opt_update(o, s[0]))
    }
}

/// Folding `opt_update` over all groups.
pub open spec fn opts_groups(gs: Seq<GroupModel>, o: OptionsModel) -> OptionsModel
    decreases gs.len(),
{
    if gs.len() == 0 {
        o
    } else {
        opts_groups(gs.skip(1), opts_attrs(gs[0].attributes, o))
    }
}

/// The options of a message: the defaults, updated by every
/// recognised attribute in wire order.
pub open spec fn extract_options_model(m: MsgModel) -> OptionsModel {
    opts_groups(m.groups, default_options())
}

/// Apply one attribute to the options collected so far.
fn apply_attr(o: PrintOptions, a: &Attribute) -> (r: PrintOptions)
    ensures
        r@ == opt_update(o@, a@),
{
    proof {
        reveal_strlit("copies");
        reveal_strlit("sides");
        reveal_strlit("print-color-mode");
        reveal_strlit("color-mode");
        reveal_strlit("media");
        reveal_strlit("media-size");
        reveal_strlit("job-name");
    }
    if a.vtag == TAG_INTEGER && a.value.len() == 4 && bytes_eq(&a.name, &str_bytes("copies")) {
        let raw = (a.value[0] as u32) * 0x1000000 + (a.value[1] as u32) * 0x10000 + (
        a.value[2] as u32) * 256 + (a.value[3] as u32);
        let c = raw as i32;
        let clamped: i32 = if c < 1 || c > 99 {
            99
        } else {
            c
        };
        return PrintOptions { copies: clamped, ..o };
    }
    if (a.vtag == TAG_KEYWORD || a.vtag == TAG_NAME_WITHOUT_LANGUAGE) && check_all_ascii(
        &a.value,
    ) {
        if bytes_eq(&a.name, &str_bytes("sides")) {
            return PrintOptions { sides: bytes_to_string(&a.value), ..o };
        }
        if bytes_eq(&a.name, &str_bytes("print-color-mode")) || bytes_eq(
            &a.name,
            &str_bytes("color-mode"),
        ) {
            return PrintOptions { color_mode: bytes_to_string(&a.value), ..o };
        }
        if bytes_eq(&a.name, &str_bytes("media")) || bytes_eq(&a.name, &str_bytes("media-size")) {
            return PrintOptions { media: bytes_to_string(&a.value), ..o };
        }
        if a.vtag == TAG_NAME_WITHOUT_LANGUAGE && bytes_eq(&a.name, &str_bytes("job-name")) {
            return PrintOptions { job_name: Some(bytes_to_string(&a.value)), ..o };
        }
        return o;
    }
    o
}

/// The print options of a decoded request.
pub fn extract_print_options(m: &IppMessage) -> (r: PrintOptions)
    ensures
        r@ == extract_options_model(m@),
{
    let mut o = PrintOptions::default();
    proof {
        assert(m@.groups.skip(0) =~= m@.groups);
    }
    let gn = m.groups.len();
    let mut gi: usize = 0;
    while gi < gn
        invariant
            0 <= gi <= gn,
            gn == m.groups@.len(),
            m@.groups.len() == gn,
            opts_groups(m@.groups.skip(gi as int), o@) == extract_options_model(m@),
        decreases gn - gi,
    {
        let g = &m.groups[gi];
        let ghost o_entry = o@;
        assert(g@ == m@.groups[gi as int]);
        proof {
            assert(g@.attributes.skip(0) =~= g@.attributes);
        }
        let an = g.attributes.len();
        let mut ai: usize = 0;
        while ai < an
            invariant
                0 <= ai <= an,
                an == g.attributes@.len(),
                g@.attributes.len() == an,
                g@ == m@.groups[gi as int],
                opts_attrs(g@.attributes.skip(ai as int), o@) == opts_attrs(g@.attributes, o_entry),
            decreases an - ai,
        {
            let a = &g.attributes[ai];
            assert(a@ == g@.attributes[ai as int]);
            proof {
                assert(g@.attributes.skip(ai as int).skip(1) =~= g@.attributes.skip(ai + 1));
                assert(g@.attributes.skip(ai as int)[0] == g@.attributes[ai as int]);
            }
            o = apply_attr(o, a);
            ai = ai + 1;
        }
        proof {
            assert(g@.attributes.skip(an as int) =~= Seq::<AttrModel>::empty());
            assert(m@.groups.skip(gi as int).skip(1) =~= m@.groups.skip(gi + 1));
            assert(m@.groups.skip(gi as int)[0] == m@.groups[gi as int]);
        }
        gi = gi + 1;
    }
    proof {
        assert(m@.groups.skip(gn as int) =~= Seq::<GroupModel>::empty());
    }
    o
}

} // verus!
