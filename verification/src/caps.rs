//! The advertised AirPrint capabilities.
//!
//! The URF capability tokens appear twice: as the multi-valued
//! `urf-supported` attribute in a Get-Printer-Attributes response and
//! as the `URF` key of the mDNS TXT record.  Both sides are defined
//! from `urf_tokens`, and the responder's `lemma_urf_consistency`
//! shows they present the same token sequence.

use vstd::prelude::*;

verus! {

/// The URF capability tokens, in advertisement order.
pub open spec fn urf_tokens() -> Seq<Seq<char>> {
    seq!["V1.4"@, "W8"@, "DM1"@, "CP1"@, "RS300"@, "SRGB24"@, "IS1"@]
}

/// The sequences joined with a comma between each pair.
pub open spec fn join_comma(s: Seq<Seq<char>>) -> Seq<char>
    decreases s.len(),
{
    if s.len() == 0 {
        Seq::<char>::empty()
    } else if s.len() == 1 {
        s[0]
    } else {
        s[0] + ","@ + join_comma(s.skip(1))
    }
}

/// The `URF` TXT value: the URF tokens joined by commas.
pub fn urf_value() -> (r: String)
    ensures
        r@ == join_comma(urf_tokens()),
        vstd::string::string_is_ascii(&r),
{
    let s = "V1.4,W8,DM1,CP1,RS300,SRGB24,IS1";
    proof {
        reveal_strlit("V1.4,W8,DM1,CP1,RS300,SRGB24,IS1");
        reveal_strlit("V1.4");
        reveal_strlit("W8");
        reveal_strlit("DM1");
        reveal_strlit("CP1");
        reveal_strlit("RS300");
        reveal_strlit("SRGB24");
        reveal_strlit("IS1");
        reveal_strlit(",");
        reveal_with_fuel(join_comma, 8);
        assert(s@ =~= join_comma(urf_tokens()));
    }
    s.to_owned()
}

} // verus!
