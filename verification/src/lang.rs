//! Normalising UI language codes.
//!
//! The embedding application's translator works with base language
//! codes.  A regional code is reduced to its base (`zh-CN` becomes
//! `zh`), and a code whose base is not offered falls back to `en`
//! without erroring.

use vstd::prelude::*;

use crate::text::{find_from, str_eq, take_before};

verus! {

/// What a language code normalises to: its base (the part before any
/// `-`) when that base is offered, `en` otherwise.
pub open spec fn normalized_language(s: Seq<char>) -> Seq<char> {
    let base = s.subrange(0, find_from(s, '-', 0));
    if base == "en"@ || base == "zh"@ || base == "ja"@ || base == "fr"@ {
        base
    } else {
        "en"@
    }
}

/// Normalise a language code for the translator.
pub fn normalize_language(lang: &str) -> (r: String)
    ensures
        r@ == normalized_language(lang@),
{
    proof {
        reveal_strlit("en");
        reveal_strlit("zh");
        reveal_strlit("ja");
        reveal_strlit("fr");
    }
    let base = take_before(lang, '-');
    if str_eq(base.as_str(), "en") || str_eq(base.as_str(), "zh") || str_eq(base.as_str(), "ja")
        || str_eq(base.as_str(), "fr") {
        base
    } else {
        "en".to_owned()
    }
}

} // verus!
