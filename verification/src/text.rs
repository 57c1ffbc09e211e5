//! Small text and byte helpers shared by the codec, the resolver and
//! the advertiser.

use vstd::prelude::*;

verus! {

/// The bytes of an ASCII character sequence, one byte per character.
pub open spec fn ascii_bytes(s: Seq<char>) -> Seq<u8> {
    Seq::new(s.len(), |i: int| s[i] as u8)
}

/// The bytes of an ASCII string slice.
pub fn str_bytes(s: &str) -> (r: Vec<u8>)
    requires
        s.is_ascii(),
    ensures
        r@ == ascii_bytes(s@),
{
    let r = s.as_bytes_vec();
    proof {
        vstd::string::is_ascii_spec_bytes(s);
        assert(r@ =~= ascii_bytes(s@));
    }
    r
}

/// The decimal digits of `n` in ASCII, most significant first.
pub open spec fn dec_bytes(n: int) -> Seq<u8>
    decreases n,
    when n >= 0
{
    if n < 10 {
        seq![(48 + n) as u8]
    } else {
        dec_bytes(n / 10).push((48 + n % 10) as u8)
    }
}

/// Append the decimal digits of `n`.
pub fn push_dec(out: &mut Vec<u8>, n: u64)
    ensures
        final(out)@ =~= old(out)@ + dec_bytes(n as int),
    decreases n,
{
    if n >= 10 {
        push_dec(out, n / 10);
    }
    out.push(48 + (n % 10) as u8);
    proof {
        if n < 10 {
            assert(old(out)@ + dec_bytes(n as int) =~= old(out)@.push((48 + n as int) as u8));
        } else {
            assert(old(out)@ + dec_bytes(n as int) =~= (old(out)@ + dec_bytes(n as int / 10)).push(
                (48 + n as int % 10) as u8,
            ));
        }
    }
}

/// Decimal digits are ASCII.
pub proof fn lemma_dec_bytes_ascii(n: int)
    requires
        n >= 0,
    ensures
        bytes_all_ascii(dec_bytes(n)),
    decreases n,
{
    if n >= 10 {
        lemma_dec_bytes_ascii(n / 10);
        assert forall|i: int| 0 <= i < dec_bytes(n).len() implies #[trigger] dec_bytes(n)[i]
            < 0x80 by {
            if i < dec_bytes(n / 10).len() {
                assert(dec_bytes(n)[i] == dec_bytes(n / 10)[i]);
            }
        };
    }
}

/// The decimal rendering of `n` as a string.
pub fn dec_string(n: u64) -> (r: String)
    ensures
        r@ == ascii_chars(dec_bytes(n as int)),
{
    let mut out: Vec<u8> = Vec::new();
    push_dec(&mut out, n);
    proof {
        lemma_dec_bytes_ascii(n as int);
    }
    bytes_to_string(&out)
}

/// Whether `s` ends with `t`.
pub open spec fn ends_with(s: Seq<char>, t: Seq<char>) -> bool {
    t.len() <= s.len() && s.skip(s.len() - t.len()) == t
}

/// Whether the string ends with the given suffix.
pub fn str_ends_with(s: &str, suffix: &str) -> (r: bool)
    ensures
        r == ends_with(s@, suffix@),
{
    let sl = s.unicode_len();
    let tl = suffix.unicode_len();
    if tl > sl {
        assert(!ends_with(s@, suffix@));
        return false;
    }
    let off = sl - tl;
    let mut i: usize = 0;
    while i < tl
        invariant
            0 <= i <= tl,
            tl <= sl,
            off == sl - tl,
            sl == s@.len(),
            tl == suffix@.len(),
            forall|j: int| 0 <= j < i ==> s@[off + j] == suffix@[j],
        decreases tl - i,
    {
        if s.get_char(off + i) != suffix.get_char(i) {
            assert(s@.skip(off as int)[i as int] != suffix@[i as int]);
            return false;
        }
        i = i + 1;
    }
    assert(s@.skip(off as int) =~= suffix@);
    true
}

/// The index of the first occurrence of `c` at or after `i`, or the
/// length of the sequence when `c` does not occur.
pub open spec fn find_from(s: Seq<char>, c: char, i: int) -> int
    decreases s.len() - i,
    when 0 <= i <= s.len()
{
    if i == s.len() {
        i
    } else if s[i] == c {
        i
    } else {
        find_from(s, c, i + 1)
    }
}

/// A search that starts inside the sequence ends inside it.
pub proof fn lemma_find_from_bounds(s: Seq<char>, c: char, i: int)
    requires
        0 <= i <= s.len(),
    ensures
        i <= find_from(s, c, i) <= s.len(),
    decreases s.len() - i,
{
    if i < s.len() && s[i] != c {
        lemma_find_from_bounds(s, c, i + 1);
    }
}

/// The index of the first occurrence of `c`, or the string's length.
pub fn find_char(s: &str, c: char) -> (r: usize)
    ensures
        r as int == find_from(s@, c, 0),
        r <= s@.len(),
{
    let n = s.unicode_len();
    let mut i: usize = 0;
    while i < n
        invariant
            0 <= i <= n,
            n == s@.len(),
            find_from(s@, c, i as int) == find_from(s@, c, 0),
        decreases n - i,
    {
        if s.get_char(i) == c {
            return i;
        }
        i = i + 1;
    }
    i
}

/// The part of the string before the first occurrence of `c` (the
/// whole string when `c` does not occur).
pub fn take_before(s: &str, c: char) -> (r: String)
    ensures
        r@ == s@.subrange(0, find_from(s@, c, 0)),
{
    let idx = find_char(s, c);
    let part = s.substring_char(0, idx);
    part.to_owned()
}

/// Whether two string slices hold the same characters.
pub fn str_eq(a: &str, b: &str) -> (r: bool)
    ensures
        r == (a@ == b@),
{
    let al = a.unicode_len();
    let bl = b.unicode_len();
    if al != bl {
        assert(a@ != b@);
        return false;
    }
    let mut i: usize = 0;
    while i < al
        invariant
            0 <= i <= al,
            al == a@.len(),
            al == b@.len(),
            forall|j: int| 0 <= j < i ==> a@[j] == b@[j],
        decreases al - i,
    {
        if a.get_char(i) != b.get_char(i) {
            return false;
        }
        i = i + 1;
    }
    assert(a@ =~= b@);
    true
}

/// Whether two byte vectors hold the same bytes.
pub fn bytes_eq(a: &Vec<u8>, b: &Vec<u8>) -> (r: bool)
    ensures
        r == (a@ == b@),
{
    if a.len() != b.len() {
        assert(a@ != b@);
        return false;
    }
    let mut i: usize = 0;
    while i < a.len()
        invariant
            0 <= i <= a.len(),
            a.len() == b.len(),
            forall|j: int| 0 <= j < i ==> a@[j] == b@[j],
        decreases a.len() - i,
    {
        if a[i] != b[i] {
            return false;
        }
        i = i + 1;
    }
    assert(a@ =~= b@);
    true
}

/// Whether every byte is ASCII (below 0x80).
pub open spec fn bytes_all_ascii(v: Seq<u8>) -> bool {
    forall|i: int| 0 <= i < v.len() ==> v[i] < 0x80
}

/// The characters of an ASCII byte sequence, one character per byte.
pub open spec fn ascii_chars(v: Seq<u8>) -> Seq<char> {
    Seq::new(v.len(), |i: int| v[i] as char)
}

/// Whether every byte of the vector is ASCII.
pub fn check_all_ascii(v: &Vec<u8>) -> (r: bool)
    ensures
        r == bytes_all_ascii(v@),
{
    let mut i: usize = 0;
    while i < v.len()
        invariant
            0 <= i <= v.len(),
            forall|j: int| 0 <= j < i ==> v@[j] < 0x80,
        decreases v.len() - i,
    {
        if v[i] >= 0x80 {
            return false;
        }
        i = i + 1;
    }
    true
}

/// Relies on `String::from_utf8_lossy`: valid UTF-8 input converts
/// unchanged, so ASCII bytes give exactly one character per byte.  Of
/// other inputs nothing is claimed.
#[verifier::external_body]
pub fn bytes_to_string(v: &Vec<u8>) -> (r: String)
    ensures
        bytes_all_ascii(v@) ==> r@ == ascii_chars(v@),
{
    String::from_utf8_lossy(v).into_owned()
}

} // verus!
