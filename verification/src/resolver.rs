//! Choosing the address and hostname a printer is advertised under.
//!
//! The host's primary outbound address comes through a trusted
//! wrapper as plain octets or segments; everything that judges it —
//! the link-local test, the advertise-or-fail decision, the hostname
//! normalisation, the textual rendering — is verified here.

use vstd::prelude::*;

use crate::errors::AirPrintError;
use crate::text::{ascii_chars, bytes_all_ascii, bytes_to_string, dec_bytes, ends_with,
    lemma_dec_bytes_ascii, push_dec, str_ends_with};

verus! {

/// An IP address as plain values: four octets, or eight 16-bit
/// segments.
#[derive(Clone, Copy, Debug, PartialEq, Eq, Structural)]
pub enum IpAddress {
    V4(u8, u8, u8, u8),
    V6(u16, u16, u16, u16, u16, u16, u16, u16),
}

/// Whether an address is link-local and so useless to advertise:
/// IPv4 169.254.0.0/16, or IPv6 fe80::/10.
pub open spec fn is_link_local(ip: IpAddress) -> bool {
    match ip {
        IpAddress::V4(a, b, _, _) => a == 169 && b == 254,
        IpAddress::V6(s0, _, _, _, _, _, _, _) => s0 & 0xffc0 == 0xfe80,
    }
}

/// Test an address for link-locality.
pub fn is_link_local_ip(ip: &IpAddress) -> (r: bool)
    ensures
        r == is_link_local(*ip),
{
    match ip {
        IpAddress::V4(a, b, _, _) => *a == 169 && *b == 254,
        IpAddress::V6(s0, _, _, _, _, _, _, _) => *s0 & 0xffc0 == 0xfe80,
    }
}

/// Relies on `local_ip_address::local_ip`: the host's primary
/// outbound IP address, or an error when none can be found.  Which
/// address comes back depends on the host, so nothing is promised of
/// the value; the caller judges it.
#[verifier::external_body]
fn fetch_local_ip() -> (r: Result<IpAddress, String>)
{
    match local_ip_address::local_ip() {
        Ok(core::net::IpAddr::V4(v4)) => {
            let o = v4.octets();
            Ok(IpAddress::V4(o[0], o[1], o[2], o[3]))
        },
        Ok(core::net::IpAddr::V6(v6)) => {
            let s = v6.segments();
            Ok(IpAddress::V6(s[0], s[1], s[2], s[3], s[4], s[5], s[6], s[7]))
        },
        Err(e) => Err(e.to_string()),
    }
}

/// Keep an address only when it is routable: a link-local address is
/// rejected, since clients on other hosts could not reach it.
pub fn select_advertise_ip(ip: IpAddress) -> (r: Result<IpAddress, AirPrintError>)
    ensures
        r == if is_link_local(ip) {
            Err::<IpAddress, AirPrintError>(AirPrintError::NoRoutableAddress)
        } else {
            Ok::<IpAddress, AirPrintError>(ip)
        },
{
    if is_link_local_ip(&ip) {
        Err(AirPrintError::NoRoutableAddress)
    } else {
        Ok(ip)
    }
}

/// The host's advertisable address.  Whatever the host answers, a
/// returned address is never link-local; when only a link-local
/// address (or none) exists, the caller gets `NoRoutableAddress` and
/// may retry after a network change.
pub fn get_local_ip() -> (r: Result<IpAddress, AirPrintError>)
    ensures
        r matches Ok(ip) ==> !is_link_local(ip),
        r matches Err(e) ==> e == AirPrintError::NoRoutableAddress,
{
    match fetch_local_ip() {
        Ok(ip) => select_advertise_ip(ip),
        Err(_) => Err(AirPrintError::NoRoutableAddress),
    }
}

/// What a hostname normalises to: `foo.local.` stays, `foo.local`
/// gains the trailing dot, anything else is rejected — as is a name
/// over the DNS limit of 255 octets or one that is not ASCII (DNS
/// names are letters, digits and hyphens; international names arrive
/// already punycoded).
pub open spec fn normalized_hostname(s: Seq<char>) -> Option<Seq<char>> {
    if s.len() > 254 || !vstd::utf8::is_ascii_chars(s) {
        None
    } else if ends_with(s, ".local."@) {
        Some(s)
    } else if ends_with(s, ".local"@) {
        Some(s + "."@)
    } else {
        None
    }
}

/// A normalised hostname ends with `.local.`, fits DNS, and is
/// ASCII.
pub proof fn lemma_normalized_hostname_valid(s: Seq<char>, h: Seq<char>)
    requires
        normalized_hostname(s) == Some(h),
    ensures
        ends_with(h, ".local."@),
        h.len() <= 255,
        vstd::utf8::is_ascii_chars(h),
{
    reveal_strlit(".local.");
    reveal_strlit(".local");
    reveal_strlit(".");
    if ends_with(s, ".local."@) {
    } else {
        assert(h == s + "."@);
        assert(s.skip(s.len() - 6) == ".local"@);
        assert forall|k: int| 0 <= k < 7 implies #[trigger] h.skip(h.len() - 7)[k] == ".local."@[k]
            by {
            if k < 6 {
                assert(h.skip(h.len() - 7)[k] == s.skip(s.len() - 6)[k]);
            } else {
                assert(h.skip(h.len() - 7)[k] == "."@[0]);
            }
        };
        assert(h.skip(h.len() - 7) =~= ".local."@);
        assert forall|k: int| 0 <= k < h.len() implies '\0' <= #[trigger] h[k] <= '\u{7f}' by {
            if k < s.len() {
                assert(h[k] == s[k]);
            } else {
                assert(h[k] == "."@[0]);
            }
        };
    }
}

/// Normalise a hostname for advertisement, or reject it with
/// `InvalidHostname`.
pub fn normalize_hostname(s: &str) -> (r: Result<String, AirPrintError>)
    ensures
        match r {
            Ok(h) => normalized_hostname(s@) == Some(h@),
            Err(e) => normalized_hostname(s@) is None && e == AirPrintError::InvalidHostname,
        },
{
    proof {
        reveal_strlit(".local.");
        reveal_strlit(".local");
        reveal_strlit(".");
    }
    if s.unicode_len() > 254 || !s.is_ascii() {
        return Err(AirPrintError::InvalidHostname);
    }
    if str_ends_with(s, ".local.") {
        return Ok(s.to_owned());
    }
    if str_ends_with(s, ".local") {
        let mut h = s.to_owned();
        h.append(".");
        return Ok(h);
    }
    Err(AirPrintError::InvalidHostname)
}

/// The lowercase hexadecimal digits of `n`, most significant first.
pub open spec fn hex_bytes(n: int) -> Seq<u8>
    decreases n,
    when n >= 0
{
    if n < 16 {
        seq![hex_digit(n)]
    } else {
        hex_bytes(n / 16).push(hex_digit(n % 16))
    }
}

/// One hexadecimal digit as its ASCII byte.
pub open spec fn hex_digit(d: int) -> u8 {
    if d < 10 {
        (48 + d) as u8
    } else {
        (87 + d) as u8
    }
}

/// Append the hexadecimal digits of `n`.
fn push_hex(out: &mut Vec<u8>, n: u16)
    ensures
        final(out)@ =~= old(out)@ + hex_bytes(n as int),
    decreases n,
{
    if n >= 16 {
        push_hex(out, n / 16);
    }
    let d = (n % 16) as u8;
    let b: u8 = if d < 10 {
        48 + d
    } else {
        87 + d
    };
    out.push(b);
    proof {
        if n < 16 {
            assert(old(out)@ + hex_bytes(n as int) =~= old(out)@.push(hex_digit(n as int)));
        } else {
            assert(old(out)@ + hex_bytes(n as int) =~= (old(out)@ + hex_bytes(n as int / 16)).push(
                hex_digit(n as int % 16),
            ));
        }
    }
}

/// The textual rendering of an address: dotted decimal for IPv4, the
/// full eight-group lowercase hexadecimal form for IPv6.
pub open spec fn ip_bytes(ip: IpAddress) -> Seq<u8> {
    match ip {
        IpAddress::V4(a, b, c, d) => dec_bytes(a as int) + ascii("."@) + dec_bytes(b as int)
            + ascii("."@) + dec_bytes(c as int) + ascii("."@) + dec_bytes(d as int),
        IpAddress::V6(s0, s1, s2, s3, s4, s5, s6, s7) => hex_bytes(s0 as int) + ascii(":"@)
            + hex_bytes(s1 as int) + ascii(":"@) + hex_bytes(s2 as int) + ascii(":"@) + hex_bytes(
            s3 as int,
        ) + ascii(":"@) + hex_bytes(s4 as int) + ascii(":"@) + hex_bytes(s5 as int) + ascii(":"@)
            + hex_bytes(s6 as int) + ascii(":"@) + hex_bytes(s7 as int),
    }
}

/// A local alias so `ip_bytes` reads compactly.
pub open spec fn ascii(s: Seq<char>) -> Seq<u8> {
    crate::text::ascii_bytes(s)
}

/// Hexadecimal digits are ASCII.
proof fn lemma_hex_bytes_ascii(n: int)
    requires
        n >= 0,
    ensures
        bytes_all_ascii(hex_bytes(n)),
    decreases n,
{
    if n >= 16 {
        lemma_hex_bytes_ascii(n / 16);
        assert forall|i: int| 0 <= i < hex_bytes(n).len() implies #[trigger] hex_bytes(n)[i]
            < 0x80 by {
            if i < hex_bytes(n / 16).len() {
                assert(hex_bytes(n)[i] == hex_bytes(n / 16)[i]);
            }
        };
    }
}

/// Render an address for registration.
pub fn ip_to_string(ip: &IpAddress) -> (r: String)
    ensures
        r@ == ascii_chars(ip_bytes(*ip)),
{
    proof {
        reveal_strlit(".");
        reveal_strlit(":");
    }
    let mut out: Vec<u8> = Vec::new();
    match ip {
        IpAddress::V4(a, b, c, d) => {
            push_dec(&mut out, *a as u64);
            out.push(46);
            push_dec(&mut out, *b as u64);
            out.push(46);
            push_dec(&mut out, *c as u64);
            out.push(46);
            push_dec(&mut out, *d as u64);
            proof {
                lemma_dec_bytes_ascii(*a as int);
                lemma_dec_bytes_ascii(*b as int);
                lemma_dec_bytes_ascii(*c as int);
                lemma_dec_bytes_ascii(*d as int);
                assert(out@ =~= ip_bytes(*ip));
            }
        },
        IpAddress::V6(s0, s1, s2, s3, s4, s5, s6, s7) => {
            push_hex(&mut out, *s0);
            out.push(58);
            push_hex(&mut out, *s1);
            out.push(58);
            push_hex(&mut out, *s2);
            out.push(58);
            push_hex(&mut out, *s3);
            out.push(58);
            push_hex(&mut out, *s4);
            out.push(58);
            push_hex(&mut out, *s5);
            out.push(58);
            push_hex(&mut out, *s6);
            out.push(58);
            push_hex(&mut out, *s7);
            proof {
                lemma_hex_bytes_ascii(*s0 as int);
                lemma_hex_bytes_ascii(*s1 as int);
                lemma_hex_bytes_ascii(*s2 as int);
                lemma_hex_bytes_ascii(*s3 as int);
                lemma_hex_bytes_ascii(*s4 as int);
                lemma_hex_bytes_ascii(*s5 as int);
                lemma_hex_bytes_ascii(*s6 as int);
                lemma_hex_bytes_ascii(*s7 as int);
                assert(out@ =~= ip_bytes(*ip));
            }
        },
    }
    proof {
        assert(bytes_all_ascii(out@));
    }
    bytes_to_string(&out)
}

} // verus!
