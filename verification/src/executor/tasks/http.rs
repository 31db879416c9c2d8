//! The guard on HTTP task targets: requests to local, metadata or private
//! addresses are refused before they are made.
use crate::text::{
    chars_of, dec, ends_with, is_prefix, is_suffix, push_decimal, slice_chars, split_char, split_on, starts_with,
    str_eq,
};
use vstd::prelude::*;

verus! {

/// The host `url::Url::parse` finds in `url` (`None` for a URL without one), or
/// the text of the parse error.
pub uninterp spec fn url_host(url: Seq<char>) -> Result<Option<Seq<char>>, Seq<char>>;

/// `url::Url::parse(url)`, then `host_str()`, the error as its display text. The
/// claim: the outcome depends on the text alone and is named [`url_host`]; URL
/// syntax and host normalisation are left unsaid.
#[verifier::external_body]
fn parse_url_host(url: &str) -> (r: Result<Option<String>, String>)
    ensures
        match r {
            Ok(Some(h)) => url_host(url@) == Ok::<Option<Seq<char>>, Seq<char>>(Some(h@)),
            Ok(None) => url_host(url@) == Ok::<Option<Seq<char>>, Seq<char>>(None),
            Err(e) => url_host(url@) == Err::<Option<Seq<char>>, Seq<char>>(e@),
        },
{
    url::Url::parse(url).map(|u| u.host_str().map(|h| h.to_string())).map_err(|e| e.to_string())
}

/// A decimal octet as IPv4 text writes it: one to three digits, no leading zero
/// unless it is `0` itself, at most 255.
pub open spec fn octet(p: Seq<char>) -> Option<u8> {
    if 1 <= p.len() <= 3 && crate::text::all_digits(p) && (p.len() == 1 || p[0] != '0')
        && crate::text::digits_value(p) <= 255 {
        Some(crate::text::digits_value(p) as u8)
    } else {
        None
    }
}

/// The address `Ipv4Addr`'s parser reads from `s`: four octets separated by dots.
pub open spec fn parse_ipv4(s: Seq<char>) -> Option<(u8, u8, u8, u8)> {
    let parts = split_on(s, '.');
    if parts.len() == 4 {
        match (octet(parts[0]), octet(parts[1]), octet(parts[2]), octet(parts[3])) {
            (Some(a), Some(b), Some(c), Some(d)) => Some((a, b, c, d)),
            _ => None,
        }
    } else {
        None
    }
}

/// Loopback (127/8), private (10/8, 172.16/12, 192.168/16) or link-local
/// (169.254/16).
pub open spec fn is_internal(ip: (u8, u8, u8, u8)) -> bool {
    ip.0 == 127 || ip.0 == 10 || (ip.0 == 172 && 16 <= ip.1 <= 31) || (ip.0 == 192 && ip.1 == 168)
        || (ip.0 == 169 && ip.1 == 254)
}

/// A lower-case hexadecimal digit, as the URL parser writes IPv6 groups.
pub open spec fn is_hex_digit(c: char) -> bool {
    ('0' <= c && c <= '9') || ('a' <= c && c <= 'f')
}

/// The bracketed host text of an IPv6 address in a unique-local (fc00::/7) or
/// link-local (fe80::/10) range. The parser writes IPv6 hosts compressed and in
/// lower case, so a first group in either range is four digits followed by `:`.
pub open spec fn is_private_ipv6(host: Seq<char>) -> bool {
    &&& host.len() >= 6
    &&& host[0] == '['
    &&& host[1] == 'f'
    &&& is_hex_digit(host[3])
    &&& is_hex_digit(host[4])
    &&& host[5] == ':'
    &&& (host[2] == 'c' || host[2] == 'd' || (host[2] == 'e' && (host[3] == '8' || host[3] == '9'
        || host[3] == 'a' || host[3] == 'b')))
}

/// The value of a lower-case hexadecimal digit.
pub open spec fn hex_digit_val(c: char) -> nat {
    if '0' <= c && c <= '9' {
        ((c as int) - 48) as nat
    } else {
        ((c as int) - 87) as nat
    }
}

/// The value of a run of hexadecimal digits.
pub open spec fn hex_digits_value(g: Seq<char>) -> nat
    decreases g.len(),
{
    if g.len() == 0 {
        0
    } else {
        hex_digits_value(g.drop_last()) * 16 + hex_digit_val(g.last())
    }
}

/// The value of a 16-bit piece as an IPv6 host writes it: one to four lower-case
/// hexadecimal digits.
pub open spec fn hex_group(g: Seq<char>) -> Option<nat> {
    if 1 <= g.len() <= 4 && forall|i: int| 0 <= i < g.len() ==> is_hex_digit(#[trigger] g[i]) {
        Some(hex_digits_value(g))
    } else {
        None
    }
}

/// What an IPv4-mapped IPv6 host starts with.
pub open spec fn mapped_prefix() -> Seq<char> {
    seq!['[', ':', ':', 'f', 'f', 'f', 'f', ':']
}

/// The IPv4 address that an IPv4-mapped IPv6 host embeds: the URL parser writes
/// `::ffff:a.b.c.d` as `[::ffff:` and two hexadecimal pieces, `ab` and `cd`.
pub open spec fn mapped_ipv4(host: Seq<char>) -> Option<(u8, u8, u8, u8)> {
    if host.len() > 9 && is_prefix(mapped_prefix(), host) && host.last() == ']' {
        let parts = split_on(host.subrange(8, host.len() - 1), ':');
        if parts.len() == 2 {
            match (hex_group(parts[0]), hex_group(parts[1])) {
                (Some(a), Some(b)) => Some(
                    ((a / 256) as u8, (a % 256) as u8, (b / 256) as u8, (b % 256) as u8),
                ),
                _ => None,
            }
        } else {
            None
        }
    } else {
        None
    }
}

/// The dotted-decimal text of an address.
pub open spec fn ip_text(ip: (u8, u8, u8, u8)) -> Seq<char> {
    dec(ip.0 as nat) + seq!['.'] + dec(ip.1 as nat) + seq!['.'] + dec(ip.2 as nat) + seq!['.']
        + dec(ip.3 as nat)
}

/// Whether an HTTP task may target `url`, or why not.
pub open spec fn spec_validate_url(url: Seq<char>) -> Result<(), Seq<char>> {
    match url_host(url) {
        Err(e) => Err("invalid URL: "@ + e),
        Ok(h) => {
            let host = match h {
                Some(x) => x,
                None => seq![],
            };
            if host == "localhost"@ || host == "127.0.0.1"@ || host == "::1"@ || host == "[::1]"@
                || host == "0.0.0.0"@ || host == "[::]"@ || is_suffix(".local"@, host) {
                Err("URL targets a local address: "@ + host)
            } else if host == "169.254.169.254"@ || host == "metadata.google.internal"@ {
                Err("URL targets a cloud metadata endpoint: "@ + host)
            } else if is_private_ipv6(host) || (match mapped_ipv4(host) {
                Some(ip) => is_internal(ip) || ip == (0u8, 0u8, 0u8, 0u8),
                None => false,
            }) {
                Err("URL targets a private IP: "@ + host)
            } else {
                match parse_ipv4(host) {
                    Some(ip) => if is_internal(ip) {
                        Err("URL targets a private IP: "@ + ip_text(ip))
                    } else {
                        Ok(())
                    },
                    None => Ok(()),
                }
            }
        },
    }
}

fn read_octet(p: &Vec<char>) -> (r: Option<u8>)
    ensures
        r == octet(p@),
{
    if p.len() < 1 || p.len() > 3 {
        return None;
    }
    if p.len() > 1 && p[0] == '0' {
        return None;
    }
    match crate::text::parse_digits_u64(p.as_slice()) {
        Some(v) => {
            if v <= 255 {
                Some(v as u8)
            } else {
                None
            }
        },
        None => None,
    }
}

/// Reads an IPv4 address in dotted-decimal form.
pub fn read_ipv4(s: &str) -> (r: Option<(u8, u8, u8, u8)>)
    ensures
        r == parse_ipv4(s@),
{
    let parts = split_char(chars_of(s).as_slice(), '.');
    if parts.len() != 4 {
        return None;
    }
    let a = read_octet(&parts[0]);
    let b = read_octet(&parts[1]);
    let c = read_octet(&parts[2]);
    let d = read_octet(&parts[3]);
    match (a, b, c, d) {
        (Some(a), Some(b), Some(c), Some(d)) => Some((a, b, c, d)),
        _ => None,
    }
}

fn hex_digit(c: char) -> (r: bool)
    ensures
        r == is_hex_digit(c),
{
    ('0' <= c && c <= '9') || ('a' <= c && c <= 'f')
}

/// Whether `host` is the bracketed text of a unique-local or link-local IPv6
/// address.
pub fn private_ipv6_host(host: &str) -> (r: bool)
    ensures
        r == is_private_ipv6(host@),
{
    let h = chars_of(host);
    if h.len() < 6 {
        return false;
    }
    let g2 = h[2];
    let g3 = h[3];
    let range = g2 == 'c' || g2 == 'd' || (g2 == 'e' && (g3 == '8' || g3 == '9' || g3 == 'a'
        || g3 == 'b'));
    h[0] == '[' && h[1] == 'f' && hex_digit(g3) && hex_digit(h[4]) && h[5] == ':' && range
}

fn hex_val(c: char) -> (r: u32)
    requires
        is_hex_digit(c),
    ensures
        r == hex_digit_val(c),
        r < 16,
{
    if '0' <= c && c <= '9' {
        (c as u32) - 48
    } else {
        (c as u32) - 87
    }
}

fn read_hex_group(g: &Vec<char>) -> (r: Option<u32>)
    ensures
        match hex_group(g@) {
            Some(v) => r == Some(v as u32) && v < 65536,
            None => r is None,
        },
{
    if g.len() < 1 || g.len() > 4 {
        return None;
    }
    let mut v: u32 = 0;
    let mut i: usize = 0;
    while i < g.len()
        invariant
            i <= g@.len() <= 4,
            v == hex_digits_value(g@.take(i as int)),
            forall|j: int| 0 <= j < i ==> is_hex_digit(#[trigger] g@[j]),
            v < (if i == 0 {
                1int
            } else if i == 1 {
                16
            } else if i == 2 {
                256
            } else if i == 3 {
                4096
            } else {
                65536
            }),
        decreases g.len() - i,
    {
        let c = g[i];
        if !hex_digit(c) {
            return None;
        }
        assert(g@.take(i + 1).drop_last() =~= g@.take(i as int));
        v = v * 16 + hex_val(c);
        i = i + 1;
    }
    assert(g@.take(i as int) =~= g@);
    Some(v)
}

/// Reads the IPv4 address an IPv4-mapped IPv6 host embeds.
pub fn read_mapped_ipv4(host: &str) -> (r: Option<(u8, u8, u8, u8)>)
    ensures
        r == mapped_ipv4(host@),
{
    let h = chars_of(host);
    let prefix = vec!['[', ':', ':', 'f', 'f', 'f', 'f', ':'];
    assert(prefix@ =~= mapped_prefix());
    if h.len() <= 9 || !starts_with(h.as_slice(), prefix.as_slice()) || h[h.len() - 1] != ']' {
        return None;
    }
    let inner = slice_chars(h.as_slice(), 8, h.len() - 1);
    let parts = split_char(inner.as_slice(), ':');
    if parts.len() != 2 {
        return None;
    }
    match (read_hex_group(&parts[0]), read_hex_group(&parts[1])) {
        (Some(a), Some(b)) => Some(((a / 256) as u8, (a % 256) as u8, (b / 256) as u8, (b % 256) as u8)),
        _ => None,
    }
}

/// Refuses URLs that target local, cloud-metadata or private addresses, IPv4 and
/// IPv6 (loopback, unique-local, link-local, and IPv4-mapped internal addresses)
/// alike.
pub fn validate_url(url: &str) -> (r: Result<(), String>)
    ensures
        match spec_validate_url(url@) {
            Ok(()) => r is Ok,
            Err(m) => r matches Err(e) && e@ == m,
        },
{
    let host: String = match parse_url_host(url) {
        Err(e) => {
            let mut m = String::new();
            m.append("invalid URL: ");
            m.append(e.as_str());
            return Err(m);
        },
        Ok(Some(h)) => h,
        Ok(None) => String::new(),
    };
    let h = host.as_str();
    let dot_local = chars_of(".local");
    if str_eq(h, "localhost") || str_eq(h, "127.0.0.1") || str_eq(h, "::1") || str_eq(h, "[::1]")
        || str_eq(h, "0.0.0.0") || str_eq(h, "[::]") || ends_with(chars_of(h).as_slice(), dot_local.as_slice()) {
        let mut m = String::new();
        m.append("URL targets a local address: ");
        m.append(h);
        return Err(m);
    }
    if str_eq(h, "169.254.169.254") || str_eq(h, "metadata.google.internal") {
        let mut m = String::new();
        m.append("URL targets a cloud metadata endpoint: ");
        m.append(h);
        return Err(m);
    }
    let mapped_internal = match read_mapped_ipv4(h) {
        Some(ip) => {
            let (a, b, c, d) = ip;
            a == 127 || a == 10 || (a == 172 && 16 <= b && b <= 31) || (a == 192 && b == 168) || (a
                == 169 && b == 254) || (a == 0 && b == 0 && c == 0 && d == 0)
        },
        None => false,
    };
    if private_ipv6_host(h) || mapped_internal {
        let mut m = String::new();
        m.append("URL targets a private IP: ");
        m.append(h);
        return Err(m);
    }
    match read_ipv4(h) {
        Some(ip) => {
            let (a, b, c, d) = ip;
            if a == 127 || a == 10 || (a == 172 && 16 <= b && b <= 31) || (a == 192 && b == 168)
                || (a == 169 && b == 254) {
                let mut m = String::new();
                m.append("URL targets a private IP: ");
                push_decimal(&mut m, a as u64);
                m.append(".");
                push_decimal(&mut m, b as u64);
                m.append(".");
                push_decimal(&mut m, c as u64);
                m.append(".");
                push_decimal(&mut m, d as u64);
                proof {
                    reveal_strlit(".");
                    assert("."@ =~= seq!['.']);
                }
                assert(m@ =~= "URL targets a private IP: "@ + ip_text(ip));
                return Err(m);
            }
            Ok(())
        },
        None => Ok(()),
    }
}

} // verus!
