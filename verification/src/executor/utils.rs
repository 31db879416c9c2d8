//! Utility functions: shell escaping, hex encoding, and retry decisions.
use crate::db::models::ExecutionStatus;
use crate::text::push_char;
use vstd::prelude::*;
use vstd::string::StringSliceAdditionalSpecFns;

verus! {

/// Default time limit for a script task, in seconds.
pub const DEFAULT_SCRIPT_TIMEOUT_SECS: u64 = 60;

/// Operation budget of a script task.
pub const MAX_SCRIPT_OPERATIONS: u64 = 1_000_000;

/// Longest string a script task may build, in bytes.
pub const MAX_SCRIPT_STRING_SIZE: usize = 262144;

/// Maximum retry delay cap (1 hour).
pub const MAX_RETRY_DELAY_SECS: u64 = 3600;

/// `s` with every `c` replaced by the sequence `by`.
pub open spec fn replace_char(s: Seq<char>, c: char, by: Seq<char>) -> Seq<char>
    decreases s.len(),
{
    if s.len() == 0 {
        seq![]
    } else {
        replace_char(s.drop_last(), c, by) + if s.last() == c {
            by
        } else {
            seq![s.last()]
        }
    }
}

/// How `s` is quoted for a POSIX shell (single quotes, `'` written as `'\''`)
/// or for `cmd.exe` (double quotes, `"` written as `\"`).
pub open spec fn spec_shell_escape(s: Seq<char>, windows: bool) -> Seq<char> {
    if windows {
        seq!['"'] + replace_char(s, '"', seq!['\\', '"']) + seq!['"']
    } else {
        seq!['\''] + replace_char(s, '\'', seq!['\'', '\\', '\'', '\'']) + seq!['\'']
    }
}

/// Quotes `s` as one word for the shell: a POSIX shell, or `cmd.exe` when `windows`.
pub fn shell_escape(s: &str, windows: bool) -> (r: String)
    ensures
        r@ == spec_shell_escape(s@, windows),
{
    let cs = crate::text::chars_of(s);
    let (quote, by): (char, Vec<char>) = if windows {
        ('"', vec!['\\', '"'])
    } else {
        ('\'', vec!['\'', '\\', '\'', '\''])
    };
    let ghost target = if windows {
        '"'
    } else {
        '\''
    };
    let mut out = String::new();
    push_char(&mut out, quote);
    let mut i: usize = 0;
    while i < cs.len()
        invariant
            i <= cs.len(),
            cs@ == s@,
            quote == target,
            by@ == (if windows {
                seq!['\\', '"']
            } else {
                seq!['\'', '\\', '\'', '\'']
            }),
            target == (if windows {
                '"'
            } else {
                '\''
            }),
            out@ == seq![quote] + replace_char(cs@.take(i as int), target, by@),
        decreases cs.len() - i,
    {
        let c = cs[i];
        assert(cs@.take(i + 1).drop_last() =~= cs@.take(i as int));
        if c == quote {
            crate::text::push_chars(&mut out, by.as_slice());
        } else {
            push_char(&mut out, c);
            assert(seq![c] =~= seq![cs@.take(i + 1).last()]);
        }
        assert(out@ =~= seq![quote] + replace_char(cs@.take(i + 1), target, by@));
        i = i + 1;
    }
    push_char(&mut out, quote);
    assert(cs@.take(cs.len() as int) =~= cs@);
    assert(out@ =~= spec_shell_escape(s@, windows));
    out
}

/// A UTF-8 continuation byte (a byte inside a multi-byte character).
pub open spec fn is_continuation(b: u8) -> bool {
    0x80 <= b && b < 0xC0
}

/// The bytes of `s` without the spaces.
pub open spec fn strip_spaces(s: Seq<u8>) -> Seq<u8> {
    s.filter(|b: u8| b != 0x20)
}

/// The value of an ASCII hexadecimal digit (either case), if `b` is one.
pub open spec fn hex_digit_value(b: u8) -> Option<u8> {
    if 0x30 <= b && b <= 0x39 {
        Some((b - 0x30) as u8)
    } else if 0x61 <= b && b <= 0x66 {
        Some((b - 0x61 + 10) as u8)
    } else if 0x41 <= b && b <= 0x46 {
        Some((b - 0x41 + 10) as u8)
    } else {
        None
    }
}

/// What `u8::from_str_radix(pair, 16)` gives for a two-byte string: two hex
/// digits, or `+` followed by one.
pub open spec fn hex_pair_value(a: u8, b: u8) -> Option<u8> {
    if a == 0x2B {
        hex_digit_value(b)
    } else {
        match (hex_digit_value(a), hex_digit_value(b)) {
            (Some(x), Some(y)) => Some((x * 16 + y) as u8),
            _ => None,
        }
    }
}

/// The bytes decoded from `h` (spaces already removed), or `None` if a pair is no number.
pub open spec fn decode_hex_pairs(h: Seq<u8>) -> Option<Seq<u8>>
    decreases h.len(),
{
    if h.len() < 2 {
        Some(seq![])
    } else {
        match hex_pair_value(h[0], h[1]) {
            None => None,
            Some(v) => match decode_hex_pairs(h.skip(2)) {
                None => None,
                Some(rest) => Some(seq![v] + rest),
            },
        }
    }
}

/// What decoding `hex` gives: an error for an odd number of bytes or for a
/// pair that is not a number, else the decoded bytes.
pub open spec fn spec_hex_to_bytes(hex: Seq<u8>) -> Result<Seq<u8>, Seq<char>> {
    let h = strip_spaces(hex);
    if h.len() % 2 != 0 {
        Err("odd length"@)
    } else {
        match decode_hex_pairs(h) {
            Some(v) => Ok(v),
            None => Err("invalid digit found in string"@),
        }
    }
}

fn hex_digit(b: u8) -> (r: Option<u8>)
    ensures
        r == hex_digit_value(b),
{
    if 0x30 <= b && b <= 0x39 {
        Some(b - 0x30)
    } else if 0x61 <= b && b <= 0x66 {
        Some(b - 0x61 + 10)
    } else if 0x41 <= b && b <= 0x46 {
        Some(b - 0x41 + 10)
    } else {
        None
    }
}

/// `r` with `a` in front, when it exists.
pub open spec fn prepend(a: Seq<u8>, r: Option<Seq<u8>>) -> Option<Seq<u8>> {
    match r {
        Some(x) => Some(a + x),
        None => None,
    }
}

/// Decodes a hexadecimal string (spaces ignored) into bytes. When the text
/// without its spaces has an even length, every pair must start on a character
/// boundary of it.
pub fn hex_to_bytes(hex: &str) -> (r: Result<Vec<u8>, String>)
    requires
        strip_spaces(hex.spec_bytes()).len() % 2 == 0 ==> forall|k: int|
            0 <= k < strip_spaces(hex.spec_bytes()).len() && k % 2 == 0 ==> !is_continuation(
                #[trigger] strip_spaces(hex.spec_bytes())[k],
            ),
    ensures
        match spec_hex_to_bytes(hex.spec_bytes()) {
            Ok(v) => r matches Ok(x) && x@ == v,
            Err(m) => r matches Err(x) && x@ == m,
        },
{
    let bytes = hex.as_bytes();
    let ghost hb = hex.spec_bytes();
    let mut h: Vec<u8> = Vec::new();
    let mut i: usize = 0;
    while i < bytes.len()
        invariant
            i <= bytes@.len(),
            bytes@ == hb,
            h@ == strip_spaces(hb.take(i as int)),
        decreases bytes.len() - i,
    {
        let b = bytes[i];
        proof {
            reveal_with_fuel(Seq::filter, 1);
            assert(hb.take(i + 1).drop_last() =~= hb.take(i as int));
        }
        if b != 0x20 {
            h.push(b);
        }
        i = i + 1;
    }
    assert(hb.take(bytes@.len() as int) =~= hb);
    if h.len() % 2 != 0 {
        return Err("odd length".to_string());
    }
    let mut out: Vec<u8> = Vec::new();
    let mut j: usize = 0;
    assert(h@.skip(0) =~= h@);
    assert(Seq::<u8>::empty() + decode_hex_pairs(h@)->0 =~= decode_hex_pairs(h@)->0);
    while j < h.len()
        invariant
            j <= h@.len(),
            j % 2 == 0,
            h@.len() % 2 == 0,
            h@ == strip_spaces(hb),
            hb == hex.spec_bytes(),
            decode_hex_pairs(h@) == prepend(out@, decode_hex_pairs(h@.skip(j as int))),
        decreases h@.len() - j,
    {
        let a = h[j];
        let b = h[j + 1];
        let v: Option<u8> = if a == 0x2B {
            hex_digit(b)
        } else {
            match (hex_digit(a), hex_digit(b)) {
                (Some(x), Some(y)) => Some(x * 16 + y),
                _ => None,
            }
        };
        assert(v == hex_pair_value(a, b));
        assert(h@.skip(j as int)[0] == a);
        assert(h@.skip(j as int)[1] == b);
        assert(h@.skip(j as int).skip(2) =~= h@.skip(j + 2));
        match v {
            None => {
                assert(h@.skip(j as int).len() >= 2);
                assert(decode_hex_pairs(h@.skip(j as int)) is None);
                return Err("invalid digit found in string".to_string());
            },
            Some(x) => {
                let ghost before = out@;
                out.push(x);
                proof {
                    match decode_hex_pairs(h@.skip(j + 2)) {
                        Some(rest) => {
                            assert(before + (seq![x] + rest) =~= out@ + rest);
                        },
                        None => {},
                    }
                }
            },
        }
        j = j + 2;
    }
    assert(h@.skip(h@.len() as int) =~= Seq::<u8>::empty());
    assert(out@ + Seq::<u8>::empty() =~= out@);
    Ok(out)
}


/// The lowercase hexadecimal digit for `d < 16`.
pub open spec fn hex_char(d: int) -> char {
    if d < 10 {
        (48 + d) as char
    } else {
        (87 + d) as char
    }
}

/// Two lowercase hexadecimal digits per byte (what `{:02x}` prints for each).
pub open spec fn spec_bytes_to_hex(bytes: Seq<u8>) -> Seq<char>
    decreases bytes.len(),
{
    if bytes.len() == 0 {
        seq![]
    } else {
        spec_bytes_to_hex(bytes.drop_last()) + seq![
            hex_char(bytes.last() as int / 16),
            hex_char(bytes.last() as int % 16),
        ]
    }
}

fn hex_digit_char(d: u8) -> (c: char)
    requires
        d < 16,
    ensures
        c == hex_char(d as int),
{
    if d < 10 {
        (48 + d) as char
    } else {
        (87 + d) as char
    }
}

/// Encodes bytes as lowercase hexadecimal, two digits per byte.
pub fn bytes_to_hex(bytes: &[u8]) -> (r: String)
    ensures
        r@ == spec_bytes_to_hex(bytes@),
{
    let mut out = String::new();
    let mut i: usize = 0;
    while i < bytes.len()
        invariant
            i <= bytes@.len(),
            out@ == spec_bytes_to_hex(bytes@.take(i as int)),
        decreases bytes.len() - i,
    {
        let b = bytes[i];
        assert(bytes@.take(i + 1).drop_last() =~= bytes@.take(i as int));
        push_char(&mut out, hex_digit_char(b / 16));
        push_char(&mut out, hex_digit_char(b % 16));
        assert(out@ =~= spec_bytes_to_hex(bytes@.take(i + 1)));
        i = i + 1;
    }
    assert(bytes@.take(bytes@.len() as int) =~= bytes@);
    out
}

/// Whether a run that ended with `status` on attempt `attempt_number` is retried:
/// retries are configured, attempts remain, and the run failed or timed out.
pub open spec fn spec_should_retry(retry_max: u32, status: ExecutionStatus, attempt_number: u32) -> bool {
    retry_max != 0 && attempt_number <= retry_max && (status == ExecutionStatus::Failed || status
        == ExecutionStatus::TimedOut)
}

/// Returns true if the execution should be retried based on job config and status.
pub fn should_retry(retry_max: u32, status: ExecutionStatus, attempt_number: u32) -> (r: bool)
    ensures
        r == spec_should_retry(retry_max, status, attempt_number),
{
    if retry_max == 0 {
        return false;
    }
    if attempt_number > retry_max {
        return false;
    }
    matches!(status, ExecutionStatus::Failed | ExecutionStatus::TimedOut)
}

} // verus!

verus! {

proof fn lemma_strip_no_spaces(s: Seq<u8>)
    requires
        forall|i: int| 0 <= i < s.len() ==> #[trigger] s[i] != 0x20,
    ensures
        strip_spaces(s) == s,
    decreases s.len(),
{
    reveal_with_fuel(Seq::filter, 1);
    if s.len() > 0 {
        lemma_strip_no_spaces(s.drop_last());
        assert(s.drop_last().push(s.last()) =~= s);
    }
}

proof fn lemma_bytes_to_hex_at(b: Seq<u8>)
    ensures
        spec_bytes_to_hex(b).len() == 2 * b.len(),
        forall|i: int|
            0 <= i < b.len() ==> #[trigger] spec_bytes_to_hex(b)[2 * i] == hex_char(b[i] as int / 16)
                && spec_bytes_to_hex(b)[2 * i + 1] == hex_char(b[i] as int % 16),
    decreases b.len(),
{
    if b.len() > 0 {
        lemma_bytes_to_hex_at(b.drop_last());
        assert forall|i: int| 0 <= i < b.len() implies #[trigger] spec_bytes_to_hex(b)[2 * i]
            == hex_char(b[i] as int / 16) && spec_bytes_to_hex(b)[2 * i + 1] == hex_char(
            b[i] as int % 16,
        ) by {
            if i < b.len() - 1 {
                assert(b.drop_last()[i] == b[i]);
                assert(spec_bytes_to_hex(b.drop_last())[2 * i] == hex_char(b[i] as int / 16));
            }
        }
    }
}

proof fn lemma_hex_digit_of_char(d: int)
    requires
        0 <= d < 16,
    ensures
        hex_char(d) as u8 != 0x20,
        hex_char(d) as u8 != 0x2B,
        hex_digit_value(hex_char(d) as u8) == Some(d as u8),
        '\0' <= hex_char(d) <= '\u{7f}',
{
}

proof fn lemma_decode_pairs(h: Seq<u8>, b: Seq<u8>)
    requires
        h.len() == 2 * b.len(),
        forall|i: int|
            0 <= i < b.len() ==> #[trigger] h[2 * i] == hex_char(b[i] as int / 16) as u8 && h[2 * i
                + 1] == hex_char(b[i] as int % 16) as u8,
    ensures
        decode_hex_pairs(h) == Some(b),
    decreases b.len(),
{
    if b.len() > 0 {
        let t = h.skip(2);
        let bt = b.drop_first();
        assert forall|i: int| 0 <= i < bt.len() implies #[trigger] t[2 * i] == hex_char(
            bt[i] as int / 16,
        ) as u8 && t[2 * i + 1] == hex_char(bt[i] as int % 16) as u8 by {
            assert(t[2 * i] == h[2 * (i + 1)]);
            assert(t[2 * i + 1] == h[2 * (i + 1) + 1]);
            assert(bt[i] == b[i + 1]);
        }
        lemma_decode_pairs(t, bt);
        let x = b[0] as int / 16;
        let y = b[0] as int % 16;
        assert(h[0] == hex_char(x) as u8 && h[1] == hex_char(y) as u8) by {
            assert(h[2 * 0int] == h[0]);
        }
        lemma_hex_digit_of_char(x);
        lemma_hex_digit_of_char(y);
        assert(x * 16 + y == b[0]) by (nonlinear_arith)
            requires
                x == b[0] as int / 16,
                y == b[0] as int % 16,
        ;
        assert(seq![b[0]] + bt =~= b);
    }
}

/// Decoding what [`bytes_to_hex`] encodes gives back the bytes: the UTF-8 bytes of
/// the hexadecimal text decode to the same bytes.
pub proof fn lemma_hex_round_trip(b: Seq<u8>)
    ensures
        spec_hex_to_bytes(vstd::utf8::encode_utf8(spec_bytes_to_hex(b))) == Ok::<Seq<u8>, Seq<char>>(b),
{
    let s = spec_bytes_to_hex(b);
    lemma_bytes_to_hex_at(b);
    assert forall|j: int| 0 <= j < s.len() implies '\0' <= #[trigger] s[j] <= '\u{7f}' by {
        let i = j / 2;
        assert(s[2 * i] == hex_char(b[i] as int / 16));
        lemma_hex_digit_of_char(b[i] as int / 16);
        lemma_hex_digit_of_char(b[i] as int % 16);
        if j % 2 == 0 {
            assert(j == 2 * i);
        } else {
            assert(j == 2 * i + 1);
        }
    }
    assert(vstd::utf8::is_ascii_chars(s));
    vstd::utf8::is_ascii_chars_encode_utf8(s);
    let h = vstd::utf8::encode_utf8(s);
    assert forall|i: int| 0 <= i < h.len() implies #[trigger] h[i] != 0x20 by {
        assert(s[i] as u8 == h[i]);
        let k = i / 2;
        assert(s[2 * k] == hex_char(b[k] as int / 16));
        lemma_hex_digit_of_char(b[k] as int / 16);
        lemma_hex_digit_of_char(b[k] as int % 16);
        if i % 2 == 0 {
            assert(i == 2 * k);
        } else {
            assert(i == 2 * k + 1);
        }
    }
    lemma_strip_no_spaces(h);
    assert forall|i: int| 0 <= i < b.len() implies #[trigger] h[2 * i] == hex_char(b[i] as int / 16) as u8
        && h[2 * i + 1] == hex_char(b[i] as int % 16) as u8 by {
        assert(s[2 * i] as u8 == h[2 * i]);
        assert(s[2 * i + 1] as u8 == h[2 * i + 1]);
    }
    lemma_decode_pairs(h, b);
    assert(h.len() % 2 == 0);
}

/// `b` with an ASCII capital letter turned into lower case.
pub open spec fn ascii_lower(b: u8) -> u8 {
    if 0x41 <= b && b <= 0x5A {
        (b + 32) as u8
    } else {
        b
    }
}

/// Each byte of `h` is an ASCII hexadecimal digit, in either case.
pub open spec fn all_hex_digits(h: Seq<u8>) -> bool {
    forall|k: int| 0 <= k < h.len() ==> (#[trigger] hex_digit_value(h[k])) is Some
}

proof fn lemma_hex_char_of_digit(b: u8)
    requires
        hex_digit_value(b) is Some,
    ensures
        hex_pair_value(0x30, b) == hex_digit_value(b),
        b != 0x2B,
        hex_digit_value(b)->Some_0 < 16,
        hex_char(hex_digit_value(b)->Some_0 as int) as u8 == ascii_lower(b),
        '\0' <= hex_char(hex_digit_value(b)->Some_0 as int) <= '\u{7f}',
{
}

proof fn lemma_decode_hex_text(h: Seq<u8>)
    requires
        h.len() % 2 == 0,
        all_hex_digits(h),
    ensures
        decode_hex_pairs(h) is Some,
        2 * decode_hex_pairs(h)->Some_0.len() == h.len(),
        forall|i: int|
            0 <= i < decode_hex_pairs(h)->Some_0.len() ==> hex_char(
                #[trigger] decode_hex_pairs(h)->Some_0[i] as int / 16,
            ) as u8 == ascii_lower(h[2 * i]) && hex_char(decode_hex_pairs(h)->Some_0[i] as int % 16)
                as u8 == ascii_lower(h[2 * i + 1]),
    decreases h.len(),
{
    if h.len() >= 2 {
        let t = h.skip(2);
        assert forall|k: int| 0 <= k < t.len() implies (#[trigger] hex_digit_value(t[k])) is Some by {
            assert(t[k] == h[k + 2]);
        }
        lemma_decode_hex_text(t);
        assert(hex_digit_value(h[0]) is Some);
        assert(hex_digit_value(h[1]) is Some);
        lemma_hex_char_of_digit(h[0]);
        lemma_hex_char_of_digit(h[1]);
        let x = hex_digit_value(h[0])->Some_0;
        let y = hex_digit_value(h[1])->Some_0;
        let v0 = (x * 16 + y) as u8;
        assert(hex_pair_value(h[0], h[1]) == Some(v0));
        assert(v0 as int / 16 == x && v0 as int % 16 == y) by (nonlinear_arith)
            requires
                x < 16,
                y < 16,
                v0 == x * 16 + y,
        ;
        let rest = decode_hex_pairs(t)->Some_0;
        let v = seq![v0] + rest;
        assert(decode_hex_pairs(h) == Some(v));
        assert forall|i: int| 0 <= i < v.len() implies hex_char(#[trigger] v[i] as int / 16) as u8
            == ascii_lower(h[2 * i]) && hex_char(v[i] as int % 16) as u8 == ascii_lower(h[2 * i + 1]) by {
            if i > 0 {
                assert(v[i] == rest[i - 1]);
                assert(h[2 * i] == t[2 * (i - 1)]);
                assert(h[2 * i + 1] == t[2 * (i - 1) + 1]);
            }
        }
    }
}

/// Decoding hexadecimal text and encoding the bytes again gives back the text
/// without its spaces and in lower case, whenever that text is an even number of
/// hexadecimal digits.
pub proof fn lemma_hex_reencode(hex: Seq<u8>)
    requires
        strip_spaces(hex).len() % 2 == 0,
        all_hex_digits(strip_spaces(hex)),
    ensures
        spec_hex_to_bytes(hex) is Ok,
        vstd::utf8::encode_utf8(spec_bytes_to_hex(spec_hex_to_bytes(hex)->Ok_0)) == strip_spaces(
            hex,
        ).map_values(|b: u8| ascii_lower(b)),
{
    let h = strip_spaces(hex);
    lemma_decode_hex_text(h);
    let v = decode_hex_pairs(h)->Some_0;
    assert(spec_hex_to_bytes(hex) == Ok::<Seq<u8>, Seq<char>>(v));
    let s = spec_bytes_to_hex(v);
    lemma_bytes_to_hex_at(v);
    assert forall|j: int| 0 <= j < s.len() implies '\0' <= #[trigger] s[j] <= '\u{7f}' && s[j] as u8
        == ascii_lower(h[j]) by {
        let i = j / 2;
        assert(0 <= i < v.len());
        lemma_bytes_to_hex_at(v);
        assert(spec_bytes_to_hex(v).len() == 2 * v.len());
        assert(spec_bytes_to_hex(v)[2 * i] == hex_char(v[i] as int / 16));
        assert(s[2 * i + 1] == hex_char(v[i] as int % 16));
        assert(hex_char(v[i] as int / 16) as u8 == ascii_lower(h[2 * i]));
        lemma_hex_digit_of_char(v[i] as int / 16);
        lemma_hex_digit_of_char(v[i] as int % 16);
        if j % 2 == 0 {
            assert(j == 2 * i);
        } else {
            assert(j == 2 * i + 1);
        }
    }
    assert(vstd::utf8::is_ascii_chars(s));
    vstd::utf8::is_ascii_chars_encode_utf8(s);
    assert(vstd::utf8::encode_utf8(s) =~= h.map_values(|b: u8| ascii_lower(b)));
}

} // verus!
