//! Parsing of the terminal's OSC 11 background-colour reply.

use vstd::prelude::*;
use vstd::utf8::valid_utf8;

verus! {

/// ASCII lower-casing of one byte; other bytes are unchanged.
pub open spec fn ascii_lower(b: u8) -> u8 {
    if 65 <= b <= 90 { (b + 32) as u8 } else { b }
}

/// Whether `rgb:` (compared case-insensitively over ASCII) starts at `i`.
pub open spec fn rgb_tag_at(s: Seq<u8>, i: int) -> bool {
    &&& 0 <= i
    &&& i + 4 <= s.len()
    &&& ascii_lower(s[i]) == 0x72u8
    &&& ascii_lower(s[i + 1]) == 0x67u8
    &&& ascii_lower(s[i + 2]) == 0x62u8
    &&& s[i + 3] == 0x3au8
}

/// The first position at or after `i` where `rgb:` starts.
pub open spec fn find_rgb_from(s: Seq<u8>, i: int) -> Option<int>
    decreases s.len() - i,
{
    if i < 0 || i + 4 > s.len() {
        None
    } else if rgb_tag_at(s, i) {
        Some(i)
    } else {
        find_rgb_from(s, i + 1)
    }
}

/// `s` with every trailing copy of `b` removed.
pub open spec fn trim_end_byte(s: Seq<u8>, b: u8) -> Seq<u8>
    decreases s.len(),
{
    if s.len() > 0 && s.last() == b {
        trim_end_byte(s.drop_last(), b)
    } else {
        s
    }
}

/// Position of the first `/` at or after `i`, or the length when none.
pub open spec fn slash_from(s: Seq<u8>, i: int) -> int
    decreases s.len() - i,
{
    if i >= s.len() {
        s.len() as int
    } else if s[i] == 0x2fu8 {
        i
    } else {
        slash_from(s, i + 1)
    }
}

/// Value of a hexadecimal digit byte, if it is one.
pub open spec fn hex_digit(b: u8) -> Option<nat> {
    if 48 <= b <= 57 {
        Some((b - 48) as nat)
    } else if 97 <= b <= 102 {
        Some((b - 87) as nat)
    } else if 65 <= b <= 70 {
        Some((b - 55) as nat)
    } else {
        None
    }
}

/// Value of a non-empty run of hexadecimal digits, if every byte is one.
pub open spec fn hex_digits_value(s: Seq<u8>) -> Option<nat>
    decreases s.len(),
{
    if s.len() == 0 {
        Some(0)
    } else {
        match (hex_digits_value(s.drop_last()), hex_digit(s.last())) {
            (Some(v), Some(d)) => Some(v * 16 + d),
            _ => None,
        }
    }
}

/// Hexadecimal parse as `u16::from_str_radix(_, 16)` does it for at most
/// four bytes: an optional leading `+`, then at least one hex digit.
pub open spec fn hex_value(s: Seq<u8>) -> Option<nat> {
    if s.len() == 0 {
        None
    } else if s[0] == 0x2bu8 {
        if s.len() == 1 { None } else { hex_digits_value(s.drop_first()) }
    } else {
        hex_digits_value(s)
    }
}

/// One colour component scaled to 8 bits according to its digit count:
/// one digit is repeated (`f` -> `ff`), two are taken as is, three and four
/// keep their most significant byte. Longer or malformed components fail.
pub open spec fn spec_scale_hex(s: Seq<u8>) -> Option<u8> {
    if s.len() < 1 || s.len() > 4 {
        None
    } else {
        match hex_value(s) {
            None => None,
            Some(v) => if s.len() == 1 {
                Some((v * 17) as u8)
            } else if s.len() == 2 {
                Some(v as u8)
            } else if s.len() == 3 {
                Some((v / 16) as u8)
            } else {
                Some((v / 256) as u8)
            },
        }
    }
}

/// The colour payload of a reply: what follows `rgb:`, with trailing `\`,
/// then ESC, then BEL bytes removed.
pub open spec fn payload(s: Seq<u8>, start: int) -> Seq<u8> {
    trim_end_byte(
        trim_end_byte(trim_end_byte(s.subrange(start + 4, s.len() as int), 0x5cu8), 0x1bu8),
        0x07u8,
    )
}

/// The first three `/`-separated components of `p`, when there are at least three.
pub open spec fn three_components(p: Seq<u8>) -> Option<(Seq<u8>, Seq<u8>, Seq<u8>)> {
    let e0 = slash_from(p, 0);
    if e0 >= p.len() {
        None
    } else {
        let e1 = slash_from(p, e0 + 1);
        if e1 >= p.len() {
            None
        } else {
            let e2 = slash_from(p, e1 + 1);
            Some((p.subrange(0, e0), p.subrange(e0 + 1, e1), p.subrange(e1 + 1, e2)))
        }
    }
}

/// An OSC 11 reply parsed into an RGB triple: the reply must be UTF-8,
/// hold `rgb:` (any ASCII case), and be followed by three `/`-separated
/// hexadecimal components of one to four digits each.
pub open spec fn spec_parse_response(s: Seq<u8>) -> Option<(u8, u8, u8)> {
    if !valid_utf8(s) {
        None
    } else {
        match find_rgb_from(s, 0) {
            None => None,
            Some(start) => match three_components(payload(s, start)) {
                None => None,
                Some((c0, c1, c2)) => match (spec_scale_hex(c0), spec_scale_hex(c1), spec_scale_hex(c2)) {
                    (Some(r), Some(g), Some(b)) => Some((r, g, b)),
                    _ => None,
                },
            },
        }
    }
}

/// Whether `bytes` are well-formed UTF-8, by `std::str::from_utf8`, which
/// accepts exactly the valid UTF-8 encodings.
#[verifier::external_body]
fn is_utf8(bytes: &[u8]) -> (ok: bool)
    ensures
        ok == valid_utf8(bytes@),
{
    std::str::from_utf8(bytes).is_ok()
}

fn find_rgb(s: &[u8]) -> (r: Option<usize>)
    ensures
        r matches Some(j) ==> find_rgb_from(s@, 0) == Some(j as int),
        r is None ==> find_rgb_from(s@, 0) is None,
        r matches Some(i) ==> i + 4 <= s@.len(),
{
    let n = s.len();
    if n < 4 {
        return None;
    }
    let mut i: usize = 0;
    while i <= n - 4
        invariant
            n == s@.len(),
            4 <= n,
            i <= n - 3,
            find_rgb_from(s@, 0) == find_rgb_from(s@, i as int),
        decreases n - i,
    {
        let a = s[i];
        let b = s[i + 1];
        let c = s[i + 2];
        let d = s[i + 3];
        let la: u8 = if 65 <= a && a <= 90 { a + 32 } else { a };
        let lb: u8 = if 65 <= b && b <= 90 { b + 32 } else { b };
        let lc: u8 = if 65 <= c && c <= 90 { c + 32 } else { c };
        if la == 0x72 && lb == 0x67 && lc == 0x62 && d == 0x3a {
            return Some(i);
        }
        i += 1;
    }
    None
}

/// End of `s[lo..end]` once every trailing `b` is removed.
fn trim_end_at(s: &[u8], lo: usize, end: usize, b: u8) -> (r: usize)
    requires
        lo <= end <= s@.len(),
    ensures
        lo <= r <= end,
        s@.subrange(lo as int, r as int) == trim_end_byte(s@.subrange(lo as int, end as int), b),
{
    let mut e = end;
    while e > lo && s[e - 1] == b
        invariant
            lo <= e <= end <= s@.len(),
            trim_end_byte(s@.subrange(lo as int, e as int), b) == trim_end_byte(
                s@.subrange(lo as int, end as int),
                b,
            ),
        decreases e,
    {
        assert(s@.subrange(lo as int, e as int).drop_last() =~= s@.subrange(lo as int, e - 1));
        e -= 1;
    }
    e
}

/// First `/` in `s[from..end]`, or `end`, relative to the run `s[lo..end]`.
fn slash_in(s: &[u8], lo: usize, from: usize, end: usize) -> (r: usize)
    requires
        lo <= from <= end <= s@.len(),
    ensures
        from <= r <= end,
        r - lo == slash_from(s@.subrange(lo as int, end as int), from - lo),
{
    let ghost p = s@.subrange(lo as int, end as int);
    let mut i = from;
    while i < end && s[i] != 0x2f
        invariant
            lo <= from <= i <= end <= s@.len(),
            p == s@.subrange(lo as int, end as int),
            slash_from(p, from - lo) == slash_from(p, i - lo),
        decreases end - i,
    {
        i += 1;
    }
    i
}

proof fn lemma_hex_digits_value_bound(s: Seq<u8>)
    ensures
        hex_digits_value(s) matches Some(v) ==> v < pow16(s.len()),
    decreases s.len(),
{
    if s.len() > 0 {
        lemma_hex_digits_value_bound(s.drop_last());
    }
}

/// `16` to the power `n`.
pub open spec fn pow16(n: nat) -> nat
    decreases n,
{
    if n == 0 { 1 } else { 16 * pow16((n - 1) as nat) }
}

/// Parse `s[from..to]` as hexadecimal digits (at most four).
fn hex_digits(s: &[u8], from: usize, to: usize) -> (r: Option<u32>)
    requires
        from <= to <= s@.len(),
        to - from <= 4,
    ensures
        match hex_digits_value(s@.subrange(from as int, to as int)) {
            Some(v) => r == Some(v as u32),
            None => r is None,
        },
{
    let mut v: u32 = 0;
    let mut i = from;
    assert(s@.subrange(from as int, from as int) =~= Seq::<u8>::empty());
    while i < to
        invariant
            from <= i <= to <= s@.len(),
            to - from <= 4,
            hex_digits_value(s@.subrange(from as int, i as int)) == Some(v as nat),
            v < pow16((i - from) as nat),
        decreases to - i,
    {
        let b = s[i];
        let d: u32 = if 48 <= b && b <= 57 {
            (b - 48) as u32
        } else if 97 <= b && b <= 102 {
            (b - 87) as u32
        } else if 65 <= b && b <= 70 {
            (b - 55) as u32
        } else {
            assert(s@.subrange(from as int, i + 1).drop_last() =~= s@.subrange(from as int, i as int));
            proof {
                lemma_hex_none_extends(s@, from as int, i as int + 1, to as int);
            }
            return None;
        };
        assert(s@.subrange(from as int, i + 1).drop_last() =~= s@.subrange(from as int, i as int));
        assert(pow16((i + 1 - from) as nat) == 16 * pow16((i - from) as nat));
        proof {
            reveal_with_fuel(pow16, 5);
            lemma_pow16_mono((i + 1 - from) as nat, 4);
        }
        v = v * 16 + d;
        i += 1;
    }
    Some(v)
}

proof fn lemma_pow16_mono(a: nat, b: nat)
    requires
        a <= b,
    ensures
        pow16(a) <= pow16(b),
    decreases b,
{
    if a < b {
        lemma_pow16_mono(a, (b - 1) as nat);
    }
}

/// Once a prefix fails to parse, every longer run fails too.
proof fn lemma_hex_none_extends(s: Seq<u8>, from: int, mid: int, to: int)
    requires
        0 <= from <= mid <= to <= s.len(),
        hex_digits_value(s.subrange(from, mid)) is None,
    ensures
        hex_digits_value(s.subrange(from, to)) is None,
    decreases to - mid,
{
    if mid < to {
        assert(s.subrange(from, mid + 1).drop_last() =~= s.subrange(from, mid));
        lemma_hex_none_extends(s, from, mid + 1, to);
    }
}

/// Scale the colour component `s[from..to]` to 8 bits.
fn scale_hex_to_u8(s: &[u8], from: usize, to: usize) -> (r: Option<u8>)
    requires
        from <= to <= s@.len(),
    ensures
        r == spec_scale_hex(s@.subrange(from as int, to as int)),
{
    let ghost c = s@.subrange(from as int, to as int);
    let len = to - from;
    if len < 1 || len > 4 {
        return None;
    }
    let value = if s[from] == 0x2b {
        if len == 1 {
            return None;
        }
        assert(c.drop_first() =~= s@.subrange(from + 1, to as int));
        hex_digits(s, from + 1, to)
    } else {
        hex_digits(s, from, to)
    };
    match value {
        None => None,
        Some(v) => {
            proof {
                if s[from as int] == 0x2b {
                    lemma_hex_digits_value_bound(c.drop_first());
                } else {
                    lemma_hex_digits_value_bound(c);
                }
                reveal_with_fuel(pow16, 5);
                lemma_pow16_mono((len - 1) as nat, len as nat);
            }
            if len == 1 {
                Some((v * 17) as u8)
            } else if len == 2 {
                Some(v as u8)
            } else if len == 3 {
                Some((v / 16) as u8)
            } else {
                Some((v / 256) as u8)
            }
        },
    }
}

/// Parse an OSC 11 reply (such as `ESC ] 11 ; rgb:0000/2b2b/3636 ESC \`)
/// into an RGB triple.
pub fn parse_response(response: &[u8]) -> (r: Option<(u8, u8, u8)>)
    ensures
        r == spec_parse_response(response@),
{
    if !is_utf8(response) {
        return None;
    }
    let start = match find_rgb(response) {
        None => return None,
        Some(i) => i,
    };
    let ghost s = response@;
    let n = response.len();
    let lo = start + 4;
    let e1 = trim_end_at(response, lo, n, 0x5c);
    let e2 = trim_end_at(response, lo, e1, 0x1b);
    let e3 = trim_end_at(response, lo, e2, 0x07);
    let ghost p = payload(s, start as int);
    assert(p =~= s.subrange(lo as int, e3 as int));
    let first_end = slash_in(response, lo, lo, e3);
    if first_end >= e3 {
        return None;
    }
    let second_end = slash_in(response, lo, first_end + 1, e3);
    if second_end >= e3 {
        return None;
    }
    let third_end = slash_in(response, lo, second_end + 1, e3);
    let red = scale_hex_to_u8(response, lo, first_end);
    let green = scale_hex_to_u8(response, first_end + 1, second_end);
    let blue = scale_hex_to_u8(response, second_end + 1, third_end);
    assert(p.subrange(0, first_end - lo) =~= s.subrange(lo as int, first_end as int));
    assert(p.subrange(first_end + 1 - lo, second_end - lo) =~= s.subrange(first_end + 1, second_end as int));
    assert(p.subrange(second_end + 1 - lo, third_end - lo) =~= s.subrange(second_end + 1, third_end as int));
    match (red, green, blue) {
        (Some(r), Some(g), Some(b)) => Some((r, g, b)),
        _ => None,
    }
}

} // verus!
