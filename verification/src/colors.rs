//! Colours written as hexadecimal codes such as `#F8FAFC` or `#0413FCAA`.

use crate::utf::{byte_len, chars_of, char_index, is_boundary, substring, utf8_len};
use vstd::prelude::*;

verus! {

/// The red, green, blue and alpha channels of a colour.
#[derive(Debug, Clone, Copy, PartialEq, Eq, Structural)]
pub struct Rgba8 {
    pub r: u8,
    pub g: u8,
    pub b: u8,
    pub a: u8,
}

/// Why a colour code was refused.
#[derive(Debug, Clone, Copy, PartialEq, Eq, Structural)]
pub enum HexColorError {
    /// The code, without its leading `#`, is neither 6 nor 8 bytes long.
    InvalidLength,
    /// A channel is not a hexadecimal number.
    InvalidDigit,
}

/// The upper-case hexadecimal digit of `k`, for `k` below sixteen.
pub open spec fn hex_char(k: int) -> char {
    if k < 10 {
        (('0' as int) + k) as char
    } else {
        (('A' as int) + k - 10) as char
    }
}

/// The value of a hexadecimal digit of either case, if `c` is one.
pub open spec fn hex_value(c: char) -> Option<int> {
    if '0' <= c && c <= '9' {
        Some(c as int - '0' as int)
    } else if 'a' <= c && c <= 'f' {
        Some(c as int - 'a' as int + 10)
    } else if 'A' <= c && c <= 'F' {
        Some(c as int - 'A' as int + 10)
    } else {
        None
    }
}

/// The value of a run of hexadecimal digits, if every character is one.
pub open spec fn hex_digits_value(d: Seq<char>) -> Option<int>
    decreases d.len(),
{
    if d.len() == 0 {
        Some(0)
    } else {
        match (hex_digits_value(d.drop_last()), hex_value(d.last())) {
            (Some(v), Some(x)) => Some(v * 16 + x),
            _ => None,
        }
    }
}

/// What `u8::from_str_radix(p, 16)` reads from `p`: an optional `+`, then
/// at least one hexadecimal digit, and a value that fits a byte.
pub open spec fn hex_byte(p: Seq<char>) -> Option<int> {
    let d = if p.len() > 0 && p[0] == '+' { p.drop_first() } else { p };
    if d.len() == 0 {
        None
    } else {
        match hex_digits_value(d) {
            Some(v) => if v <= 255 { Some(v) } else { None },
            None => None,
        }
    }
}

/// `s` without its leading `#` characters.
pub open spec fn without_hashes(s: Seq<char>) -> Seq<char>
    decreases s.len(),
{
    if s.len() > 0 && s[0] == '#' {
        without_hashes(s.drop_first())
    } else {
        s
    }
}

/// The characters of `h` between the byte offsets `a` and `b`.
pub open spec fn byte_slice(h: Seq<char>, a: int, b: int) -> Seq<char> {
    h.subrange(char_index(h, a), char_index(h, b))
}

/// Whether each channel of a code without its `#` can be cut out: the
/// offsets 2, 4 and 6 fall on character boundaries.
pub open spec fn channels_cut(h: Seq<char>) -> bool {
    is_boundary(h, 2) && is_boundary(h, 4) && is_boundary(h, 6)
}

/// The colour a code stands for, or why it is refused: after the leading
/// `#`s, two bytes each of red, green and blue, and optionally of alpha
/// (else the colour is opaque).
pub open spec fn parse_hex_color(s: Seq<char>) -> Result<Rgba8, HexColorError> {
    let h = without_hashes(s);
    let len = utf8_len(h);
    if len != 6 && len != 8 {
        Err(HexColorError::InvalidLength)
    } else {
        match (hex_byte(byte_slice(h, 0, 2)), hex_byte(byte_slice(h, 2, 4)), hex_byte(byte_slice(h, 4, 6))) {
            (Some(r), Some(g), Some(b)) => {
                if len == 8 {
                    match hex_byte(byte_slice(h, 6, 8)) {
                        Some(a) => Ok(Rgba8 { r: r as u8, g: g as u8, b: b as u8, a: a as u8 }),
                        None => Err(HexColorError::InvalidDigit),
                    }
                } else {
                    Ok(Rgba8 { r: r as u8, g: g as u8, b: b as u8, a: 255 })
                }
            },
            _ => Err(HexColorError::InvalidDigit),
        }
    }
}

/// The two upper-case hexadecimal digits of a byte.
pub open spec fn hex_pair(v: u8) -> Seq<char> {
    seq![hex_char(v as int / 16), hex_char(v as int % 16)]
}

/// The code of a colour: `#` and the channels as two upper-case digits
/// each, with alpha only where it is given.
pub open spec fn hex_code(r: u8, g: u8, b: u8, a: Option<u8>) -> Seq<char> {
    seq!['#'] + hex_pair(r) + hex_pair(g) + hex_pair(b) + match a {
        Some(a) => hex_pair(a),
        None => Seq::empty(),
    }
}

fn hex_char_of(k: u8) -> (c: char)
    requires
        k < 16,
    ensures
        c == hex_char(k as int),
{
    if k < 10 {
        ((48 + k) as u8) as char
    } else {
        ((55 + k) as u8) as char
    }
}

fn push_hex_pair(out: &mut String, v: u8)
    ensures
        final(out)@ == old(out)@ + hex_pair(v),
{
    out.push(hex_char_of(v / 16));
    out.push(hex_char_of(v % 16));
}

/// Writes the code of a colour, such as `#F8FAFC`, or `#0413FCAA` where the
/// alpha channel is given.
pub fn to_hex_string(r: u8, g: u8, b: u8, a: Option<u8>) -> (s: String)
    ensures
        s@ == hex_code(r, g, b, a),
{
    let mut out = String::new();
    out.push('#');
    push_hex_pair(&mut out, r);
    push_hex_pair(&mut out, g);
    push_hex_pair(&mut out, b);
    match a {
        Some(a) => push_hex_pair(&mut out, a),
        None => {},
    }
    assert(out@ =~= hex_code(r, g, b, a));
    out
}

fn hex_value_of(c: char) -> (r: Option<u8>)
    ensures
        r matches Some(v) ==> hex_value(c) == Some(v as int),
        r is None ==> hex_value(c) is None,
{
    if '0' <= c && c <= '9' {
        Some(((c as u32) - 48) as u8)
    } else if 'a' <= c && c <= 'f' {
        Some(((c as u32) - 87) as u8)
    } else if 'A' <= c && c <= 'F' {
        Some(((c as u32) - 55) as u8)
    } else {
        None
    }
}

/// Reads one channel the way `u8::from_str_radix(p, 16)` does, for a piece
/// of at most two bytes.
fn parse_hex_byte(p: &str) -> (r: Option<u8>)
    requires
        utf8_len(p@) <= 2,
    ensures
        r matches Some(v) ==> hex_byte(p@) == Some(v as int),
        r is None ==> hex_byte(p@) is None,
{
    let chars = chars_of(p);
    proof {
        lemma_len_bound(p@);
    }
    let mut i: usize = 0;
    if chars.len() > 0 && chars[0] == '+' {
        i = 1;
    }
    let ghost d = p@.skip(i as int);
    assert(d =~= if p@.len() > 0 && p@[0] == '+' { p@.drop_first() } else { p@ });
    if i >= chars.len() {
        return None;
    }
    let mut v: u32 = 0;
    let start = i;
    assert(d.take(0) =~= Seq::<char>::empty());
    while i < chars.len()
        invariant
            chars@ == p@,
            chars@.len() <= 2,
            start <= i <= chars@.len(),
            d == p@.skip(start as int),
            d == if p@.len() > 0 && p@[0] == '+' { p@.drop_first() } else { p@ },
            d.len() > 0,
            hex_digits_value(d.take(i - start)) == Some(v as int),
            v < 256,
            i - start <= 1 ==> v < 16,
        decreases chars.len() - i,
    {
        let c = chars[i];
        assert(d.take(i - start + 1).drop_last() =~= d.take(i - start));
        assert(d.take(i - start + 1).last() == c);
        match hex_value_of(c) {
            Some(x) => {
                v = v * 16 + (x as u32);
            },
            None => {
                proof {
                    lemma_hex_prefix_none(d, i - start + 1);
                }
                return None;
            },
        }
        i += 1;
    }
    assert(d.take(chars.len() - start) =~= d);
    Some(v as u8)
}

/// A text of at most `n` bytes has at most `n` characters.
proof fn lemma_len_bound(s: Seq<char>)
    ensures
        s.len() <= utf8_len(s),
    decreases s.len(),
{
    if s.len() > 0 {
        crate::utf::lemma_width_bounds(s[0]);
        lemma_len_bound(s.drop_first());
    }
}

/// A run with a non-digit in its first `k` characters has no value.
proof fn lemma_hex_prefix_none(d: Seq<char>, k: int)
    requires
        0 < k <= d.len(),
        hex_digits_value(d.take(k)) is None,
    ensures
        hex_digits_value(d) is None,
    decreases d.len() - k,
{
    if k < d.len() {
        assert(d.take(k + 1).drop_last() =~= d.take(k));
        lemma_hex_prefix_none(d, k + 1);
    } else {
        assert(d.take(k) =~= d);
    }
}

/// Strips the leading `#` characters.
fn strip_hashes(s: &str) -> (r: String)
    ensures
        r@ == without_hashes(s@),
{
    let chars = chars_of(s);
    let mut i: usize = 0;
    assert(s@.skip(0) =~= s@);
    while i < chars.len() && chars[i] == '#'
        invariant
            chars@ == s@,
            i <= chars@.len(),
            without_hashes(s@) == without_hashes(s@.skip(i as int)),
        decreases chars.len() - i,
    {
        assert(s@.skip(i as int).drop_first() =~= s@.skip(i + 1));
        i += 1;
    }
    let n = byte_len(s);
    let b = crate::utf::utf8_len_of_prefix(&chars, i);
    proof {
        crate::utf::lemma_char_index(s@, i as int);
        crate::utf::lemma_full_prefix(s@);
        if i < s@.len() {
            crate::utf::lemma_prefix_monotonic(s@, i as int, s@.len() as int);
        }
        assert(s@.subrange(i as int, s@.len() as int) =~= s@.skip(i as int));
    }
    substring(s, b, n)
}

/// Reads a colour code such as `#F8FAFC` or `#0413FCAA`.
pub fn parse_hex_string(hex: &str) -> (r: Result<Rgba8, HexColorError>)
    requires
        ({
            let h = without_hashes(hex@);
            (utf8_len(h) == 6 || utf8_len(h) == 8) ==> channels_cut(h)
        }),
    ensures
        r == parse_hex_color(hex@),
{
    let h = strip_hashes(hex);
    let len = byte_len(h.as_str());
    if len != 6 && len != 8 {
        return Err(HexColorError::InvalidLength);
    }
    proof {
        crate::utf::lemma_char_index(h@, 0);
        assert(h@.take(0) =~= Seq::<char>::empty());
        crate::utf::lemma_full_prefix(h@);
        crate::utf::lemma_subrange_len(h@, 0, 2);
        crate::utf::lemma_subrange_len(h@, 2, 4);
        crate::utf::lemma_subrange_len(h@, 4, 6);
        if len == 8 {
            crate::utf::lemma_subrange_len(h@, 6, 8);
        }
    }
    let r = parse_hex_byte(substring(h.as_str(), 0, 2).as_str());
    let g = parse_hex_byte(substring(h.as_str(), 2, 4).as_str());
    let b = parse_hex_byte(substring(h.as_str(), 4, 6).as_str());
    match (r, g, b) {
        (Some(r), Some(g), Some(b)) => {
            if len == 8 {
                match parse_hex_byte(substring(h.as_str(), 6, 8).as_str()) {
                    Some(a) => Ok(Rgba8 { r, g, b, a }),
                    None => Err(HexColorError::InvalidDigit),
                }
            } else {
                Ok(Rgba8 { r, g, b, a: 255 })
            }
        },
        _ => Err(HexColorError::InvalidDigit),
    }
}

proof fn lemma_hex_char(k: int)
    requires
        0 <= k < 16,
    ensures
        hex_value(hex_char(k)) == Some(k),
        (hex_char(k) as u32) < 128,
        hex_char(k) != '#',
        hex_char(k) != '+',
{
}

/// A text of one-byte characters has as many bytes as characters before
/// each of its offsets.
proof fn lemma_ascii_prefix(s: Seq<char>, i: int)
    requires
        0 <= i <= s.len(),
        forall|k: int| 0 <= k < s.len() ==> (#[trigger] s[k] as u32) < 128,
    ensures
        utf8_len(s.take(i)) == i,
    decreases i,
{
    if i == 0 {
        assert(s.take(0) =~= Seq::<char>::empty());
    } else {
        lemma_ascii_prefix(s, i - 1);
        crate::utf::lemma_prefix_step(s, i - 1);
        assert((s[i - 1] as u32) < 128);
    }
}

/// Reading back the code of a colour gives the colour: opaque where no
/// alpha was written.
pub proof fn lemma_hex_round_trip(r: u8, g: u8, b: u8, a: Option<u8>)
    ensures
        parse_hex_color(hex_code(r, g, b, a)) == Ok::<Rgba8, HexColorError>(Rgba8 {
            r,
            g,
            b,
            a: match a {
                Some(a) => a,
                None => 255,
            },
        }),
        channels_cut(without_hashes(hex_code(r, g, b, a))),
{
    let code = hex_code(r, g, b, a);
    let h = code.drop_first();
    lemma_hex_char(r as int / 16);
    lemma_hex_char(r as int % 16);
    lemma_hex_char(g as int / 16);
    lemma_hex_char(g as int % 16);
    lemma_hex_char(b as int / 16);
    lemma_hex_char(b as int % 16);
    let tail = match a {
        Some(a) => hex_pair(a),
        None => Seq::<char>::empty(),
    };
    if let Some(a) = a {
        lemma_hex_char(a as int / 16);
        lemma_hex_char(a as int % 16);
    }
    assert(h =~= hex_pair(r) + hex_pair(g) + hex_pair(b) + tail);
    assert(h[0] != '#');
    assert(without_hashes(h) == h);
    assert(without_hashes(code) == h);
    assert forall|k: int| 0 <= k < h.len() implies (#[trigger] h[k] as u32) < 128 by {
        if k >= 6 {
            assert(h[k] == tail[k - 6]);
        }
    }
    lemma_ascii_prefix(h, h.len() as int);
    assert(h.take(h.len() as int) =~= h);
    let n = h.len() as int;
    assert forall|i: int| 0 <= i <= n implies #[trigger] char_index(h, i) == i && is_boundary(h, i) by {
        lemma_ascii_prefix(h, i);
        crate::utf::lemma_char_index(h, i);
    }
    assert(char_index(h, 0) == 0);
    assert(char_index(h, 2) == 2);
    assert(char_index(h, 4) == 4);
    assert(char_index(h, 6) == 6);
    assert(byte_slice(h, 0, 2) =~= hex_pair(r));
    assert(byte_slice(h, 2, 4) =~= hex_pair(g));
    assert(byte_slice(h, 4, 6) =~= hex_pair(b));
    lemma_hex_pair(r);
    lemma_hex_pair(g);
    lemma_hex_pair(b);
    if let Some(a) = a {
        assert(char_index(h, 8) == 8);
        assert(byte_slice(h, 6, 8) =~= hex_pair(a));
        lemma_hex_pair(a);
    }
}

/// The two digits of a byte read back as the byte.
proof fn lemma_hex_pair(v: u8)
    ensures
        hex_byte(hex_pair(v)) == Some(v as int),
{
    let p = hex_pair(v);
    lemma_hex_char(v as int / 16);
    lemma_hex_char(v as int % 16);
    assert(p.drop_last() =~= seq![hex_char(v as int / 16)]);
    assert(p.drop_last().drop_last() =~= Seq::<char>::empty());
    assert(hex_digits_value(p.drop_last().drop_last()) == Some(0int));
    assert(hex_digits_value(p.drop_last()) == Some(v as int / 16));
    assert(hex_digits_value(p) == Some((v as int / 16) * 16 + v as int % 16));
}

} // verus!
