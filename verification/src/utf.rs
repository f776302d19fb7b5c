//! Byte (UTF-8) and UTF-16 offsets into text, and their relation to the
//! text's characters.

use vstd::prelude::*;

verus! {

/// Bytes that `c` takes in UTF-8.
pub open spec fn utf8_width(c: char) -> nat {
    let u = c as u32;
    if u < 0x80 {
        1
    } else if u < 0x800 {
        2
    } else if u < 0x10000 {
        3
    } else {
        4
    }
}

/// Code units that `c` takes in UTF-16.
pub open spec fn utf16_width(c: char) -> nat {
    if (c as u32) < 0x10000 {
        1
    } else {
        2
    }
}

/// Length of `s` in UTF-8 bytes.
pub open spec fn utf8_len(s: Seq<char>) -> nat
    decreases s.len(),
{
    if s.len() == 0 {
        0
    } else {
        utf8_width(s[0]) + utf8_len(s.drop_first())
    }
}

/// Length of `s` in UTF-16 code units.
pub open spec fn utf16_len(s: Seq<char>) -> nat
    decreases s.len(),
{
    if s.len() == 0 {
        0
    } else {
        utf16_width(s[0]) + utf16_len(s.drop_first())
    }
}

/// The byte offset reached by walking the characters of `s` until at least
/// `offset` UTF-16 code units lie behind (or the text ends).
pub open spec fn byte_offset_of_utf16(s: Seq<char>, offset: int) -> nat
    decreases s.len(),
{
    if s.len() == 0 || offset <= 0 {
        0
    } else {
        utf8_width(s[0]) + byte_offset_of_utf16(s.drop_first(), offset - utf16_width(s[0]))
    }
}

/// The UTF-16 offset reached by walking the characters of `s` until at least
/// `offset` bytes lie behind (or the text ends).
pub open spec fn utf16_offset_of_byte(s: Seq<char>, offset: int) -> nat
    decreases s.len(),
{
    if s.len() == 0 || offset <= 0 {
        0
    } else {
        utf16_width(s[0]) + utf16_offset_of_byte(s.drop_first(), offset - utf8_width(s[0]))
    }
}

/// How many characters the walk of `byte_offset_of_utf16` passes.
pub open spec fn chars_within_utf16(s: Seq<char>, offset: int) -> nat
    decreases s.len(),
{
    if s.len() == 0 || offset <= 0 {
        0
    } else {
        1 + chars_within_utf16(s.drop_first(), offset - utf16_width(s[0]))
    }
}

/// `b` is a byte offset at which a character of `s` begins, or the end of `s`.
pub open spec fn is_boundary(s: Seq<char>, b: int) -> bool {
    exists|i: int| 0 <= i <= s.len() && #[trigger] utf8_len(s.take(i)) == b
}

/// The number of characters that lie before byte offset `b`.
pub open spec fn char_index(s: Seq<char>, b: int) -> int {
    choose|i: int| 0 <= i <= s.len() && #[trigger] utf8_len(s.take(i)) == b
}

/// `s` with the bytes from `start` to `end` replaced by `t`: the text before
/// `start`, then `t`, then the text from `end` on.
pub open spec fn splice(s: Seq<char>, start: int, end: int, t: Seq<char>) -> Seq<char> {
    s.take(char_index(s, start)) + t + s.skip(char_index(s, end))
}

/// A character takes one to four bytes, and one or two UTF-16 code units,
/// never more code units than bytes.
pub proof fn lemma_width_bounds(c: char)
    ensures
        1 <= utf8_width(c) <= 4,
        1 <= utf16_width(c) <= 2,
        utf16_width(c) <= utf8_width(c),
{
}

/// The byte length of two texts joined is the sum of their byte lengths.
pub proof fn lemma_utf8_len_concat(a: Seq<char>, b: Seq<char>)
    ensures
        utf8_len(a + b) == utf8_len(a) + utf8_len(b),
    decreases a.len(),
{
    if a.len() > 0 {
        assert((a + b).drop_first() =~= a.drop_first() + b);
        lemma_utf8_len_concat(a.drop_first(), b);
    } else {
        assert(a + b =~= b);
    }
}

/// The UTF-16 length of two texts joined is the sum of their UTF-16
/// lengths.
pub proof fn lemma_utf16_len_concat(a: Seq<char>, b: Seq<char>)
    ensures
        utf16_len(a + b) == utf16_len(a) + utf16_len(b),
    decreases a.len(),
{
    if a.len() > 0 {
        assert((a + b).drop_first() =~= a.drop_first() + b);
        lemma_utf16_len_concat(a.drop_first(), b);
    } else {
        assert(a + b =~= b);
    }
}

/// Extending a prefix by one character adds that character's width.
pub proof fn lemma_prefix_step(s: Seq<char>, i: int)
    requires
        0 <= i < s.len(),
    ensures
        utf8_len(s.take(i + 1)) == utf8_len(s.take(i)) + utf8_width(s[i]),
        utf16_len(s.take(i + 1)) == utf16_len(s.take(i)) + utf16_width(s[i]),
{
    let one = seq![s[i]];
    assert(s.take(i + 1) =~= s.take(i) + one);
    lemma_utf8_len_concat(s.take(i), one);
    lemma_utf16_len_concat(s.take(i), one);
    assert(one.drop_first() =~= Seq::<char>::empty());
    assert(utf8_len(one.drop_first()) == 0);
    assert(utf16_len(one.drop_first()) == 0);
}

/// Longer prefixes are longer in bytes.
pub proof fn lemma_prefix_monotonic(s: Seq<char>, i: int, j: int)
    requires
        0 <= i < j <= s.len(),
    ensures
        utf8_len(s.take(i)) < utf8_len(s.take(j)),
        utf16_len(s.take(i)) < utf16_len(s.take(j)),
    decreases j - i,
{
    lemma_prefix_step(s, j - 1);
    if i < j - 1 {
        lemma_prefix_monotonic(s, i, j - 1);
    }
}

/// A boundary determines how many characters lie before it.
pub proof fn lemma_char_index(s: Seq<char>, i: int)
    requires
        0 <= i <= s.len(),
    ensures
        is_boundary(s, utf8_len(s.take(i)) as int),
        char_index(s, utf8_len(s.take(i)) as int) == i,
{
    let b = utf8_len(s.take(i)) as int;
    assert(is_boundary(s, b));
    let j = char_index(s, b);
    if j < i {
        lemma_prefix_monotonic(s, j, i);
    } else if i < j {
        lemma_prefix_monotonic(s, i, j);
    }
}

/// The whole text ends at its byte length.
pub proof fn lemma_full_prefix(s: Seq<char>)
    ensures
        s.take(s.len() as int) =~= s,
        is_boundary(s, utf8_len(s) as int),
        char_index(s, utf8_len(s) as int) == s.len(),
{
    assert(s.take(s.len() as int) =~= s);
    lemma_char_index(s, s.len() as int);
}

/// A prefix of `s` is its first character followed by a prefix of the rest.
proof fn lemma_take_first(s: Seq<char>, i: int)
    requires
        0 < i <= s.len(),
    ensures
        utf8_len(s.take(i)) == utf8_width(s[0]) + utf8_len(s.drop_first().take(i - 1)),
        utf16_len(s.take(i)) == utf16_width(s[0]) + utf16_len(s.drop_first().take(i - 1)),
{
    assert(s.take(i).drop_first() =~= s.drop_first().take(i - 1));
    assert(s.take(i)[0] == s[0]);
}

/// At a character boundary, the UTF-16 offset of a byte offset counts the
/// code units of the characters before it.
pub proof fn lemma_utf16_of_boundary(s: Seq<char>, i: int)
    requires
        0 <= i <= s.len(),
    ensures
        utf16_offset_of_byte(s, utf8_len(s.take(i)) as int) == utf16_len(s.take(i)),
    decreases s.len(),
{
    if i == 0 {
        assert(s.take(0) =~= Seq::<char>::empty());
    } else {
        lemma_take_first(s, i);
        lemma_width_bounds(s[0]);
        lemma_utf16_of_boundary(s.drop_first(), i - 1);
    }
}

/// At a character boundary, the byte offset of a UTF-16 offset counts the
/// bytes of the characters before it.
pub proof fn lemma_utf8_of_boundary(s: Seq<char>, i: int)
    requires
        0 <= i <= s.len(),
    ensures
        byte_offset_of_utf16(s, utf16_len(s.take(i)) as int) == utf8_len(s.take(i)),
    decreases s.len(),
{
    if i == 0 {
        assert(s.take(0) =~= Seq::<char>::empty());
    } else {
        lemma_take_first(s, i);
        lemma_width_bounds(s[0]);
        lemma_utf8_of_boundary(s.drop_first(), i - 1);
    }
}

/// Every byte offset that a UTF-16 offset converts to is a character
/// boundary: the end of the characters that the walk passed.
pub proof fn lemma_utf16_lands_on_boundary(s: Seq<char>, offset: int)
    ensures
        chars_within_utf16(s, offset) <= s.len(),
        byte_offset_of_utf16(s, offset) == utf8_len(s.take(chars_within_utf16(s, offset) as int)),
        is_boundary(s, byte_offset_of_utf16(s, offset) as int),
    decreases s.len(),
{
    if s.len() == 0 || offset <= 0 {
        assert(s.take(0) =~= Seq::<char>::empty());
    } else {
        lemma_utf16_lands_on_boundary(s.drop_first(), offset - utf16_width(s[0]));
        lemma_take_first(s, chars_within_utf16(s, offset) as int);
        assert(s.drop_first().take(chars_within_utf16(s, offset) - 1) =~= s.drop_first().take(
            chars_within_utf16(s.drop_first(), offset - utf16_width(s[0])) as int,
        ));
    }
    let k = chars_within_utf16(s, offset) as int;
    assert(utf8_len(s.take(k)) == byte_offset_of_utf16(s, offset));
}

/// Converting a byte offset at a character boundary to UTF-16 and back
/// gives the same byte offset.
pub proof fn lemma_utf16_round_trip(s: Seq<char>, b: int)
    requires
        is_boundary(s, b),
    ensures
        byte_offset_of_utf16(s, utf16_offset_of_byte(s, b) as int) == b,
{
    let i = char_index(s, b);
    lemma_utf16_of_boundary(s, i);
    lemma_utf8_of_boundary(s, i);
}

/// Splicing in a text and then splicing the replaced part back over it
/// restores the original: a replacement is undone by its inverse.
pub proof fn lemma_splice_inverse(s: Seq<char>, i: int, j: int, t: Seq<char>)
    requires
        0 <= i <= j <= s.len(),
    ensures
        ({
            let start = utf8_len(s.take(i)) as int;
            let end = utf8_len(s.take(j)) as int;
            let spliced = splice(s, start, end, t);
            &&& is_boundary(spliced, start)
            &&& is_boundary(spliced, start + utf8_len(t))
            &&& splice(spliced, start, start + utf8_len(t), s.subrange(i, j)) == s
        }),
{
    let start = utf8_len(s.take(i)) as int;
    let end = utf8_len(s.take(j)) as int;
    lemma_char_index(s, i);
    lemma_char_index(s, j);
    let spliced = splice(s, start, end, t);
    assert(spliced =~= s.take(i) + t + s.skip(j));
    assert(spliced.take(i) =~= s.take(i));
    lemma_char_index(spliced, i);
    let k = i + t.len();
    assert(spliced.take(k) =~= s.take(i) + t);
    lemma_utf8_len_concat(s.take(i), t);
    lemma_char_index(spliced, k);
    assert(spliced.skip(k) =~= s.skip(j));
    assert(s.take(i) + s.subrange(i, j) + s.skip(j) =~= s);
}

/// The byte length of a spliced text: the part before, the inserted text
/// and the part after.
pub proof fn lemma_splice_len(s: Seq<char>, start: int, end: int, t: Seq<char>)
    requires
        is_boundary(s, start),
        is_boundary(s, end),
    ensures
        utf8_len(splice(s, start, end, t)) == start + utf8_len(t) + (utf8_len(s) - end),
        end <= utf8_len(s),
{
    let i = char_index(s, start);
    let j = char_index(s, end);
    lemma_utf8_len_concat(s.take(i) + t, s.skip(j));
    lemma_utf8_len_concat(s.take(i), t);
    assert(s.take(j) + s.skip(j) =~= s);
    lemma_utf8_len_concat(s.take(j), s.skip(j));
}

/// A text takes no more UTF-16 code units than bytes.
pub proof fn lemma_utf16_within_utf8(s: Seq<char>)
    ensures
        utf16_len(s) <= utf8_len(s),
    decreases s.len(),
{
    if s.len() > 0 {
        lemma_width_bounds(s[0]);
        lemma_utf16_within_utf8(s.drop_first());
    }
}

/// At a character boundary `b`, the UTF-16 offset is at most `b`, and
/// converting it back gives `b`.
pub proof fn lemma_boundary_utf16(s: Seq<char>, b: int)
    requires
        is_boundary(s, b),
    ensures
        utf16_offset_of_byte(s, b) <= b,
        byte_offset_of_utf16(s, utf16_offset_of_byte(s, b) as int) == b,
{
    let i = char_index(s, b);
    lemma_utf16_of_boundary(s, i);
    lemma_utf8_of_boundary(s, i);
    lemma_utf16_within_utf8(s.take(i));
}

/// The characters between two boundaries take as many bytes as lie
/// between them.
pub proof fn lemma_subrange_len(s: Seq<char>, a: int, b: int)
    requires
        is_boundary(s, a),
        is_boundary(s, b),
        a <= b,
    ensures
        char_index(s, a) <= char_index(s, b),
        utf8_len(s.subrange(char_index(s, a), char_index(s, b))) == b - a,
{
    let i = char_index(s, a);
    let j = char_index(s, b);
    if j < i {
        lemma_prefix_monotonic(s, j, i);
    }
    assert(s.take(j) =~= s.take(i) + s.subrange(i, j));
    lemma_utf8_len_concat(s.take(i), s.subrange(i, j));
}

/// A non-empty text takes at least one byte.
pub proof fn lemma_nonempty_len(s: Seq<char>)
    requires
        s.len() > 0,
    ensures
        utf8_len(s) > 0,
{
    lemma_width_bounds(s[0]);
}

/// The UTF-16 offset that a byte offset converts to counts the code units
/// of some prefix of the text.
pub proof fn lemma_byte_walk_lands(s: Seq<char>, o: int) -> (m: int)
    ensures
        0 <= m <= s.len(),
        utf16_offset_of_byte(s, o) == utf16_len(s.take(m)),
    decreases s.len(),
{
    if s.len() == 0 || o <= 0 {
        assert(s.take(0) =~= Seq::<char>::empty());
        0
    } else {
        let m1 = lemma_byte_walk_lands(s.drop_first(), o - utf8_width(s[0]));
        lemma_take_first(s, m1 + 1);
        assert(s.drop_first().take(m1) =~= s.drop_first().take(m1 + 1 - 1));
        m1 + 1
    }
}

/// A UTF-16 offset at or past the end of the text converts to the text's
/// byte length.
pub proof fn lemma_utf16_walk_past_end(s: Seq<char>, x: int)
    requires
        x >= utf16_len(s),
    ensures
        byte_offset_of_utf16(s, x) == utf8_len(s),
    decreases s.len(),
{
    if s.len() > 0 {
        lemma_width_bounds(s[0]);
        lemma_utf16_walk_past_end(s.drop_first(), x - utf16_width(s[0]));
    }
}

/// A character boundary lies within the text.
pub proof fn lemma_boundary_within(s: Seq<char>, b: int)
    requires
        is_boundary(s, b),
    ensures
        0 <= b <= utf8_len(s),
{
    let i = char_index(s, b);
    if i < s.len() {
        lemma_prefix_monotonic(s, i, s.len() as int);
    }
    assert(s.take(s.len() as int) =~= s);
}

/// A longer byte offset walks at least as far in UTF-16.
pub proof fn lemma_byte_walk_monotonic(s: Seq<char>, a: int, b: int)
    requires
        a <= b,
    ensures
        utf16_offset_of_byte(s, a) <= utf16_offset_of_byte(s, b),
    decreases s.len(),
{
    if s.len() > 0 && a > 0 {
        lemma_byte_walk_monotonic(s.drop_first(), a - utf8_width(s[0]), b - utf8_width(s[0]));
    }
}

/// The UTF-8 encoding of a text is as long as its byte length.
pub proof fn lemma_encoded_len(s: Seq<char>)
    ensures
        vstd::utf8::encode_utf8(s).len() == utf8_len(s),
    decreases s.len(),
{
    if s.len() > 0 {
        vstd::utf8::char_is_scalar(s[0]);
        lemma_encoded_len(s.drop_first());
    }
}

/// The byte length of `text`.
pub fn byte_len(text: &str) -> (n: usize)
    ensures
        n == utf8_len(text@),
{
    proof {
        lemma_encoded_len(text@);
    }
    text.as_bytes().len()
}

/// Bytes that `c` takes in UTF-8.
pub fn char_len_utf8(c: char) -> (n: usize)
    ensures
        n == utf8_width(c),
{
    let u = c as u32;
    if u < 0x80 {
        1
    } else if u < 0x800 {
        2
    } else if u < 0x10000 {
        3
    } else {
        4
    }
}

/// Code units that `c` takes in UTF-16.
pub fn char_len_utf16(c: char) -> (n: usize)
    ensures
        n == utf16_width(c),
{
    if (c as u32) < 0x10000 {
        1
    } else {
        2
    }
}

/// Walking from `i`, the conversion reaches the same end as from the start.
proof fn lemma_skip_step(s: Seq<char>, i: int)
    requires
        0 <= i < s.len(),
    ensures
        s.skip(i).drop_first() =~= s.skip(i + 1),
        s.skip(i)[0] == s[i],
{
}

/// The characters of `text`.
pub fn chars_of(text: &str) -> (v: Vec<char>)
    ensures
        v@ == text@,
{
    let ghost s = text@;
    let mut v: Vec<char> = Vec::new();
    for ch in it: text.chars()
        invariant
            it.seq() == s,
            v@ == s.take(it.index() as int),
    {
        proof {
            assert(s.take(it.index() as int + 1) =~= v@.push(ch));
        }
        v.push(ch);
    }
    proof {
        assert(s.take(s.len() as int) =~= s);
    }
    v
}

/// The index of the character that begins at byte offset `b`.
pub fn char_index_of_byte(chars: &Vec<char>, b: usize) -> (r: usize)
    requires
        is_boundary(chars@, b as int),
    ensures
        r == char_index(chars@, b as int),
        r <= chars@.len(),
        utf8_len(chars@.take(r as int)) == b,
{
    let ghost s = chars@;
    let ghost target = char_index(s, b as int);
    proof {
        lemma_char_index(s, target);
        assert(s.take(0) =~= Seq::<char>::empty());
    }
    let mut count: usize = 0;
    let mut j: usize = 0;
    while count < b
        invariant
            s == chars@,
            0 <= target <= s.len(),
            s.len() == chars.len(),
            utf8_len(s.take(target)) == b,
            char_index(s, b as int) == target,
            j <= target,
            count == utf8_len(s.take(j as int)),
        decreases target - j,
    {
        proof {
            if j == target {
                assert(false);
            }
            lemma_prefix_step(s, j as int);
            if j + 1 < target {
                lemma_prefix_monotonic(s, j + 1, target);
            }
        }
        count += char_len_utf8(chars[j]);
        j += 1;
    }
    proof {
        if j < target {
            lemma_prefix_monotonic(s, j as int, target);
        }
    }
    j
}

/// Appends the characters `v[from..to]` to `out`.
fn push_chars(out: &mut String, v: &Vec<char>, from: usize, to: usize)
    requires
        from <= to <= v@.len(),
    ensures
        final(out)@ == old(out)@ + v@.subrange(from as int, to as int),
{
    let mut k = from;
    while k < to
        invariant
            from <= k <= to <= v@.len(),
            out@ == old(out)@ + v@.subrange(from as int, k as int),
        decreases to - k,
    {
        out.push(v[k]);
        assert(v@.subrange(from as int, k + 1) =~= v@.subrange(from as int, k as int).push(v@[k as int]));
        k += 1;
    }
}

/// The text between byte offsets `start` and `end`.
pub fn substring(text: &str, start: usize, end: usize) -> (r: String)
    requires
        is_boundary(text@, start as int),
        is_boundary(text@, end as int),
        start <= end,
    ensures
        r@ == text@.subrange(char_index(text@, start as int), char_index(text@, end as int)),
{
    let chars = chars_of(text);
    let i = char_index_of_byte(&chars, start);
    let j = char_index_of_byte(&chars, end);
    proof {
        if j < i {
            lemma_prefix_monotonic(chars@, j as int, i as int);
        }
    }
    let mut out = String::new();
    push_chars(&mut out, &chars, i, j);
    assert(out@ =~= text@.subrange(i as int, j as int));
    out
}

/// `text` with the bytes from `start` to `end` replaced by `new_text`.
pub fn splice_text(text: &str, start: usize, end: usize, new_text: &str) -> (r: String)
    requires
        is_boundary(text@, start as int),
        is_boundary(text@, end as int),
    ensures
        r@ == splice(text@, start as int, end as int, new_text@),
{
    let chars = chars_of(text);
    let inserted = chars_of(new_text);
    let i = char_index_of_byte(&chars, start);
    let j = char_index_of_byte(&chars, end);
    let mut out = String::new();
    push_chars(&mut out, &chars, 0, i);
    push_chars(&mut out, &inserted, 0, inserted.len());
    push_chars(&mut out, &chars, j, chars.len());
    assert(out@ =~= text@.take(i as int) + new_text@ + text@.skip(j as int));
    out
}

/// Converts a UTF-16 offset into `text` to a byte offset.
pub fn offset_from_utf16(text: &str, offset: usize) -> (r: usize)
    ensures
        r == byte_offset_of_utf16(text@, offset as int),
{
    let chars = chars_of(text);
    let n = byte_len(text);
    let ghost s = text@;
    let mut utf8_offset: usize = 0;
    let mut utf16_count: usize = 0;
    let mut j: usize = 0;
    proof {
        assert(s.skip(0) =~= s);
        assert(s.take(0) =~= Seq::<char>::empty());
    }
    while j < chars.len()
        invariant
            s == text@,
            chars@ == s,
            n == utf8_len(s),
            j <= s.len(),
            utf8_offset == utf8_len(s.take(j as int)),
            utf16_count == utf16_len(s.take(j as int)),
            utf16_len(s.take(j as int)) <= utf8_len(s.take(j as int)),
            byte_offset_of_utf16(s, offset as int) == utf8_offset + byte_offset_of_utf16(
                s.skip(j as int),
                offset - utf16_count,
            ),
        decreases s.len() - j,
    {
        if utf16_count >= offset {
            assert(byte_offset_of_utf16(s.skip(j as int), offset - utf16_count) == 0);
            return utf8_offset;
        }
        let ch = chars[j];
        proof {
            lemma_prefix_step(s, j as int);
            lemma_skip_step(s, j as int);
            lemma_width_bounds(ch);
            if j + 1 < s.len() {
                lemma_prefix_monotonic(s, j + 1, s.len() as int);
            }
            assert(s.take(s.len() as int) =~= s);
        }
        utf16_count += char_len_utf16(ch);
        utf8_offset += char_len_utf8(ch);
        j += 1;
    }
    proof {
        assert(s.skip(j as int).len() == 0);
    }
    utf8_offset
}

/// Converts a byte offset into `text` to a UTF-16 offset.
pub fn offset_to_utf16(text: &str, offset: usize) -> (r: usize)
    ensures
        r == utf16_offset_of_byte(text@, offset as int),
        utf8_len(text@) <= usize::MAX,
{
    let chars = chars_of(text);
    let n = byte_len(text);
    let ghost s = text@;
    let mut utf16_offset: usize = 0;
    let mut utf8_count: usize = 0;
    let mut j: usize = 0;
    proof {
        assert(s.skip(0) =~= s);
        assert(s.take(0) =~= Seq::<char>::empty());
    }
    while j < chars.len()
        invariant
            s == text@,
            chars@ == s,
            n == utf8_len(s),
            j <= s.len(),
            utf8_count == utf8_len(s.take(j as int)),
            utf16_offset == utf16_len(s.take(j as int)),
            utf16_len(s.take(j as int)) <= utf8_len(s.take(j as int)),
            utf16_offset_of_byte(s, offset as int) == utf16_offset + utf16_offset_of_byte(
                s.skip(j as int),
                offset - utf8_count,
            ),
        decreases s.len() - j,
    {
        if utf8_count >= offset {
            assert(utf16_offset_of_byte(s.skip(j as int), offset - utf8_count) == 0);
            return utf16_offset;
        }
        let ch = chars[j];
        proof {
            lemma_prefix_step(s, j as int);
            lemma_skip_step(s, j as int);
            lemma_width_bounds(ch);
            if j + 1 < s.len() {
                lemma_prefix_monotonic(s, j + 1, s.len() as int);
            }
            assert(s.take(s.len() as int) =~= s);
        }
        utf8_count += char_len_utf8(ch);
        utf16_offset += char_len_utf16(ch);
        j += 1;
    }
    proof {
        assert(s.skip(j as int).len() == 0);
    }
    utf16_offset
}

/// The length of `text` in UTF-16 code units.
pub fn utf16_length(text: &str) -> (r: usize)
    ensures
        r == utf16_len(text@),
        r <= utf8_len(text@),
        utf8_len(text@) <= usize::MAX,
{
    let n = byte_len(text);
    proof {
        lemma_full_prefix(text@);
        lemma_utf16_of_boundary(text@, text@.len() as int);
        lemma_utf16_within_utf8(text@);
    }
    offset_to_utf16(text, n)
}

/// The whole text, taken as a UTF-16 range, covers all its bytes.
pub proof fn lemma_whole_utf16(s: Seq<char>)
    ensures
        byte_offset_of_utf16(s, 0) == 0,
        byte_offset_of_utf16(s, utf16_len(s) as int) == utf8_len(s),
        splice(s, 0, utf8_len(s) as int, Seq::empty()) =~= Seq::<char>::empty(),
        forall|t: Seq<char>| splice(s, 0, utf8_len(s) as int, t) == t,
{
    lemma_full_prefix(s);
    lemma_utf8_of_boundary(s, s.len() as int);
    lemma_char_index(s, 0);
    assert(s.take(0) =~= Seq::<char>::empty());
    assert forall|t: Seq<char>| splice(s, 0, utf8_len(s) as int, t) == t by {
        assert(s.take(0) + t + s.skip(s.len() as int) =~= t);
    }
    assert(s.take(0) + Seq::<char>::empty() + s.skip(s.len() as int) =~= Seq::<char>::empty());
}

/// The byte length of the first `i` characters.
pub fn utf8_len_of_prefix(chars: &Vec<char>, i: usize) -> (n: usize)
    requires
        i <= chars@.len(),
        utf8_len(chars@) <= usize::MAX,
    ensures
        n == utf8_len(chars@.take(i as int)),
{
    let ghost s = chars@;
    let mut n: usize = 0;
    let mut j: usize = 0;
    assert(s.take(0) =~= Seq::<char>::empty());
    while j < i
        invariant
            s == chars@,
            j <= i <= s.len(),
            utf8_len(s) <= usize::MAX,
            n == utf8_len(s.take(j as int)),
        decreases i - j,
    {
        proof {
            lemma_prefix_step(s, j as int);
            if j + 1 < s.len() {
                lemma_prefix_monotonic(s, j + 1, s.len() as int);
            }
            assert(s.take(s.len() as int) =~= s);
        }
        n += char_len_utf8(chars[j]);
        j += 1;
    }
    n
}

/// Appends `s` to `out`.
pub fn append(out: &mut String, s: &str)
    ensures
        final(out)@ == old(out)@ + s@,
{
    let v = chars_of(s);
    push_chars(out, &v, 0, v.len());
    assert(v@.subrange(0, v@.len() as int) =~= s@);
}

/// `String::push` appends one character.
pub assume_specification[ String::push ](s: &mut String, ch: char)
    ensures
        final(s)@ == old(s)@.push(ch),
;

} // verus!