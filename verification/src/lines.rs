//! Line breaks in text, located by byte offset.

use crate::utf::{byte_len, char_len_utf8, chars_of, utf8_len, utf8_width};
use vstd::prelude::*;

verus! {

/// The byte offset just after the last line break of `t`, or 0 when `t`
/// holds none.
pub open spec fn after_last_line_break(t: Seq<char>) -> nat
    decreases t.len(),
{
    if t.len() == 0 {
        0
    } else if t.last() == '\n' {
        utf8_len(t)
    } else {
        after_last_line_break(t.drop_last())
    }
}

/// The byte offset of the first line break of `t`, if it holds one.
pub open spec fn first_line_break(t: Seq<char>) -> Option<nat>
    decreases t.len(),
{
    if t.len() == 0 {
        None
    } else if t[0] == '\n' {
        Some(0)
    } else {
        match first_line_break(t.drop_first()) {
            Some(i) => Some(utf8_width(t[0]) + i),
            None => None,
        }
    }
}

/// The first line break lies inside the text.
pub proof fn lemma_first_line_break_within(t: Seq<char>)
    ensures
        first_line_break(t) matches Some(i) ==> i < utf8_len(t),
    decreases t.len(),
{
    if t.len() > 0 && t[0] != '\n' {
        lemma_first_line_break_within(t.drop_first());
    }
}

/// The bytes of a text are those of all but its last character, then those
/// of its last character.
proof fn lemma_drop_last_len(t: Seq<char>)
    requires
        t.len() > 0,
    ensures
        utf8_len(t) == utf8_len(t.drop_last()) + utf8_width(t.last()),
{
    crate::utf::lemma_prefix_step(t, t.len() - 1);
    assert(t.take(t.len() as int) =~= t);
    assert(t.take(t.len() - 1) =~= t.drop_last());
}

/// The byte offset just after the last line break of `text`, or 0.
pub fn after_last_line_break_of(text: &str) -> (r: usize)
    ensures
        r == after_last_line_break(text@),
{
    let chars = chars_of(text);
    let n = byte_len(text);
    let ghost s = text@;
    let mut count: usize = 0;
    let mut found: usize = 0;
    let mut j: usize = 0;
    assert(s.take(0) =~= Seq::<char>::empty());
    while j < chars.len()
        invariant
            chars@ == s,
            n == utf8_len(s),
            j <= s.len(),
            count == utf8_len(s.take(j as int)),
            found == after_last_line_break(s.take(j as int)),
            utf8_len(s.take(j as int)) <= utf8_len(s),
        decreases s.len() - j,
    {
        let ghost next = s.take(j + 1);
        assert(next.drop_last() =~= s.take(j as int));
        proof {
            lemma_drop_last_len(next);
            if j + 1 < s.len() {
                crate::utf::lemma_prefix_monotonic(s, j + 1, s.len() as int);
            }
            assert(s.take(s.len() as int) =~= s);
        }
        count += char_len_utf8(chars[j]);
        if chars[j] == '\n' {
            found = count;
        }
        j += 1;
    }
    assert(s.take(s.len() as int) =~= s);
    found
}

/// The byte offset of the first line break of `text`, if any.
pub fn first_line_break_of(text: &str) -> (r: Option<usize>)
    ensures
        r matches Some(i) ==> first_line_break(text@) == Some(i as nat),
        r is None ==> first_line_break(text@) is None,
{
    let chars = chars_of(text);
    let n = byte_len(text);
    let ghost s = text@;
    let mut count: usize = 0;
    let mut j: usize = 0;
    assert(s.skip(0) =~= s);
    assert(s.take(0) =~= Seq::<char>::empty());
    proof {
        lemma_first_line_break_within(s);
    }
    while j < chars.len()
        invariant
            chars@ == s,
            s == text@,
            n == utf8_len(s),
            j <= s.len(),
            count == utf8_len(s.take(j as int)),
            utf8_len(s.take(j as int)) <= utf8_len(s),
            first_line_break(s) == match first_line_break(s.skip(j as int)) {
                Some(i) => Some((count + i) as nat),
                None => None::<nat>,
            },
        decreases s.len() - j,
    {
        assert(s.skip(j as int).drop_first() =~= s.skip(j + 1));
        assert(s.skip(j as int)[0] == s[j as int]);
        if chars[j] == '\n' {
            assert(first_line_break(s.skip(j as int)) == Some(0nat));
            assert(first_line_break(text@) == Some(count as nat));
            return Some(count);
        }
        proof {
            crate::utf::lemma_prefix_step(s, j as int);
            if j + 1 < s.len() {
                crate::utf::lemma_prefix_monotonic(s, j + 1, s.len() as int);
            }
            assert(s.take(s.len() as int) =~= s);
        }
        count += char_len_utf8(chars[j]);
        j += 1;
    }
    None
}

/// Whether `text` is a single line break.
pub fn is_line_break(text: &str) -> (r: bool)
    ensures
        r == (text@ == seq!['\n']),
{
    let chars = chars_of(text);
    let r = chars.len() == 1 && chars[0] == '\n';
    assert(r ==> chars@ =~= seq!['\n']);
    r
}

/// `t` with its line breaks taken out.
pub open spec fn without_line_breaks(t: Seq<char>) -> Seq<char>
    decreases t.len(),
{
    if t.len() == 0 {
        t
    } else if t.last() == '\n' {
        without_line_breaks(t.drop_last())
    } else {
        without_line_breaks(t.drop_last()).push(t.last())
    }
}

/// Whether a character is not a line break.
pub open spec fn not_line_break() -> spec_fn(char) -> bool {
    |c: char| c != '\n'
}

/// Taking the line breaks out of a text leaves no line break, keeps every
/// other character in order (the text filtered of `\n`), and leaves a text
/// without line breaks as it is.
pub proof fn lemma_without_line_breaks(t: Seq<char>)
    ensures
        !without_line_breaks(t).contains('\n'),
        without_line_breaks(t) == t.filter(not_line_break()),
        !t.contains('\n') ==> without_line_breaks(t) == t,
    decreases t.len(),
{
    if t.len() > 0 {
        let d = t.drop_last();
        lemma_without_line_breaks(d);
        let w = without_line_breaks(t);
        reveal(Seq::filter);
        assert(t.filter(not_line_break()) == if t.last() != '\n' {
            d.filter(not_line_break()).push(t.last())
        } else {
            d.filter(not_line_break())
        });
        if t.last() != '\n' {
            assert(w == without_line_breaks(d).push(t.last()));
            if w.contains('\n') {
                let k = choose|k: int| 0 <= k < w.len() && w[k] == '\n';
                if k < w.len() - 1 {
                    assert(without_line_breaks(d)[k] == '\n');
                }
            }
        }
        if !t.contains('\n') {
            assert forall|k: int| 0 <= k < d.len() implies d[k] != '\n' by {
                assert(d[k] == t[k]);
            }
            assert(t.last() == t[t.len() - 1]);
            assert(d.push(t.last()) =~= t);
        }
    }
}

/// `text` with its line breaks taken out.
pub fn remove_line_breaks(text: &str) -> (r: String)
    ensures
        r@ == without_line_breaks(text@),
{
    let chars = chars_of(text);
    let ghost s = text@;
    let mut out = String::new();
    let mut j: usize = 0;
    assert(s.take(0) =~= Seq::<char>::empty());
    while j < chars.len()
        invariant
            chars@ == s,
            j <= s.len(),
            out@ == without_line_breaks(s.take(j as int)),
        decreases s.len() - j,
    {
        assert(s.take(j + 1).drop_last() =~= s.take(j as int));
        if chars[j] != '\n' {
            out.push(chars[j]);
        }
        j += 1;
    }
    assert(s.take(s.len() as int) =~= s);
    out
}

} // verus!
