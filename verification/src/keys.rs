//! Labels for keyboard shortcuts, as menus show them.

use crate::utf::{append, byte_len, chars_of, substring, utf8_len, utf8_width};
use vstd::prelude::*;

verus! {

/// A key pressed together with modifier keys.
pub struct Keystroke {
    pub control: bool,
    pub alt: bool,
    pub platform: bool,
    pub shift: bool,
    /// The name of the key, such as `a` or `backspace`.
    pub key: String,
}

/// The upper case of a character, as `char::to_uppercase` gives it (one or
/// more characters, from the Unicode tables).
pub uninterp spec fn upper_case(c: char) -> Seq<char>;

/// Calls `char::to_uppercase` and collects the characters. Its documentation
/// maps ASCII lower-case letters to their upper case, and leaves a character
/// without an upper-case mapping as it is, as every other ASCII character is.
#[verifier::external_body]
fn to_uppercase(c: char) -> (r: String)
    ensures
        r@ == upper_case(c),
        ('a' <= c <= 'z') ==> r@ == seq![((c as u32) - 32) as char],
        ((c as u32) < 128 && !('a' <= c <= 'z')) ==> r@ == seq![c],
{
    c.to_uppercase().collect()
}

/// The key's name with its first character in upper case.
pub open spec fn capitalized(key: Seq<char>) -> Seq<char> {
    if key.len() == 0 {
        key
    } else {
        upper_case(key[0]) + key.drop_first()
    }
}

proof fn lemma_capitalized_ascii(s: Seq<char>)
    requires
        s.len() > 0,
        'a' <= s[0] <= 'z' ==> upper_case(s[0]) == seq![((s[0] as u32) - 32) as char],
        (s[0] as u32) < 128 && !('a' <= s[0] <= 'z') ==> upper_case(s[0]) == seq![s[0]],
    ensures
        'a' <= s[0] <= 'z' ==> capitalized(s) == seq![((s[0] as u32) - 32) as char] + s.drop_first(),
        (s[0] as u32) < 128 && !('a' <= s[0] <= 'z') ==> capitalized(s) == s,
{
    assert(seq![s[0]] + s.drop_first() =~= s);
}

/// `part` followed by `+`, where `on`.
pub open spec fn modifier_part(on: bool, part: Seq<char>) -> Seq<char> {
    if on {
        part + seq!['+']
    } else {
        Seq::empty()
    }
}

/// The label of a keystroke: the held modifiers in the order Ctrl, Alt,
/// Win, Shift, then the capitalized key, joined by `+`.
pub open spec fn shortcut_label(k: Keystroke) -> Seq<char> {
    modifier_part(k.control, seq!['C', 't', 'r', 'l']) + modifier_part(k.alt, seq!['A', 'l', 't'])
        + modifier_part(k.platform, seq!['W', 'i', 'n']) + modifier_part(k.shift, seq!['S', 'h', 'i', 'f', 't'])
        + capitalized(k.key@)
}

/// The label of a keystroke, such as `Ctrl+Shift+Backspace`, as shown on
/// platforms other than macOS.
pub fn key_shortcut(key: Keystroke) -> (r: String)
    requires
        key.key@.len() > 0 ==> utf8_width(key.key@[0]) == 1,
    ensures
        r@ == shortcut_label(key),
        key.key@.len() > 0 && 'a' <= key.key@[0] <= 'z' ==> capitalized(key.key@) == seq![
            ((key.key@[0] as u32) - 32) as char,
        ] + key.key@.drop_first(),
        key.key@.len() > 0 && (key.key@[0] as u32) < 128 && !('a' <= key.key@[0] <= 'z') ==> capitalized(key.key@)
            == key.key@,
{
    let mut out = String::new();
    proof {
        reveal_strlit("Ctrl+");
        reveal_strlit("Alt+");
        reveal_strlit("Win+");
        reveal_strlit("Shift+");
    }
    if key.control {
        append(&mut out, "Ctrl+");
    }
    assert(out@ =~= modifier_part(key.control, seq!['C', 't', 'r', 'l']));
    let ghost a = out@;
    if key.alt {
        append(&mut out, "Alt+");
    }
    assert(out@ =~= a + modifier_part(key.alt, seq!['A', 'l', 't']));
    let ghost b = out@;
    if key.platform {
        append(&mut out, "Win+");
    }
    assert(out@ =~= b + modifier_part(key.platform, seq!['W', 'i', 'n']));
    let ghost c = out@;
    if key.shift {
        append(&mut out, "Shift+");
    }
    assert(out@ =~= c + modifier_part(key.shift, seq!['S', 'h', 'i', 'f', 't']));
    let ghost d = out@;
    let chars = chars_of(key.key.as_str());
    if chars.len() > 0 {
        let first = to_uppercase(chars[0]);
        append(&mut out, first.as_str());
        let n = byte_len(key.key.as_str());
        proof {
            let s = key.key@;
            crate::utf::lemma_prefix_step(s, 0);
            assert(s.take(0) =~= Seq::<char>::empty());
            crate::utf::lemma_char_index(s, 1);
            crate::utf::lemma_full_prefix(s);
            crate::utf::lemma_boundary_within(s, 1);
        }
        let rest = substring(key.key.as_str(), 1, n);
        append(&mut out, rest.as_str());
        proof {
            let s = key.key@;
            assert(s.subrange(1, s.len() as int) =~= s.drop_first());
            lemma_capitalized_ascii(s);
        }
    } else {
        append(&mut out, key.key.as_str());
    }
    out
}

} // verus!
