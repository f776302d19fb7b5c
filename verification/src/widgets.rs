//! Small components: labels and the text they show, scrollbar axes, a
//! one-time-password input, and component previews.

use crate::input::{InputView, TextInput, TextValidator};
use crate::utf::chars_of;
use vstd::prelude::*;

verus! {

/// How a label aligns its text.
#[derive(Debug, Clone, Copy, PartialEq, Eq, Structural)]
pub enum TextAlign {
    Left,
    Center,
    Right,
}

impl TextAlign {
    /// Left alignment is the default.
    pub fn default_align() -> (r: TextAlign)
        ensures
            r == TextAlign::Left,
    {
        TextAlign::Left
    }
}

/// The character that stands for a line break in a single-line label.
pub const LINE_BREAK_SYMBOL: char = '␤';

/// The character that stands for each character of a masked label.
pub const MASK_CHAR: char = '•';

/// The text a label shows: line breaks drawn as `␤` where the label keeps
/// to one line, and every character drawn as `•` where it is masked.
pub open spec fn label_display(text: Seq<char>, multiple_lines: bool, masked: bool) -> Seq<char> {
    let shown = if multiple_lines {
        text
    } else {
        text.map_values(|c: char| if c == '\n' { LINE_BREAK_SYMBOL } else { c })
    };
    if masked {
        Seq::new(shown.len(), |i: int| MASK_CHAR)
    } else {
        shown
    }
}

/// A line of text.
pub struct Label {
    pub label: String,
    pub multiple_lines: bool,
    pub align: TextAlign,
    pub masked: bool,
}

impl Label {
    /// A left-aligned, unmasked label that may span several lines.
    pub fn new(label: String) -> (r: Self)
        ensures
            r.label == label,
            r.multiple_lines,
            r.align == TextAlign::Left,
            !r.masked,
    {
        Label { label, multiple_lines: true, align: TextAlign::default_align(), masked: false }
    }

    pub fn multiple_lines(self) -> (r: Self)
        ensures
            r == (Label { multiple_lines: true, ..self }),
    {
        Label { multiple_lines: true, ..self }
    }

    pub fn text_align(self, align: TextAlign) -> (r: Self)
        ensures
            r == (Label { align, ..self }),
    {
        Label { align, ..self }
    }

    pub fn text_left(self) -> (r: Self)
        ensures
            r == (Label { align: TextAlign::Left, ..self }),
    {
        Label { align: TextAlign::Left, ..self }
    }

    pub fn text_center(self) -> (r: Self)
        ensures
            r == (Label { align: TextAlign::Center, ..self }),
    {
        Label { align: TextAlign::Center, ..self }
    }

    pub fn text_right(self) -> (r: Self)
        ensures
            r == (Label { align: TextAlign::Right, ..self }),
    {
        Label { align: TextAlign::Right, ..self }
    }

    pub fn masked(self, masked: bool) -> (r: Self)
        ensures
            r == (Label { masked, ..self }),
    {
        Label { masked, ..self }
    }

    /// The text the label shows.
    pub fn display_text(&self) -> (r: String)
        ensures
            r@ == label_display(self.label@, self.multiple_lines, self.masked),
    {
        let chars = chars_of(self.label.as_str());
        let ghost s = self.label@;
        let mut out = String::new();
        let mut i: usize = 0;
        while i < chars.len()
            invariant
                chars@ == s,
                s == self.label@,
                i <= s.len(),
                out@ == label_display(s.take(i as int), self.multiple_lines, self.masked),
            decreases s.len() - i,
        {
            let c = chars[i];
            let shown = if !self.multiple_lines && c == '\n' {
                LINE_BREAK_SYMBOL
            } else {
                c
            };
            if self.masked {
                out.push(MASK_CHAR);
            } else {
                out.push(shown);
            }
            assert(label_display(s.take(i + 1), self.multiple_lines, self.masked) =~= label_display(
                s.take(i as int),
                self.multiple_lines,
                self.masked,
            ).push(if self.masked { MASK_CHAR } else { shown }));
            i += 1;
        }
        assert(s.take(s.len() as int) =~= s);
        out
    }
}

/// Which scrollbars a view shows.
#[derive(Debug, Clone, Copy, PartialEq, Eq, Structural)]
pub enum ScrollbarAxis {
    Vertical,
    Horizontal,
    Both,
}

impl ScrollbarAxis {
    pub fn is_vertical(&self) -> (r: bool)
        ensures
            r == (*self == ScrollbarAxis::Vertical),
    {
        matches!(self, ScrollbarAxis::Vertical)
    }

    pub fn is_both(&self) -> (r: bool)
        ensures
            r == (*self == ScrollbarAxis::Both),
    {
        matches!(self, ScrollbarAxis::Both)
    }

    pub fn has_vertical(&self) -> (r: bool)
        ensures
            r == (*self == ScrollbarAxis::Vertical || *self == ScrollbarAxis::Both),
    {
        matches!(self, ScrollbarAxis::Vertical | ScrollbarAxis::Both)
    }

    pub fn has_horizontal(&self) -> (r: bool)
        ensures
            r == (*self == ScrollbarAxis::Horizontal || *self == ScrollbarAxis::Both),
    {
        matches!(self, ScrollbarAxis::Horizontal | ScrollbarAxis::Both)
    }

    /// The single axes shown, vertical first.
    pub fn all(&self) -> (r: Vec<ScrollbarAxis>)
        ensures
            r@ == match *self {
                ScrollbarAxis::Vertical => seq![ScrollbarAxis::Vertical],
                ScrollbarAxis::Horizontal => seq![ScrollbarAxis::Horizontal],
                ScrollbarAxis::Both => seq![ScrollbarAxis::Vertical, ScrollbarAxis::Horizontal],
            },
    {
        let r = match self {
            ScrollbarAxis::Vertical => vec![ScrollbarAxis::Vertical],
            ScrollbarAxis::Horizontal => vec![ScrollbarAxis::Horizontal],
            ScrollbarAxis::Both => vec![ScrollbarAxis::Vertical, ScrollbarAxis::Horizontal],
        };
        assert(r@ =~= match *self {
            ScrollbarAxis::Vertical => seq![ScrollbarAxis::Vertical],
            ScrollbarAxis::Horizontal => seq![ScrollbarAxis::Horizontal],
            ScrollbarAxis::Both => seq![ScrollbarAxis::Vertical, ScrollbarAxis::Horizontal],
        });
        r
    }
}

/// Has a disabled state that a builder can set.
pub trait Disableable {
    fn disabled(self, disabled: bool) -> Self;
}

impl<V: TextValidator> Disableable for TextInput<V> {
    fn disabled(self, disabled: bool) -> (r: Self)
        ensures
            r@ == (InputView { disabled, ..self@ }),
    {
        let mut s = self;
        s.set_disabled(disabled);
        s
    }
}

/// The state of a button that decides whether it reacts to a click.
#[derive(Debug, Clone, Copy, PartialEq, Eq, Structural)]
pub struct Button {
    pub disabled: bool,
    pub loading: bool,
    pub selected: bool,
}

impl Button {
    /// An enabled, idle, unselected button.
    pub fn new() -> (r: Self)
        ensures
            r == (Button { disabled: false, loading: false, selected: false }),
    {
        Button { disabled: false, loading: false, selected: false }
    }

    /// Shows a busy indicator, during which clicks are ignored.
    pub fn loading(self, loading: bool) -> (r: Self)
        ensures
            r == (Button { loading, ..self }),
    {
        Button { loading, ..self }
    }

    pub fn selected(self, selected: bool) -> (r: Self)
        ensures
            r == (Button { selected, ..self }),
    {
        Button { selected, ..self }
    }

    /// Whether a click reaches the button's handler: only while it is
    /// enabled and not loading.
    pub fn clickable(&self) -> (r: bool)
        ensures
            r == (!self.disabled && !self.loading),
    {
        !self.disabled && !self.loading
    }
}

impl Disableable for Button {
    fn disabled(self, disabled: bool) -> (r: Self)
        ensures
            r == (Button { disabled, ..self }),
    {
        Button { disabled, ..self }
    }
}

/// The state of a checkbox.
#[derive(Debug, Clone, Copy, PartialEq, Eq, Structural)]
pub struct Checkbox {
    pub checked: bool,
    pub disabled: bool,
}

impl Checkbox {
    /// An unchecked, enabled checkbox.
    pub fn new() -> (r: Self)
        ensures
            r == (Checkbox { checked: false, disabled: false }),
    {
        Checkbox { checked: false, disabled: false }
    }

    pub fn checked(self, checked: bool) -> (r: Self)
        ensures
            r == (Checkbox { checked, ..self }),
    {
        Checkbox { checked, ..self }
    }

    /// What a click hands to the handler: the opposite of the current
    /// state; nothing while the checkbox is disabled.
    pub fn click(&self) -> (r: Option<bool>)
        ensures
            r == if self.disabled { None } else { Some(!self.checked) },
    {
        if self.disabled {
            None
        } else {
            Some(!self.checked)
        }
    }
}

impl Disableable for Checkbox {
    fn disabled(self, disabled: bool) -> (r: Self)
        ensures
            r == (Checkbox { disabled, ..self }),
    {
        Checkbox { disabled, ..self }
    }
}

/// The state of an accordion item.
#[derive(Debug, Clone, Copy, PartialEq, Eq, Structural)]
pub struct Accordion {
    pub expanded: bool,
}

impl Accordion {
    /// A collapsed item.
    pub fn new() -> (r: Self)
        ensures
            r == (Accordion { expanded: false }),
    {
        Accordion { expanded: false }
    }

    pub fn expanded(self, expanded: bool) -> (r: Self)
        ensures
            r == (Accordion { expanded }),
    {
        Accordion { expanded }
    }

    /// What a click on the title hands to the toggle handler: the opposite
    /// of the current state.
    pub fn toggle_click(&self) -> (r: bool)
        ensures
            r == !self.expanded,
    {
        !self.expanded
    }
}

/// A component shown in the preview gallery.
pub trait Preview: Sized {
    fn name(&self) -> &'static str;

    fn description(&self) -> &'static str;

    fn new() -> Self;
}

/// The components the gallery can preview.
#[derive(Debug, Clone, Copy, PartialEq, Eq, Structural)]
pub enum PreviewStory {
    Button,
}

/// The preview gallery and the component it shows.
pub struct PreviewBox {
    pub active_preview: PreviewStory,
}

impl PreviewBox {
    /// A gallery showing the button.
    pub fn new() -> (r: Self)
        ensures
            r.active_preview == PreviewStory::Button,
    {
        PreviewBox { active_preview: PreviewStory::Button }
    }
}

/// What a key press did to a one-time-password input.
#[derive(Debug, Clone, Copy, PartialEq, Eq, Structural)]
pub enum OtpKey {
    /// The key was not taken.
    Ignored,
    /// The key was taken; `complete` says whether every digit is filled in.
    Handled { complete: bool },
}

/// A one-time-password input: up to `length` digits, shown in groups.
pub struct OtpInput {
    length: usize,
    number_of_groups: usize,
    masked: bool,
    value: String,
}

/// What a one-time-password input holds.
pub ghost struct OtpView {
    pub length: usize,
    pub number_of_groups: usize,
    pub masked: bool,
    pub value: Seq<char>,
}

impl View for OtpInput {
    type V = OtpView;

    closed spec fn view(&self) -> OtpView {
        OtpView {
            length: self.length,
            number_of_groups: self.number_of_groups,
            masked: self.masked,
            value: self.value@,
        }
    }
}

/// The state after pressing `key` with `value` entered: backspace removes
/// the last character; a key starting with a digit appends that digit
/// while there is room; other keys are not taken.
pub open spec fn otp_after_key(v: OtpView, key: Seq<char>) -> (OtpView, OtpKey) {
    if key == seq!['b', 'a', 'c', 'k', 's', 'p', 'a', 'c', 'e'] {
        let value = if v.value.len() > 0 { v.value.drop_last() } else { v.value };
        (OtpView { value, ..v }, OtpKey::Handled { complete: value.len() == v.length })
    } else if '0' <= key[0] <= '9' && v.value.len() < v.length {
        let value = v.value.push(key[0]);
        (OtpView { value, ..v }, OtpKey::Handled { complete: value.len() == v.length })
    } else {
        (v, OtpKey::Ignored)
    }
}

/// The group of each of `length` cells, `count` cells to a group: cell `i`
/// is in group `i / count`.
pub open spec fn cell_groups(length: nat, count: nat) -> Seq<usize> {
    Seq::new(length, |i: int| (i / count as int) as usize)
}

impl OtpInput {
    /// An empty, unmasked input of `length` digits in two groups.
    pub fn new(length: usize) -> (r: Self)
        ensures
            r@ == (OtpView { length, number_of_groups: 2, masked: false, value: Seq::empty() }),
    {
        OtpInput { length, number_of_groups: 2, masked: false, value: String::new() }
    }

    pub fn groups(self, n: usize) -> (r: Self)
        ensures
            r@ == (OtpView { number_of_groups: n, ..self@ }),
    {
        OtpInput { number_of_groups: n, ..self }
    }

    pub fn default_value(self, value: String) -> (r: Self)
        ensures
            r@ == (OtpView { value: value@, ..self@ }),
    {
        OtpInput { value, ..self }
    }

    pub fn set_value(&mut self, value: String)
        ensures
            final(self)@ == (OtpView { value: value@, ..old(self)@ }),
    {
        self.value = value;
    }

    pub fn value(&self) -> (r: String)
        ensures
            r@ == self@.value,
    {
        self.value.clone()
    }

    pub fn masked(self, masked: bool) -> (r: Self)
        ensures
            r@ == (OtpView { masked, ..self@ }),
    {
        OtpInput { masked, ..self }
    }

    pub fn set_masked(&mut self, masked: bool)
        ensures
            final(self)@ == (OtpView { masked, ..old(self)@ }),
    {
        self.masked = masked;
    }

    /// Handles a key press, named as the keyboard names it (`backspace`,
    /// `7`, ...). The caller stops the key from going further where it was
    /// taken, and reports the value where it is complete.
    pub fn on_key_down(&mut self, key: &str) -> (r: OtpKey)
        requires
            key@.len() > 0,
        ensures
            (final(self)@, r) == otp_after_key(old(self)@, key@),
    {
        let mut chars = chars_of(self.value.as_str());
        let key_chars = chars_of(key);
        let is_backspace = key_chars.len() == 9 && key_chars[0] == 'b' && key_chars[1] == 'a' && key_chars[2] == 'c'
            && key_chars[3] == 'k' && key_chars[4] == 's' && key_chars[5] == 'p' && key_chars[6] == 'a'
            && key_chars[7] == 'c' && key_chars[8] == 'e';
        assert(is_backspace == (key@ == seq!['b', 'a', 'c', 'k', 's', 'p', 'a', 'c', 'e'])) by {
            if key@ == seq!['b', 'a', 'c', 'k', 's', 'p', 'a', 'c', 'e'] {
                assert(key_chars@[8] == 'e');
            }
            if is_backspace {
                assert(key_chars@ =~= seq!['b', 'a', 'c', 'k', 's', 'p', 'a', 'c', 'e']);
            }
        }
        if is_backspace {
            if chars.len() > 0 {
                chars.pop();
            }
        } else {
            let c = key_chars[0];
            if !('0' <= c && c <= '9') {
                return OtpKey::Ignored;
            }
            if chars.len() >= self.length {
                return OtpKey::Ignored;
            }
            chars.push(c);
        }
        let mut value = String::new();
        let mut i: usize = 0;
        while i < chars.len()
            invariant
                i <= chars@.len(),
                value@ == chars@.take(i as int),
            decreases chars.len() - i,
        {
            value.push(chars[i]);
            assert(chars@.take(i + 1) =~= chars@.take(i as int).push(chars@[i as int]));
            i += 1;
        }
        assert(chars@.take(chars@.len() as int) =~= chars@);
        let complete = chars.len() == self.length;
        self.value = value;
        OtpKey::Handled { complete }
    }

    /// The group of each cell, as the cells are laid out: `length /
    /// number_of_groups` cells to a group.
    pub fn cell_groups(&self) -> (r: Vec<usize>)
        requires
            self@.number_of_groups > 0,
            self@.length > 0 ==> self@.length / self@.number_of_groups > 0,
            self@.length > 0 ==> ((self@.length - 1) as int / (self@.length / self@.number_of_groups) as int)
                < self@.number_of_groups,
        ensures
            self@.length > 0 ==> r@ == cell_groups(
                self@.length as nat,
                (self@.length / self@.number_of_groups) as nat,
            ),
            self@.length == 0 ==> r@.len() == 0,
    {
        let count = self.length / self.number_of_groups;
        let mut groups: Vec<usize> = Vec::new();
        let mut group_ix: usize = 0;
        let mut in_group: usize = 0;
        let mut i: usize = 0;
        while i < self.length
            invariant
                i <= self.length,
                self.length > 0 ==> count > 0,
                count == self.length / self.number_of_groups,
                groups@.len() == i,
                i > 0 ==> (group_ix * count + in_group == i - 1 && in_group < count),
                i == 0 ==> group_ix == 0 && in_group == 0,
                group_ix <= i,
                forall|k: int| 0 <= k < i ==> #[trigger] groups@[k] == (k / count as int) as usize,
            decreases self.length - i,
        {
            proof {
                if i > 0 {
                    assert((group_ix + 1) * count == group_ix * count + count) by (nonlinear_arith);
                    if in_group + 1 < count {
                        lemma_group_step(i as int, count as int, group_ix as int, in_group + 1);
                    } else {
                        lemma_group_step(i as int, count as int, group_ix + 1, 0);
                    }
                }
            }
            if i % count == 0 && i != 0 {
                group_ix += 1;
                in_group = 0;
            } else if i != 0 {
                in_group += 1;
            }
            proof {
                lemma_group_step(i as int, count as int, group_ix as int, in_group as int);
            }
            groups.push(group_ix);
            i += 1;
        }
        if self.length > 0 {
            assert(groups@ =~= cell_groups(self.length as nat, count as nat));
        }
        groups
    }
}

/// Cell `i` at place `in_group` of group `group` (of `count` cells each)
/// is in group `i / count`.
proof fn lemma_group_step(i: int, count: int, group: int, in_group: int)
    requires
        count > 0,
        0 <= i,
        group * count + in_group == i,
        0 <= in_group < count,
        0 <= group,
    ensures
        i / count == group,
        i % count == in_group,
{
    vstd::arithmetic::div_mod::lemma_fundamental_div_mod_converse(i, count, group, in_group);
}

} // verus!
