//! Editing state of a text input: the text, the selection, the text being
//! composed by an input method, and the undo history.
//!
//! Offsets into the text are byte offsets; the input method speaks in UTF-16
//! offsets, which the functions here convert.

use crate::blink::{BlinkCursor, BlinkView};
use crate::history::{top_group_start, Change, History, HistoryView};
use crate::lines::{
    after_last_line_break, after_last_line_break_of, first_line_break, first_line_break_of, is_line_break,
    remove_line_breaks, without_line_breaks,
};
use crate::pattern::{regex_is_match, Pattern};
use crate::segment::{first_above, grapheme_offsets, grapheme_starts, last_below, next_boundary_in, previous_boundary_in};
use crate::utf::{
    byte_len, byte_offset_of_utf16, char_index, is_boundary, offset_from_utf16, offset_to_utf16,
    splice, splice_text, substring, utf16_len, utf16_length, utf16_offset_of_byte, utf16_width, utf8_len,
    char_len_utf16, chars_of,
};
use std::ops::Range;
use vstd::prelude::*;

verus! {

/// Decides whether a text may stand in an input. Implementations give the
/// answer as a function of the text.
pub trait TextValidator {
    spec fn spec_accepts(&self, text: Seq<char>) -> bool;

    fn accepts(&self, text: &str) -> (r: bool)
        ensures
            r == self.spec_accepts(text@),
    ;
}

/// Accepts every text.
pub struct AcceptAll;

impl TextValidator for AcceptAll {
    open spec fn spec_accepts(&self, text: Seq<char>) -> bool {
        true
    }

    fn accepts(&self, text: &str) -> (r: bool) {
        true
    }
}

/// Whether `char::is_alphanumeric` holds of a character: a property from
/// the Unicode tables.
pub uninterp spec fn char_is_alphanumeric(c: char) -> bool;

/// Calls `char::is_alphanumeric`. Its documentation counts every character
/// that is alphabetic or numeric; of ASCII letters and digits this says
/// they are.
#[verifier::external_body]
fn is_alphanumeric(c: char) -> (r: bool)
    ensures
        r == char_is_alphanumeric(c),
        ('a' <= c <= 'z' || 'A' <= c <= 'Z' || '0' <= c <= '9') ==> r,
{
    c.is_alphanumeric()
}

/// Whether a character belongs to a word: alphanumeric or `_`.
pub open spec fn is_word_char(c: char) -> bool {
    char_is_alphanumeric(c) || c == '_'
}

fn is_word(c: char) -> (r: bool)
    ensures
        r == is_word_char(c),
{
    is_alphanumeric(c) || c == '_'
}

/// The UTF-16 length of the word characters that end `t`.
pub open spec fn word_tail_utf16(t: Seq<char>) -> nat
    decreases t.len(),
{
    if t.len() == 0 || !is_word_char(t.last()) {
        0
    } else {
        utf16_width(t.last()) + word_tail_utf16(t.drop_last())
    }
}

/// The UTF-16 length of the word characters that begin `t`.
pub open spec fn word_head_utf16(t: Seq<char>) -> nat
    decreases t.len(),
{
    if t.len() == 0 || !is_word_char(t[0]) {
        0
    } else {
        utf16_width(t[0]) + word_head_utf16(t.drop_first())
    }
}

/// What an input holds.
pub ghost struct InputView {
    pub text: Seq<char>,
    pub selected_range: Range<usize>,
    pub selection_reversed: bool,
    pub marked_range: Option<Range<usize>>,
    pub selected_word_range: Option<Range<usize>>,
    pub multi_line: bool,
    pub disabled: bool,
    pub is_selecting: bool,
    pub pattern: Option<Seq<char>>,
    pub accepts: spec_fn(Seq<char>) -> bool,
    pub history: HistoryView,
    pub placeholder: Seq<char>,
    pub masked: bool,
    pub appearance: bool,
    pub cleanable: bool,
    pub loading: bool,
    pub rows: usize,
    pub blink: BlinkView,
}

pub open spec fn range(start: usize, end: usize) -> Range<usize> {
    Range { start, end }
}

/// `r` runs between two character boundaries of `s`, forwards.
pub open spec fn valid_range(s: Seq<char>, r: Range<usize>) -> bool {
    &&& is_boundary(s, r.start as int)
    &&& is_boundary(s, r.end as int)
    &&& r.start <= r.end
}

impl InputView {
    /// Where the cursor is: the end of the selection that moves.
    pub open spec fn cursor(self) -> usize {
        if self.selection_reversed {
            self.selected_range.start
        } else {
            self.selected_range.end
        }
    }

    /// Whether a text may become the input's text: the empty text always
    /// may; another must please the validator and match the pattern.
    pub open spec fn valid_input(self, t: Seq<char>) -> bool {
        t.len() == 0 || ((self.accepts)(t) && match self.pattern {
            None => true,
            Some(source) => regex_is_match(source, t),
        })
    }

    /// The byte range that a replacement applies to: the given UTF-16 range,
    /// else the text being composed, else the selection.
    pub open spec fn target_range(self, range_utf16: Option<Range<usize>>) -> Range<usize> {
        match range_utf16 {
            Some(r) => range(
                byte_offset_of_utf16(self.text, r.start as int) as usize,
                byte_offset_of_utf16(self.text, r.end as int) as usize,
            ),
            None => match self.marked_range {
                Some(m) => m,
                None => self.selected_range,
            },
        }
    }

    /// The text after replacing `range_utf16` (see `target_range`) by `t`.
    pub open spec fn pending_text(self, range_utf16: Option<Range<usize>>, t: Seq<char>) -> Seq<char> {
        let r = self.target_range(range_utf16);
        splice(self.text, r.start as int, r.end as int, t)
    }

    /// A replacement goes ahead: the input is enabled and the new text valid.
    pub open spec fn replace_applies(self, range_utf16: Option<Range<usize>>, t: Seq<char>) -> bool {
        !self.disabled && self.valid_input(self.pending_text(range_utf16, t))
    }

    /// The text in a UTF-16 range of `s`.
    pub open spec fn text_in_utf16_range(s: Seq<char>, r: Range<usize>) -> Seq<char> {
        let a = byte_offset_of_utf16(s, r.start as int) as int;
        let b = byte_offset_of_utf16(s, r.end as int) as int;
        s.subrange(char_index(s, a), char_index(s, b))
    }

    /// The UTF-16 range of a byte range of the text.
    pub open spec fn utf16_range(s: Seq<char>, r: Range<usize>) -> Range<usize> {
        range(utf16_offset_of_byte(s, r.start as int) as usize, utf16_offset_of_byte(s, r.end as int) as usize)
    }

    /// A replacement can run without a fault: the range it applies to lies
    /// on character boundaries, and, where the change is recorded, runs
    /// forwards and the version counter has room.
    pub open spec fn replace_can_run(self, range_utf16: Option<Range<usize>>, t: Seq<char>) -> bool {
        let r = self.target_range(range_utf16);
        &&& is_boundary(self.text, r.start as int)
        &&& is_boundary(self.text, r.end as int)
        &&& (self.replace_applies(range_utf16, t) && !self.history.ignore) ==> {
            &&& r.start <= r.end
            &&& self.history.version < usize::MAX
        }
    }

    /// `h` is this input's history after it recorded the replacement of the
    /// byte range `r` by `t`, unless recording was suspended: the change
    /// carries the text that stood in `r` and the range that `t` occupies.
    pub open spec fn records(self, h: HistoryView, r: Range<usize>, t: Seq<char>) -> bool {
        let caret = (r.start + utf8_len(t)) as usize;
        if self.history.ignore {
            h == self.history
        } else {
            exists|new_group: bool|
                self.history.recorded(
                    h,
                    r,
                    Self::text_in_utf16_range(self.text, Self::utf16_range(self.text, r)),
                    range(r.start, caret),
                    t,
                    new_group,
                )
        }
    }

    /// `after` is this input after replacing `range_utf16` by `t` and
    /// marking the new text as being composed: as `replaced`, but the new
    /// text is marked, and the selection is `new_selected` (UTF-16 offsets
    /// into the new text, each shifted by an end of the replaced range)
    /// where given.
    pub open spec fn replaced_and_marked(
        self,
        after: InputView,
        range_utf16: Option<Range<usize>>,
        t: Seq<char>,
        new_selected: Option<Range<usize>>,
    ) -> bool {
        let r = self.target_range(range_utf16);
        let caret = (r.start + utf8_len(t)) as usize;
        let pending = self.pending_text(range_utf16, t);
        let sel = match new_selected {
            Some(n) => range(
                (byte_offset_of_utf16(pending, n.start as int) + r.start) as usize,
                (byte_offset_of_utf16(pending, n.end as int) + r.end) as usize,
            ),
            None => range(caret, caret),
        };
        if !self.replace_applies(range_utf16, t) {
            after == self
        } else {
            &&& after == (InputView {
                text: pending,
                selected_range: sel,
                marked_range: Some(range(r.start, caret)),
                history: after.history,
                ..self
            })
            &&& self.records(after.history, r, t)
        }
    }

    /// A replace-and-mark can run without a fault: as a replacement, and the
    /// shifted selection fits in `usize`.
    pub open spec fn mark_can_run(
        self,
        range_utf16: Option<Range<usize>>,
        t: Seq<char>,
        new_selected: Option<Range<usize>>,
    ) -> bool {
        let r = self.target_range(range_utf16);
        let pending = self.pending_text(range_utf16, t);
        &&& self.replace_can_run(range_utf16, t)
        &&& self.replace_applies(range_utf16, t) ==> match new_selected {
            Some(n) => {
                &&& byte_offset_of_utf16(pending, n.start as int) + r.start <= usize::MAX
                &&& byte_offset_of_utf16(pending, n.end as int) + r.end <= usize::MAX
            },
            None => true,
        }
    }

    /// `after` is this input after replacing `range_utf16` by `t`: where the
    /// replacement applies, the text is spliced, the cursor placed after the
    /// new text, the composition ended and, unless the history is ignored,
    /// the change recorded; otherwise nothing changes.
    pub open spec fn replaced(self, after: InputView, range_utf16: Option<Range<usize>>, t: Seq<char>) -> bool {
        let r = self.target_range(range_utf16);
        let caret = (r.start + utf8_len(t)) as usize;
        if !self.replace_applies(range_utf16, t) {
            after == self
        } else {
            &&& after == (InputView {
                text: self.pending_text(range_utf16, t),
                selected_range: range(caret, caret),
                marked_range: None,
                history: after.history,
                ..self
            })
            &&& self.records(after.history, r, t)
        }
    }
}

impl InputView {
    /// The whole text as a UTF-16 range.
    pub open spec fn whole_utf16(self) -> Range<usize> {
        range(0, utf16_len(self.text) as usize)
    }

    /// What a backspace deletes from: with nothing selected, the selection
    /// first reaches back one cluster.
    pub open spec fn backspace_target(self) -> InputView {
        if self.selection_empty() {
            self.selected_to(self.previous_boundary(self.cursor()))
        } else {
            self
        }
    }

    /// The selection, the word selection and the composed text lie on
    /// character boundaries, and the selection and the composed text run
    /// forwards.
    pub open spec fn ranges_on_boundaries(self) -> bool {
        &&& is_boundary(self.text, self.selected_range.start as int)
        &&& is_boundary(self.text, self.selected_range.end as int)
        &&& self.selected_range.start <= self.selected_range.end
        &&& self.selected_word_range matches Some(w) ==> is_boundary(self.text, w.start as int) && is_boundary(
            self.text,
            w.end as int,
        )
        &&& self.marked_range matches Some(m) ==> is_boundary(self.text, m.start as int) && is_boundary(
            self.text,
            m.end as int,
        ) && m.start <= m.end
    }

    /// Where the change is recorded, the version counter has room.
    pub open spec fn version_room(self) -> bool {
        !self.history.ignore ==> self.history.version < usize::MAX
    }

    /// What a delete deletes from: with nothing selected, the selection
    /// first reaches forward one cluster.
    pub open spec fn delete_target(self) -> InputView {
        if self.selection_empty() {
            self.selected_to(self.next_boundary(self.cursor()))
        } else {
            self
        }
    }

    /// The text between the ends of the selection.
    pub open spec fn selected_text(self) -> Seq<char> {
        self.text.subrange(
            char_index(self.text, self.selected_range.start as int),
            char_index(self.text, self.selected_range.end as int),
        )
    }

    /// What pasting `t` inserts: a single line input drops line breaks.
    pub open spec fn paste_text(self, t: Seq<char>) -> Seq<char> {
        if self.multi_line {
            t
        } else {
            without_line_breaks(t)
        }
    }

    /// The input with the word around `offset` selected and remembered: from
    /// the UTF-16 offset of `offset`, the selection reaches back over the
    /// word characters before it and forward over those after it. The text
    /// after it is read up to the byte length taken as a UTF-16 offset.
    pub open spec fn word_selected(self, offset: usize) -> InputView {
        let s = self.text;
        let at = utf16_offset_of_byte(s, offset as int);
        let before = Self::text_in_utf16_range(s, range(0, at as usize));
        let after = Self::text_in_utf16_range(s, range(at as usize, utf8_len(s) as usize));
        let start = at - word_tail_utf16(before);
        let end = at + word_head_utf16(after);
        let sel = range(byte_offset_of_utf16(s, start) as usize, byte_offset_of_utf16(s, end as int) as usize);
        InputView { selected_range: sel, selected_word_range: Some(sel), ..self }
    }

    /// The input after `set_text(t)`: the text is `t`, the cursor at the
    /// start with no composition, nothing recorded, and recording on.
    pub open spec fn text_set(self, t: Seq<char>) -> InputView {
        InputView {
            text: t,
            selected_range: range(0, 0),
            marked_range: None,
            history: HistoryView { ignore: false, ..self.history },
            ..self
        }
    }

    /// The input with the selection collapsed to `offset`.
    pub open spec fn moved_to(self, offset: usize) -> InputView {
        InputView { selected_range: range(offset, offset), ..self }
    }

    /// Whether nothing is selected.
    pub open spec fn selection_empty(self) -> bool {
        !(self.selected_range.start < self.selected_range.end)
    }

    /// The grapheme cluster start before `offset`, or 0.
    pub open spec fn previous_boundary(self, offset: usize) -> usize {
        last_below(grapheme_starts(self.text), offset)
    }

    /// The grapheme cluster start after `offset`, or the end of the text.
    pub open spec fn next_boundary(self, offset: usize) -> usize {
        first_above(grapheme_starts(self.text), offset, utf8_len(self.text) as usize)
    }

    /// Where the cursor's line begins: just after the last line break up to
    /// the character at the cluster start before the cursor; 0 in a single
    /// line input.
    pub open spec fn line_start(self) -> usize {
        if !self.multi_line {
            0
        } else {
            let offset = self.previous_boundary(self.cursor());
            let t = Self::text_in_utf16_range(self.text, Self::utf16_range(self.text, range(0, (offset + 1) as usize)));
            after_last_line_break(t) as usize
        }
    }

    /// Where the cursor's line ends: the cluster start after the cursor if a
    /// line break ends just there, else the next line break from there, else
    /// the end of the text; the end of the text in a single line input.
    pub open spec fn line_end(self) -> usize {
        let len = utf8_len(self.text) as usize;
        if !self.multi_line {
            len
        } else {
            let offset = self.next_boundary(self.cursor());
            let before = Self::text_in_utf16_range(
                self.text,
                Self::utf16_range(self.text, range((offset - 1) as usize, offset)),
            );
            if before == seq!['\n'] {
                offset
            } else {
                let rest = Self::text_in_utf16_range(self.text, Self::utf16_range(self.text, range(offset, len)));
                match first_line_break(rest) {
                    Some(i) => (i + offset) as usize,
                    None => len,
                }
            }
        }
    }

    /// The input after moving the cursor end of the selection to `offset`:
    /// the selection flips where the cursor passes the other end, and a
    /// word selected by double click stays inside it.
    pub open spec fn selected_to(self, offset: usize) -> InputView {
        let s = self.selected_range;
        let moved = if self.selection_reversed { range(offset, s.end) } else { range(s.start, offset) };
        let flips = moved.end < moved.start;
        let ordered = if flips { range(moved.end, moved.start) } else { moved };
        let kept = match self.selected_word_range {
            Some(w) => range(
                if ordered.start > w.start { w.start } else { ordered.start },
                if ordered.end < w.end { w.end } else { ordered.end },
            ),
            None => ordered,
        };
        InputView {
            selected_range: kept,
            selection_reversed: if flips { !self.selection_reversed } else { self.selection_reversed },
            ..self
        }
    }

    /// The input after a replacement while the history is ignored.
    pub open spec fn replaced_quietly(self, range_utf16: Option<Range<usize>>, t: Seq<char>) -> InputView {
        let r = self.target_range(range_utf16);
        let caret = (r.start + utf8_len(t)) as usize;
        if !self.replace_applies(range_utf16, t) {
            self
        } else {
            InputView {
                text: self.pending_text(range_utf16, t),
                selected_range: range(caret, caret),
                marked_range: None,
                ..self
            }
        }
    }

    /// The input after reverting each change in turn: the text that a change
    /// inserted is replaced by the text it removed.
    pub open spec fn revert_all(self, changes: Seq<Change>) -> InputView
        decreases changes.len(),
    {
        if changes.len() == 0 {
            self
        } else {
            let c = changes[0];
            self.replaced_quietly(Some(Self::utf16_range(self.text, c.new_range)), c.old_text@).revert_all(
                changes.drop_first(),
            )
        }
    }

    /// The input after applying each change again in turn: the text that a
    /// change removed is replaced by the text it inserted.
    pub open spec fn reapply_all(self, changes: Seq<Change>) -> InputView
        decreases changes.len(),
    {
        if changes.len() == 0 {
            self
        } else {
            let c = changes[0];
            self.replaced_quietly(Some(Self::utf16_range(self.text, c.old_range)), c.new_text@).reapply_all(
                changes.drop_first(),
            )
        }
    }

    /// The changes that an undo reverts, in the order it reverts them.
    pub open spec fn undo_changes(self) -> Seq<Change> {
        let u = self.history.undos;
        if u.len() == 0 {
            Seq::empty()
        } else {
            u.subrange(top_group_start(u), u.len() as int).reverse()
        }
    }

    /// The changes that a redo applies again, in the order it applies them.
    pub open spec fn redo_changes(self) -> Seq<Change> {
        let r = self.history.redos;
        if r.len() == 0 {
            Seq::empty()
        } else {
            r.subrange(top_group_start(r), r.len() as int).reverse()
        }
    }

    /// The input after an undo: the top group of changes leaves the undo
    /// stack and is reverted without being recorded; afterwards the history
    /// records again.
    pub open spec fn after_undo(self) -> InputView {
        let h = self.history.undone();
        self.with_history(h, true).revert_all(self.undo_changes()).with_history(h, false)
    }

    /// The input after a redo: the top group of changes leaves the redo
    /// stack and is applied again without being recorded; afterwards the
    /// history records again.
    pub open spec fn after_redo(self) -> InputView {
        let h = self.history.redone();
        self.with_history(h, true).reapply_all(self.redo_changes()).with_history(h, false)
    }

    /// The input with its history replaced by `h` and ignoring set to `ignore`.
    pub open spec fn with_history(self, h: HistoryView, ignore: bool) -> InputView {
        InputView { history: HistoryView { ignore, ..h }, ..self }
    }
}

/// While the history is ignored, a replacement is a function of the input.
pub proof fn lemma_replaced_quietly(v: InputView, after: InputView, range_utf16: Option<Range<usize>>, t: Seq<char>)
    requires
        v.history.ignore,
        v.replaced(after, range_utf16, t),
    ensures
        after == v.replaced_quietly(range_utf16, t),
{
}

/// The editing state of a text input.
pub struct TextInput<V: TextValidator> {
    text: String,
    multi_line: bool,
    history: History,
    placeholder: String,
    selected_range: Range<usize>,
    selected_word_range: Option<Range<usize>>,
    selection_reversed: bool,
    marked_range: Option<Range<usize>>,
    is_selecting: bool,
    disabled: bool,
    masked: bool,
    appearance: bool,
    cleanable: bool,
    loading: bool,
    rows: usize,
    pattern: Option<Pattern>,
    validator: V,
    blink_cursor: BlinkCursor,
}

impl<V: TextValidator> View for TextInput<V> {
    type V = InputView;

    closed spec fn view(&self) -> InputView {
        InputView {
            text: self.text@,
            selected_range: self.selected_range,
            selection_reversed: self.selection_reversed,
            marked_range: self.marked_range,
            selected_word_range: self.selected_word_range,
            multi_line: self.multi_line,
            disabled: self.disabled,
            is_selecting: self.is_selecting,
            pattern: match self.pattern {
                Some(p) => Some(p.spec_source()),
                None => None,
            },
            accepts: |t: Seq<char>| self.validator.spec_accepts(t),
            history: self.history@,
            placeholder: self.placeholder@,
            masked: self.masked,
            appearance: self.appearance,
            cleanable: self.cleanable,
            loading: self.loading,
            rows: self.rows,
            blink: self.blink_cursor@,
        }
    }
}

impl TextInput<AcceptAll> {
    /// An empty, enabled, single-line input that accepts every text, with
    /// the cursor at the start and an empty history.
    pub fn new() -> (r: Self)
        ensures
            r@.text.len() == 0,
            r@.selected_range == range(0, 0),
            !r@.selection_reversed,
            r@.marked_range.is_none(),
            r@.selected_word_range.is_none(),
            !r@.multi_line,
            !r@.disabled,
            !r@.is_selecting,
            r@.pattern.is_none(),
            forall|t: Seq<char>| #[trigger] (r@.accepts)(t),
            r@.history.undos.len() == 0,
            r@.history.redos.len() == 0,
            r@.history.version == 0,
            !r@.history.ignore,
            r@.placeholder.len() == 0,
            !r@.masked,
            r@.appearance,
            !r@.cleanable,
            !r@.loading,
            r@.rows == 2,
            r@.blink == (BlinkView { visible: false, paused: false, epoch: 0 }),
    {
        TextInput {
            text: String::new(),
            multi_line: false,
            history: History::new(),
            placeholder: String::new(),
            selected_range: 0..0,
            selected_word_range: None,
            selection_reversed: false,
            marked_range: None,
            is_selecting: false,
            disabled: false,
            masked: false,
            appearance: true,
            cleanable: false,
            loading: false,
            rows: 2,
            pattern: None,
            validator: AcceptAll,
            blink_cursor: BlinkCursor::new(),
        }
    }
}

impl<V: TextValidator> TextInput<V> {
    /// Makes the input a multi-line text area.
    pub fn multi_line(self) -> (r: Self)
        ensures
            r@ == (InputView { multi_line: true, ..self@ }),
    {
        let mut s = self;
        s.multi_line = true;
        s
    }

    pub fn is_multi_line(&self) -> (r: bool)
        ensures
            r == self@.multi_line,
    {
        self.multi_line
    }

    pub fn is_single_line(&self) -> (r: bool)
        ensures
            r == !self@.multi_line,
    {
        !self.multi_line
    }

    /// Sets the number of rows a text area shows.
    pub fn rows(self, rows: usize) -> (r: Self)
        ensures
            r@ == (InputView { rows, ..self@ }),
    {
        let mut s = self;
        s.rows = rows;
        s
    }

    pub fn set_disabled(&mut self, disabled: bool)
        ensures
            final(self)@ == (InputView { disabled, ..old(self)@ }),
    {
        self.disabled = disabled;
    }

    /// Whether the text is shown masked.
    pub fn set_masked(&mut self, masked: bool)
        ensures
            final(self)@ == (InputView { masked, ..old(self)@ }),
    {
        self.masked = masked;
    }

    /// Whether the input draws its own background and border.
    pub fn appearance(self, appearance: bool) -> (r: Self)
        ensures
            r@ == (InputView { appearance, ..self@ }),
    {
        let mut s = self;
        s.appearance = appearance;
        s
    }

    pub fn placeholder(self, placeholder: &str) -> (r: Self)
        ensures
            r@ == (InputView { placeholder: placeholder@, ..self@ }),
    {
        let mut s = self;
        s.placeholder = placeholder.to_string();
        s
    }

    pub fn set_placeholder(&mut self, placeholder: &str)
        ensures
            final(self)@ == (InputView { placeholder: placeholder@, ..old(self)@ }),
    {
        self.placeholder = placeholder.to_string();
    }

    /// Shows a clear button while a single-line input holds text.
    pub fn cleanable(self) -> (r: Self)
        ensures
            r@ == (InputView { cleanable: true, ..self@ }),
    {
        let mut s = self;
        s.cleanable = true;
        s
    }

    /// Only texts in which the pattern matches may become the text.
    pub fn pattern(self, pattern: Pattern) -> (r: Self)
        ensures
            r@ == (InputView { pattern: Some(pattern.spec_source()), ..self@ }),
    {
        let mut s = self;
        s.pattern = Some(pattern);
        s
    }

    pub fn set_pattern(&mut self, pattern: Pattern)
        ensures
            final(self)@ == (InputView { pattern: Some(pattern.spec_source()), ..old(self)@ }),
    {
        self.pattern = Some(pattern);
    }

    /// Only texts that `validator` accepts may become the text.
    pub fn validate<W: TextValidator>(self, validator: W) -> (r: TextInput<W>)
        ensures
            r@ == (InputView { accepts: |t: Seq<char>| validator.spec_accepts(t), ..self@ }),
    {
        let r = TextInput {
            text: self.text,
            multi_line: self.multi_line,
            history: self.history,
            placeholder: self.placeholder,
            selected_range: self.selected_range,
            selected_word_range: self.selected_word_range,
            selection_reversed: self.selection_reversed,
            marked_range: self.marked_range,
            is_selecting: self.is_selecting,
            disabled: self.disabled,
            masked: self.masked,
            appearance: self.appearance,
            cleanable: self.cleanable,
            loading: self.loading,
            rows: self.rows,
            pattern: self.pattern,
            validator,
            blink_cursor: self.blink_cursor,
        };
        assert(r@.accepts =~= (|t: Seq<char>| validator.spec_accepts(t)));
        r
    }

    /// Shows a busy indicator.
    pub fn set_loading(&mut self, loading: bool)
        ensures
            final(self)@ == (InputView { loading, ..old(self)@ }),
    {
        self.loading = loading;
    }

    /// Whether the clear button is shown: for a cleanable single-line input
    /// that holds some text and is not busy.
    pub fn shows_clear_button(&self) -> (r: bool)
        ensures
            r == (self@.cleanable && !self@.loading && self@.text.len() > 0 && !self@.multi_line),
    {
        proof {
            if self.text@.len() > 0 {
                crate::utf::lemma_nonempty_len(self.text@);
            }
        }
        self.cleanable && !self.loading && byte_len(self.text.as_str()) > 0 && self.is_single_line()
    }

    pub fn text(&self) -> (r: String)
        ensures
            r@ == self@.text,
    {
        self.text.clone()
    }

    pub fn disabled(&self) -> (r: bool)
        ensures
            r == self@.disabled,
    {
        self.disabled
    }

    /// The selection, in byte offsets.
    pub fn selected_range(&self) -> (r: Range<usize>)
        ensures
            r == self@.selected_range,
    {
        self.selected_range.start..self.selected_range.end
    }

    /// Whether the cursor is at the start of the selection.
    pub fn selection_reversed(&self) -> (r: bool)
        ensures
            r == self@.selection_reversed,
    {
        self.selection_reversed
    }

    /// The text being composed by an input method, in byte offsets.
    pub fn marked_range(&self) -> (r: Option<Range<usize>>)
        ensures
            r == self@.marked_range,
    {
        match &self.marked_range {
            Some(m) => Some(m.start..m.end),
            None => None,
        }
    }

    /// The word selected by a double click, kept while dragging.
    pub fn selected_word_range(&self) -> (r: Option<Range<usize>>)
        ensures
            r == self@.selected_word_range,
    {
        match &self.selected_word_range {
            Some(m) => Some(m.start..m.end),
            None => None,
        }
    }

    /// Where the cursor is: the end of the selection that moves.
    pub fn cursor_offset(&self) -> (r: usize)
        ensures
            r == self@.cursor(),
    {
        if self.selection_reversed {
            self.selected_range.start
        } else {
            self.selected_range.end
        }
    }

    /// Collapses the selection to `offset`.
    pub fn move_to(&mut self, offset: usize)
        ensures
            final(self)@ == old(self)@.moved_to(offset),
    {
        self.selected_range = offset..offset;
    }

    /// Moves the cursor end of the selection to `offset`, keeping the
    /// other end, and keeps a word selected by double click inside it.
    pub fn select_to(&mut self, offset: usize)
        ensures
            final(self)@ == old(self)@.selected_to(offset),
    {
        if self.selection_reversed {
            self.selected_range.start = offset;
        } else {
            self.selected_range.end = offset;
        }
        if self.selected_range.end < self.selected_range.start {
            self.selection_reversed = !self.selection_reversed;
            self.selected_range = self.selected_range.end..self.selected_range.start;
        }
        match &self.selected_word_range {
            Some(word_range) => {
                if self.selected_range.start > word_range.start {
                    self.selected_range.start = word_range.start;
                }
                if self.selected_range.end < word_range.end {
                    self.selected_range.end = word_range.end;
                }
            },
            None => {},
        }
    }

    /// Collapses the selection to the cursor.
    pub fn unselect(&mut self)
        ensures
            final(self)@ == (InputView {
                selected_range: range(old(self)@.cursor(), old(self)@.cursor()),
                ..old(self)@
            }),
    {
        let offset = self.cursor_offset();
        self.selected_range = offset..offset;
    }

    /// The input got the focus: the cursor starts blinking. Returns the
    /// epoch of the next blink step to schedule, if any.
    pub fn on_focus(&mut self) -> (next: Option<usize>)
        requires
            old(self)@.blink.epoch < usize::MAX,
        ensures
            final(self)@ == (InputView { blink: old(self)@.blink.blinked(old(self)@.blink.epoch), ..old(self)@ }),
            next == if old(self)@.blink.fires(old(self)@.blink.epoch) {
                Some(final(self)@.blink.epoch)
            } else {
                None
            },
    {
        self.blink_cursor.start()
    }

    /// The input lost the focus: the selection collapses to the cursor and
    /// the cursor stops blinking.
    pub fn on_blur(&mut self)
        ensures
            final(self)@ == (InputView {
                selected_range: range(old(self)@.cursor(), old(self)@.cursor()),
                blink: BlinkView { epoch: 0, ..old(self)@.blink },
                ..old(self)@
            }),
    {
        self.unselect();
        self.blink_cursor.stop();
    }

    /// Typing pauses the blinking, which keeps the cursor shown. Returns the
    /// epoch with which to resume it.
    pub fn pause_blink_cursor(&mut self) -> (resume_epoch: usize)
        requires
            old(self)@.blink.epoch < usize::MAX,
        ensures
            final(self)@ == (InputView {
                blink: BlinkView { paused: true, epoch: (old(self)@.blink.epoch + 1) as usize, ..old(self)@.blink },
                ..old(self)@
            }),
            resume_epoch == final(self)@.blink.epoch,
    {
        self.blink_cursor.pause()
    }

    /// A key went down: the blinking pauses, as `pause_blink_cursor` does.
    pub fn on_key_down_for_blink_cursor(&mut self) -> (resume_epoch: usize)
        requires
            old(self)@.blink.epoch < usize::MAX,
        ensures
            final(self)@ == (InputView {
                blink: BlinkView { paused: true, epoch: (old(self)@.blink.epoch + 1) as usize, ..old(self)@.blink },
                ..old(self)@
            }),
            resume_epoch == final(self)@.blink.epoch,
    {
        self.pause_blink_cursor()
    }

    /// Whether the cursor is drawn: while the input has the focus
    /// (`focused`) and the blink shows it.
    pub fn show_cursor(&self, focused: bool) -> (r: bool)
        ensures
            r == (focused && (self@.blink.paused || self@.blink.visible)),
    {
        focused && self.blink_cursor.visible()
    }

    /// The selection, in UTF-16 offsets.
    pub fn selected_text_range(&self) -> (r: Range<usize>)
        ensures
            r == InputView::utf16_range(self@.text, self@.selected_range),
    {
        self.range_to_utf16(&self.selected_range)
    }

    /// The text being composed, in UTF-16 offsets.
    pub fn marked_text_range(&self) -> (r: Option<Range<usize>>)
        ensures
            r == (match self@.marked_range {
                Some(m) => Some(InputView::utf16_range(self@.text, m)),
                None => None,
            }),
    {
        match &self.marked_range {
            Some(m) => Some(self.range_to_utf16(m)),
            None => None,
        }
    }

    /// Ends the composition, keeping its text.
    pub fn unmark_text(&mut self)
        ensures
            final(self)@ == (InputView { marked_range: None, ..old(self)@ }),
    {
        self.marked_range = None;
    }

    /// Ends a mouse selection.
    pub fn on_mouse_up(&mut self)
        ensures
            final(self)@ == (InputView { is_selecting: false, selected_word_range: None, ..old(self)@ }),
    {
        self.is_selecting = false;
        self.selected_word_range = None;
    }
}

impl<V: TextValidator> TextInput<V> {
    /// The grapheme cluster start before `offset`, or 0.
    pub fn previous_boundary(&self, offset: usize) -> (r: usize)
        ensures
            r == self@.previous_boundary(offset),
            is_boundary(self@.text, r as int),
            r == 0 || r < offset,
    {
        let starts = grapheme_offsets(self.text.as_str());
        proof {
            crate::segment::lemma_last_below_boundary(self.text@, starts@, offset);
        }
        previous_boundary_in(&starts, offset)
    }

    /// The grapheme cluster start after `offset`, or the end of the text.
    pub fn next_boundary(&self, offset: usize) -> (r: usize)
        ensures
            r == self@.next_boundary(offset),
            is_boundary(self@.text, r as int),
            r <= utf8_len(self@.text),
            r == utf8_len(self@.text) || offset < r,
    {
        let starts = grapheme_offsets(self.text.as_str());
        let end = byte_len(self.text.as_str());
        proof {
            crate::segment::lemma_first_above_boundary(self.text@, starts@, offset, end);
            crate::utf::lemma_full_prefix(self.text@);
        }
        next_boundary_in(&starts, offset, end)
    }

    /// Where the cursor's line begins.
    fn start_of_line(&self) -> (r: usize)
        ensures
            r == self@.line_start(),
    {
        if !self.multi_line {
            return 0;
        }
        let offset = self.previous_boundary(self.cursor_offset());
        let r16 = self.range_to_utf16(&(0..offset + 1));
        let line = self.slice_utf16(r16);
        after_last_line_break_of(line.as_str())
    }

    /// Where the cursor's line ends.
    fn end_of_line(&self) -> (r: usize)
        requires
            self@.multi_line ==> self@.text.len() > 0,
        ensures
            r == self@.line_end(),
            r <= utf8_len(self@.text),
    {
        let len = byte_len(self.text.as_str());
        if !self.multi_line {
            return len;
        }
        let offset = self.next_boundary(self.cursor_offset());
        proof {
            crate::utf::lemma_nonempty_len(self.text@);
            crate::utf::lemma_byte_walk_monotonic(self.text@, offset - 1, offset as int);
        }
        let before = self.slice_utf16(self.range_to_utf16(&(offset - 1..offset)));
        if is_line_break(before.as_str()) {
            return offset;
        }
        proof {
            crate::utf::lemma_byte_walk_monotonic(self.text@, offset as int, len as int);
            crate::utf::lemma_full_prefix(self.text@);
            crate::utf::lemma_boundary_utf16(self.text@, offset as int);
            crate::utf::lemma_boundary_utf16(self.text@, len as int);
            crate::utf::lemma_subrange_len(self.text@, offset as int, len as int);
        }
        let rest = self.slice_utf16(self.range_to_utf16(&(offset..len)));
        proof {
            crate::lines::lemma_first_line_break_within(rest@);
        }
        match first_line_break_of(rest.as_str()) {
            Some(i) => i + offset,
            None => len,
        }
    }

    /// Moves the cursor one cluster left, or to the start of the selection.
    pub fn left(&mut self)
        ensures
            final(self)@ == old(self)@.moved_to(
                if old(self)@.selection_empty() {
                    old(self)@.previous_boundary(old(self)@.cursor())
                } else {
                    old(self)@.selected_range.start
                },
            ),
    {
        if !(self.selected_range.start < self.selected_range.end) {
            let offset = self.previous_boundary(self.cursor_offset());
            self.move_to(offset);
        } else {
            let offset = self.selected_range.start;
            self.move_to(offset);
        }
    }

    /// Moves the cursor one cluster right, or to the end of the selection.
    pub fn right(&mut self)
        ensures
            final(self)@ == old(self)@.moved_to(
                if old(self)@.selection_empty() {
                    old(self)@.next_boundary(old(self)@.selected_range.end)
                } else {
                    old(self)@.selected_range.end
                },
            ),
    {
        if !(self.selected_range.start < self.selected_range.end) {
            let offset = self.next_boundary(self.selected_range.end);
            self.move_to(offset);
        } else {
            let offset = self.selected_range.end;
            self.move_to(offset);
        }
    }

    /// In a text area, moves the cursor to the end of the previous line.
    pub fn up(&mut self)
        ensures
            final(self)@ == if old(self)@.multi_line {
                old(self)@.moved_to(if old(self)@.line_start() > 0 { (old(self)@.line_start() - 1) as usize } else { 0 })
            } else {
                old(self)@
            },
    {
        if !self.multi_line {
            return;
        }
        let offset = self.start_of_line().saturating_sub(1);
        self.move_to(offset);
    }

    /// In a text area, moves the cursor to the start of the next line.
    pub fn down(&mut self)
        requires
            old(self)@.multi_line ==> old(self)@.text.len() > 0,
        ensures
            final(self)@ == if old(self)@.multi_line {
                old(self)@.moved_to(
                    if old(self)@.line_end() + 1 < utf8_len(old(self)@.text) {
                        (old(self)@.line_end() + 1) as usize
                    } else {
                        utf8_len(old(self)@.text) as usize
                    },
                )
            } else {
                old(self)@
            },
    {
        if !self.multi_line {
            return;
        }
        let end = self.end_of_line();
        let len = byte_len(self.text.as_str());
        let offset = if end < len { end + 1 } else { len };
        self.move_to(offset);
    }

    /// Extends the selection one cluster left of the cursor.
    pub fn select_left(&mut self)
        ensures
            final(self)@ == old(self)@.selected_to(old(self)@.previous_boundary(old(self)@.cursor())),
    {
        let offset = self.previous_boundary(self.cursor_offset());
        self.select_to(offset);
    }

    /// Extends the selection one cluster right of the cursor.
    pub fn select_right(&mut self)
        ensures
            final(self)@ == old(self)@.selected_to(old(self)@.next_boundary(old(self)@.cursor())),
    {
        let offset = self.next_boundary(self.cursor_offset());
        self.select_to(offset);
    }

    /// In a text area, extends the selection to the end of the previous line.
    pub fn select_up(&mut self)
        ensures
            final(self)@ == if old(self)@.multi_line {
                old(self)@.selected_to(if old(self)@.line_start() > 0 { (old(self)@.line_start() - 1) as usize } else { 0 })
            } else {
                old(self)@
            },
    {
        if !self.multi_line {
            return;
        }
        let offset = self.start_of_line().saturating_sub(1);
        self.select_to(offset);
    }

    /// In a text area, extends the selection to the start of the next line.
    pub fn select_down(&mut self)
        requires
            old(self)@.multi_line ==> old(self)@.text.len() > 0,
        ensures
            final(self)@ == if old(self)@.multi_line {
                old(self)@.selected_to(
                    if old(self)@.line_end() + 1 < utf8_len(old(self)@.text) {
                        (old(self)@.line_end() + 1) as usize
                    } else {
                        utf8_len(old(self)@.text) as usize
                    },
                )
            } else {
                old(self)@
            },
    {
        if !self.multi_line {
            return;
        }
        let end = self.end_of_line();
        let len = byte_len(self.text.as_str());
        let offset = if end < len { end + 1 } else { len };
        self.select_to(offset);
    }

    /// Selects the whole text.
    pub fn select_all(&mut self)
        ensures
            final(self)@ == old(self)@.moved_to(0).selected_to(utf8_len(old(self)@.text) as usize),
    {
        self.move_to(0);
        let len = byte_len(self.text.as_str());
        self.select_to(len);
    }

    /// Moves the cursor to the start of its line.
    pub fn home(&mut self)
        ensures
            final(self)@ == old(self)@.moved_to(old(self)@.line_start()),
    {
        let offset = self.start_of_line();
        self.move_to(offset);
    }

    /// Moves the cursor to the end of its line.
    pub fn end(&mut self)
        requires
            old(self)@.multi_line ==> old(self)@.text.len() > 0,
        ensures
            final(self)@ == old(self)@.moved_to(old(self)@.line_end()),
    {
        let offset = self.end_of_line();
        self.move_to(offset);
    }

    /// Extends the selection to the start of the cursor's line.
    pub fn select_to_home(&mut self)
        ensures
            final(self)@ == old(self)@.selected_to(old(self)@.line_start()),
    {
        let offset = self.start_of_line();
        self.select_to(offset);
    }

    /// Extends the selection to the end of the cursor's line.
    pub fn select_to_end(&mut self)
        requires
            old(self)@.multi_line ==> old(self)@.text.len() > 0,
        ensures
            final(self)@ == old(self)@.selected_to(old(self)@.line_end()),
    {
        let offset = self.end_of_line();
        self.select_to(offset);
    }
}

impl<V: TextValidator> TextInput<V> {
    /// Replaces the whole text.
    fn replace_text(&mut self, text: &str) -> (changed: bool)
        requires
            old(self)@.replace_can_run(Some(old(self)@.whole_utf16()), text@),
        ensures
            old(self)@.replaced(final(self)@, Some(old(self)@.whole_utf16()), text@),
            changed == old(self)@.replace_applies(Some(old(self)@.whole_utf16()), text@),
    {
        let n16 = utf16_length(self.text.as_str());
        self.replace_text_in_range(Some(0..n16), text)
    }

    /// Sets the text without recording the change, and puts the cursor at
    /// the start.
    pub fn set_text(&mut self, text: &str)
        ensures
            final(self)@ == old(self)@.text_set(text@),
    {
        self.text = text.to_string();
        self.marked_range = None;
        self.history.set_ignore(false);
        self.selected_range = 0..0;
    }

    /// Clears the text, recording the change.
    pub fn clean(&mut self)
        requires
            old(self)@.replace_can_run(Some(old(self)@.whole_utf16()), Seq::empty()),
        ensures
            old(self)@.replaced(final(self)@, Some(old(self)@.whole_utf16()), Seq::empty()),
    {
        proof {
            reveal_strlit("");
            assert(""@ =~= Seq::<char>::empty());
        }
        self.replace_text("");
    }

    /// Deletes the selection, or the cluster before the cursor.
    pub fn backspace(&mut self)
        requires
            old(self)@.ranges_on_boundaries(),
            old(self)@.version_room(),
        ensures
            old(self)@.backspace_target().replaced(final(self)@, None, Seq::empty()),
    {
        if !(self.selected_range.start < self.selected_range.end) {
            let offset = self.previous_boundary(self.cursor_offset());
            self.select_to(offset);
        }
        assert(self@.replace_can_run(None, Seq::empty()));
        proof {
            reveal_strlit("");
            assert(""@ =~= Seq::<char>::empty());
        }
        self.replace_text_in_range(None, "");
    }

    /// Deletes the selection, or the cluster after the cursor.
    pub fn delete(&mut self)
        requires
            old(self)@.ranges_on_boundaries(),
            old(self)@.version_room(),
        ensures
            old(self)@.delete_target().replaced(final(self)@, None, Seq::empty()),
    {
        if !(self.selected_range.start < self.selected_range.end) {
            let offset = self.next_boundary(self.cursor_offset());
            self.select_to(offset);
        }
        assert(self@.replace_can_run(None, Seq::empty()));
        proof {
            reveal_strlit("");
            assert(""@ =~= Seq::<char>::empty());
        }
        self.replace_text_in_range(None, "");
    }

    /// Deletes from the start of the cursor's line to the cursor.
    pub fn delete_to_beginning_of_line(&mut self)
        requires
            old(self)@.replace_can_run(
                Some(InputView::utf16_range(old(self)@.text, range(old(self)@.line_start(), old(self)@.cursor()))),
                Seq::empty(),
            ),
        ensures
            old(self)@.replaced(
                final(self)@,
                Some(InputView::utf16_range(old(self)@.text, range(old(self)@.line_start(), old(self)@.cursor()))),
                Seq::empty(),
            ),
    {
        let offset = self.start_of_line();
        let cursor = self.cursor_offset();
        let r16 = self.range_to_utf16(&(offset..cursor));
        proof {
            reveal_strlit("");
            assert(""@ =~= Seq::<char>::empty());
        }
        self.replace_text_in_range(Some(r16), "");
    }

    /// Deletes from the cursor to the end of its line.
    pub fn delete_to_end_of_line(&mut self)
        requires
            old(self)@.multi_line ==> old(self)@.text.len() > 0,
            old(self)@.replace_can_run(
                Some(InputView::utf16_range(old(self)@.text, range(old(self)@.cursor(), old(self)@.line_end()))),
                Seq::empty(),
            ),
        ensures
            old(self)@.replaced(
                final(self)@,
                Some(InputView::utf16_range(old(self)@.text, range(old(self)@.cursor(), old(self)@.line_end()))),
                Seq::empty(),
            ),
    {
        let offset = self.end_of_line();
        let cursor = self.cursor_offset();
        let r16 = self.range_to_utf16(&(cursor..offset));
        proof {
            reveal_strlit("");
            assert(""@ =~= Seq::<char>::empty());
        }
        self.replace_text_in_range(Some(r16), "");
    }

    /// In a text area, replaces the selection by a line break and puts the
    /// cursor just before the next cluster start after it.
    pub fn enter(&mut self)
        requires
            old(self)@.multi_line ==> old(self)@.ranges_on_boundaries() && old(self)@.version_room(),
            old(self)@.multi_line ==> (old(self)@.replace_applies(None, seq!['\n']) || old(self)@.text.len() > 0),
        ensures
            !old(self)@.multi_line ==> final(self)@ == old(self)@,
            old(self)@.multi_line ==> exists|mid: InputView|
                old(self)@.replaced(mid, None, seq!['\n']) && final(self)@ == mid.moved_to(
                    (mid.next_boundary(mid.cursor()) - 1) as usize,
                ),
    {
        if self.multi_line {
            proof {
                reveal_strlit("\n");
                assert("\n"@ =~= seq!['\n']);
            }
            assert(self@.replace_can_run(None, seq!['\n']));
            self.replace_text_in_range(None, "\n");
            let ghost mid = self@;
            proof {
                if old(self)@.replace_applies(None, seq!['\n']) {
                    assert(self@.text == old(self)@.pending_text(None, seq!['\n']));
                    assert(self@.text.len() >= 1);
                } else {
                    assert(self@.text == old(self)@.text);
                }
                crate::utf::lemma_nonempty_len(self@.text);
            }
            let offset = self.next_boundary(self.cursor_offset());
            self.move_to(offset - 1);
            assert(old(self)@.replaced(mid, None, seq!['\n']));
        }
    }

    /// The enter key, where it can be taken: in a multi-line input whose
    /// text is empty, a line break that would not be accepted leaves nothing
    /// to move the cursor back over, and the key is refused. Returns whether
    /// the key was taken.
    pub fn try_enter(&mut self) -> (done: bool)
        requires
            old(self)@.multi_line ==> old(self)@.ranges_on_boundaries() && old(self)@.version_room(),
        ensures
            done == (!old(self)@.multi_line || old(self)@.replace_applies(None, seq!['\n']) || old(self)@.text.len()
                > 0),
            !done ==> final(self)@ == old(self)@,
            done && !old(self)@.multi_line ==> final(self)@ == old(self)@,
            done && old(self)@.multi_line ==> exists|mid: InputView|
                old(self)@.replaced(mid, None, seq!['\n']) && final(self)@ == mid.moved_to(
                    (mid.next_boundary(mid.cursor()) - 1) as usize,
                ),
    {
        if self.multi_line && byte_len(self.text.as_str()) == 0 {
            proof {
                if self@.text.len() > 0 {
                    crate::utf::lemma_nonempty_len(self@.text);
                }
                reveal_strlit("\n");
                assert("\n"@ =~= seq!['\n']);
            }
            if self.disabled {
                return false;
            }
            let r = self.target_range(&None);
            let pending = splice_text(self.text.as_str(), r.start, r.end, "\n");
            if !self.is_valid_input(pending.as_str()) {
                return false;
            }
        }
        self.enter();
        true
    }

    /// The selected text, where something is selected.
    pub fn copy(&self) -> (r: Option<String>)
        requires
            !self@.selection_empty() ==> valid_range(self@.text, self@.selected_range),
        ensures
            r is None <==> self@.selection_empty(),
            r matches Some(t) ==> t@ == self@.selected_text(),
    {
        if !(self.selected_range.start < self.selected_range.end) {
            return None;
        }
        Some(substring(self.text.as_str(), self.selected_range.start, self.selected_range.end))
    }

    /// Takes the selection out, where something is selected, and returns
    /// the text at the selection's offsets read as UTF-16 offsets.
    pub fn cut(&mut self) -> (r: Option<String>)
        requires
            !old(self)@.selection_empty() ==> old(self)@.replace_can_run(None, Seq::empty()),
        ensures
            old(self)@.selection_empty() ==> r is None && final(self)@ == old(self)@,
            !old(self)@.selection_empty() ==> (r matches Some(t) && t@ == InputView::text_in_utf16_range(
                old(self)@.text,
                old(self)@.selected_range,
            )),
            !old(self)@.selection_empty() ==> old(self)@.replaced(final(self)@, None, Seq::empty()),
    {
        if !(self.selected_range.start < self.selected_range.end) {
            return None;
        }
        let selected = self.slice_utf16(self.selected_range.start..self.selected_range.end);
        proof {
            reveal_strlit("");
            assert(""@ =~= Seq::<char>::empty());
        }
        self.replace_text_in_range(None, "");
        Some(selected)
    }

    /// Replaces the selection by the clipboard's text, if there is any; a
    /// single line input drops its line breaks.
    pub fn paste(&mut self, clipboard: Option<String>)
        requires
            clipboard matches Some(t) ==> old(self)@.replace_can_run(None, old(self)@.paste_text(t@)),
        ensures
            match clipboard {
                Some(t) => old(self)@.replaced(final(self)@, None, old(self)@.paste_text(t@)),
                None => final(self)@ == old(self)@,
            },
    {
        match clipboard {
            Some(t) => {
                let new_text = if !self.multi_line {
                    remove_line_breaks(t.as_str())
                } else {
                    t
                };
                self.replace_text_in_range(None, new_text.as_str());
            },
            None => {},
        }
    }

    /// The text in a UTF-16 range; `adjusted_range` receives the UTF-16
    /// range of the characters returned.
    pub fn text_for_range(&self, range_utf16: Range<usize>, adjusted_range: &mut Option<Range<usize>>) -> (r: Option<String>)
        requires
            byte_offset_of_utf16(self@.text, range_utf16.start as int) <= byte_offset_of_utf16(
                self@.text,
                range_utf16.end as int,
            ),
        ensures
            r matches Some(t) && t@ == InputView::text_in_utf16_range(self@.text, range_utf16),
            *final(adjusted_range) == Some(InputView::utf16_range(
                self@.text,
                range(
                    byte_offset_of_utf16(self@.text, range_utf16.start as int) as usize,
                    byte_offset_of_utf16(self@.text, range_utf16.end as int) as usize,
                ),
            )),
    {
        proof {
            crate::utf::lemma_utf16_lands_on_boundary(self.text@, range_utf16.start as int);
            crate::utf::lemma_utf16_lands_on_boundary(self.text@, range_utf16.end as int);
        }
        let r = self.range_from_utf16(&range_utf16);
        *adjusted_range = Some(self.range_to_utf16(&r));
        Some(substring(self.text.as_str(), r.start, r.end))
    }

    /// Selects the word around `offset` and keeps it selected while the
    /// mouse drags.
    pub fn select_word(&mut self, offset: usize)
        ensures
            final(self)@ == old(self)@.word_selected(offset),
    {
        let ghost s = self.text@;
        let len = byte_len(self.text.as_str());
        let at = offset_to_utf16(self.text.as_str(), offset);
        let ghost m = crate::utf::lemma_byte_walk_lands(s, offset as int);
        proof {
            lemma_word_context(s, offset as int, m);
        }
        let mut start = at;
        let mut end = at;
        let prev_text = self.slice_utf16(0..start);
        let next_text = self.slice_utf16(end..len);
        let prev = chars_of(prev_text.as_str());
        let next = chars_of(next_text.as_str());
        let ghost p = prev@;
        let ghost q = next@;
        let mut k = prev.len();
        assert(p.subrange(k as int, k as int) =~= Seq::<char>::empty());
        assert(p.take(k as int) =~= p);
        while k > 0
            invariant_except_break
                k <= p.len(),
                prev@ == p,
                utf16_len(p) == at,
                word_tail_utf16(p) == utf16_len(p.subrange(k as int, p.len() as int)) + word_tail_utf16(p.take(k as int)),
                start + utf16_len(p.subrange(k as int, p.len() as int)) == at,
            ensures
                start == at - word_tail_utf16(p),
            decreases k,
        {
            let c = prev[k - 1];
            proof {
                assert(p.take(k as int).drop_last() =~= p.take(k - 1));
                assert(p.take(k as int).last() == c);
                crate::utf::lemma_utf16_len_concat(seq![c], p.subrange(k as int, p.len() as int));
                assert(seq![c] + p.subrange(k as int, p.len() as int) =~= p.subrange(k - 1, p.len() as int));
                assert(seq![c].drop_first() =~= Seq::<char>::empty());
                crate::utf::lemma_utf16_len_concat(p.take(k as int), p.subrange(k as int, p.len() as int));
                assert(p.take(k as int) + p.subrange(k as int, p.len() as int) =~= p);
                crate::utf::lemma_prefix_step(p, k - 1);
                assert(p.take(k as int).len() > 0);
            }
            if !is_word(c) {
                break;
            }
            assert(word_tail_utf16(p.take(k as int)) == utf16_width(c) + word_tail_utf16(p.take(k - 1)));
            assert(seq![c].drop_first() =~= Seq::<char>::empty());
            assert(seq![c][0] == c);
            assert(utf16_len(Seq::<char>::empty()) == 0);
            assert(utf16_len(seq![c]) == utf16_width(c));
            assert(utf16_len(p.subrange(k - 1, p.len() as int)) == utf16_width(c) + utf16_len(
                p.subrange(k as int, p.len() as int),
            ));
            start = start - char_len_utf16(c);
            k -= 1;
        }
        let mut j: usize = 0;
        assert(q.take(0) =~= Seq::<char>::empty());
        assert(q.skip(0) =~= q);
        while j < next.len()
            invariant_except_break
                j <= q.len(),
                next@ == q,
                at + utf16_len(q) <= usize::MAX,
                end == at + utf16_len(q.take(j as int)),
                word_head_utf16(q) == utf16_len(q.take(j as int)) + word_head_utf16(q.skip(j as int)),
            ensures
                end == at + word_head_utf16(q),
            decreases q.len() - j,
        {
            let c = next[j];
            proof {
                assert(q.skip(j as int).drop_first() =~= q.skip(j + 1));
                assert(q.skip(j as int)[0] == c);
                crate::utf::lemma_prefix_step(q, j as int);
                if j + 1 < q.len() {
                    crate::utf::lemma_prefix_monotonic(q, j + 1, q.len() as int);
                }
                assert(q.take(q.len() as int) =~= q);
            }
            if !is_word(c) {
                break;
            }
            end = end + char_len_utf16(c);
            j += 1;
        }
        proof {
            assert(q.skip(q.len() as int).len() == 0);
        }
        let r = self.range_from_utf16(&(start..end));
        self.selected_range = r.start..r.end;
        self.selected_word_range = Some(r.start..r.end);
    }

    /// Starts a mouse selection at `offset`: a double click with the left
    /// button selects the word there; with shift held the selection extends
    /// to `offset`; otherwise the cursor moves there.
    pub fn on_mouse_down(&mut self, offset: usize, left_button: bool, click_count: usize, shift: bool)
        ensures
            ({
                let v = InputView { is_selecting: true, ..old(self)@ };
                final(self)@ == if left_button && click_count == 2 {
                    v.word_selected(offset)
                } else if shift {
                    v.selected_to(offset)
                } else {
                    v.moved_to(offset)
                }
            }),
    {
        self.is_selecting = true;
        if left_button && click_count == 2 {
            self.select_word(offset);
            return;
        }
        if shift {
            self.select_to(offset);
        } else {
            self.move_to(offset);
        }
    }

    /// Extends a mouse selection to `offset` while dragging, if the input
    /// holds text, has been laid out, has focus and is selecting.
    pub fn on_drag_move(&mut self, offset: usize, focused: bool, laid_out: bool)
        ensures
            final(self)@ == if old(self)@.text.len() > 0 && laid_out && focused && old(self)@.is_selecting {
                old(self)@.selected_to(offset)
            } else {
                old(self)@
            },
    {
        proof {
            if self.text@.len() > 0 {
                crate::utf::lemma_nonempty_len(self.text@);
            }
        }
        if byte_len(self.text.as_str()) == 0 {
            return;
        }
        if !laid_out || !focused || !self.is_selecting {
            return;
        }
        self.select_to(offset);
    }
}

impl<V: TextValidator> TextInput<V> {
    /// Whether a text may become the input's text.
    /// Whether `new_text` may become the text: the empty text always may;
    /// another must please the validator and match the pattern.
    pub fn is_valid_input(&self, new_text: &str) -> (r: bool)
        ensures
            r == self@.valid_input(new_text@),
    {
        if new_text.is_empty() {
            return true;
        }
        if !self.validator.accepts(new_text) {
            return false;
        }
        match &self.pattern {
            Some(p) => p.is_match(new_text),
            None => true,
        }
    }

    /// Converts a UTF-16 range of the text to a byte range.
    pub fn range_from_utf16(&self, range_utf16: &Range<usize>) -> (r: Range<usize>)
        ensures
            r.start == byte_offset_of_utf16(self@.text, range_utf16.start as int),
            r.end == byte_offset_of_utf16(self@.text, range_utf16.end as int),
    {
        offset_from_utf16(self.text.as_str(), range_utf16.start)..offset_from_utf16(
            self.text.as_str(),
            range_utf16.end,
        )
    }

    /// Converts a byte range of the text to a UTF-16 range.
    pub fn range_to_utf16(&self, range: &Range<usize>) -> (r: Range<usize>)
        ensures
            r.start == utf16_offset_of_byte(self@.text, range.start as int),
            r.end == utf16_offset_of_byte(self@.text, range.end as int),
            r == InputView::utf16_range(self@.text, *range),
            utf8_len(self@.text) <= usize::MAX,
    {
        offset_to_utf16(self.text.as_str(), range.start)..offset_to_utf16(self.text.as_str(), range.end)
    }

    /// The text in a UTF-16 range.
    fn slice_utf16(&self, range_utf16: Range<usize>) -> (r: String)
        requires
            range_utf16.start <= range_utf16.end,
        ensures
            r@ == InputView::text_in_utf16_range(self@.text, range_utf16),
    {
        proof {
            crate::utf::lemma_utf16_lands_on_boundary(self.text@, range_utf16.start as int);
            crate::utf::lemma_utf16_lands_on_boundary(self.text@, range_utf16.end as int);
            lemma_utf16_walk_monotonic(self.text@, range_utf16.start as int, range_utf16.end as int);
        }
        let r = self.range_from_utf16(&range_utf16);
        substring(self.text.as_str(), r.start, r.end)
    }
}

impl<V: TextValidator> TextInput<V> {
    /// Records the replacement of the byte range `r` by `new_text`, which
    /// then ends at `caret`, unless the history is ignored.
    fn push_history(&mut self, r: &Range<usize>, caret: usize, new_text: &str)
        requires
            old(self)@.history.ignore || (valid_range(old(self)@.text, *r) && old(self)@.history.version
                < usize::MAX),
            caret == r.start + utf8_len(new_text@),
        ensures
            final(self)@ == (InputView { history: final(self)@.history, ..old(self)@ }),
            if old(self)@.history.ignore {
                final(self)@.history == old(self)@.history
            } else {
                exists|new_group: bool|
                    old(self)@.history.recorded(
                        final(self)@.history,
                        *r,
                        InputView::text_in_utf16_range(old(self)@.text, InputView::utf16_range(old(self)@.text, *r)),
                        range(r.start, caret),
                        new_text@,
                        new_group,
                    )
            },
    {
        if self.history.ignore() {
            return;
        }
        proof {
            crate::utf::lemma_byte_walk_monotonic(self.text@, r.start as int, r.end as int);
        }
        let r16 = self.range_to_utf16(r);
        let old_text = self.slice_utf16(r16);
        let ghost before = self.history@;
        self.history.push(r.start..r.end, old_text.as_str(), r.start..caret, new_text);
        assert(old(self)@.history.recorded(
            self.history@,
            *r,
            old_text@,
            range(r.start, caret),
            new_text@,
            self.history@.version != before.version,
        ));
    }

    /// Replaces the text in `range_utf16` (when `None`: the text being
    /// composed, else the selection) by `new_text`, if the input is enabled
    /// and the resulting text valid. Returns whether the text was replaced.
    pub fn replace_text_in_range(&mut self, range_utf16: Option<Range<usize>>, new_text: &str) -> (changed: bool)
        requires
            old(self)@.replace_can_run(range_utf16, new_text@),
        ensures
            old(self)@.replaced(final(self)@, range_utf16, new_text@),
            changed == old(self)@.replace_applies(range_utf16, new_text@),
    {
        if self.disabled {
            return false;
        }
        let r = self.target_range(&range_utf16);
        let pending = splice_text(self.text.as_str(), r.start, r.end, new_text);
        if !self.is_valid_input(pending.as_str()) {
            return false;
        }
        let pending_len = byte_len(pending.as_str());
        proof {
            crate::utf::lemma_splice_len(self.text@, r.start as int, r.end as int, new_text@);
        }
        let caret = r.start + byte_len(new_text);
        let ghost before = self@;
        self.push_history(&r, caret, new_text);
        let ghost h_after = self@.history;
        assert(before.records(h_after, r, new_text@));
        self.text = pending;
        self.selected_range = caret..caret;
        self.marked_range = None;
        assert(self@.accepts =~= old(self)@.accepts);
        assert(self@.history == h_after);
        assert(before == old(self)@);
        true
    }

    /// The byte range a replacement applies to (see `InputView::target_range`).
    fn target_range(&self, range_utf16: &Option<Range<usize>>) -> (r: Range<usize>)
        ensures
            r == self@.target_range(*range_utf16),
    {
        match range_utf16 {
            Some(r16) => self.range_from_utf16(r16),
            None => match &self.marked_range {
                Some(m) => m.start..m.end,
                None => self.selected_range.start..self.selected_range.end,
            },
        }
    }

    /// Replaces the text in `range_utf16` as `replace_text_in_range` does and
    /// marks the new text as being composed by an input method; the
    /// selection becomes `new_selected_range_utf16`, read in the new text and
    /// shifted by the replaced range, where given. Returns whether the text
    /// was replaced.
    pub fn replace_and_mark_text_in_range(
        &mut self,
        range_utf16: Option<Range<usize>>,
        new_text: &str,
        new_selected_range_utf16: Option<Range<usize>>,
    ) -> (changed: bool)
        requires
            old(self)@.mark_can_run(range_utf16, new_text@, new_selected_range_utf16),
        ensures
            old(self)@.replaced_and_marked(final(self)@, range_utf16, new_text@, new_selected_range_utf16),
            changed == old(self)@.replace_applies(range_utf16, new_text@),
    {
        if self.disabled {
            return false;
        }
        let r = self.target_range(&range_utf16);
        let pending = splice_text(self.text.as_str(), r.start, r.end, new_text);
        if !self.is_valid_input(pending.as_str()) {
            return false;
        }
        let pending_len = byte_len(pending.as_str());
        proof {
            crate::utf::lemma_splice_len(self.text@, r.start as int, r.end as int, new_text@);
        }
        let caret = r.start + byte_len(new_text);
        let ghost before = self@;
        self.push_history(&r, caret, new_text);
        let ghost h_after = self@.history;
        assert(before.records(h_after, r, new_text@));
        self.text = pending;
        self.marked_range = Some(r.start..caret);
        self.selected_range = match new_selected_range_utf16 {
            Some(n) => {
                let nr = self.range_from_utf16(&n);
                nr.start + r.start..nr.end + r.end
            },
            None => caret..caret,
        };
        assert(self@.accepts =~= old(self)@.accepts);
        assert(self@.history == h_after);
        assert(before == old(self)@);
        true
    }
}

impl<V: TextValidator> TextInput<V> {
    /// Reverts each change in turn while the history is ignored.
    fn revert_changes(&mut self, changes: &Vec<Change>)
        requires
            old(self)@.history.ignore,
        ensures
            final(self)@ == old(self)@.revert_all(changes@),
    {
        let mut i: usize = 0;
        assert(changes@.skip(0) =~= changes@);
        while i < changes.len()
            invariant
                i <= changes@.len(),
                self@.history.ignore,
                old(self)@.revert_all(changes@) == self@.revert_all(changes@.skip(i as int)),
            decreases changes.len() - i,
        {
            let c = &changes[i];
            let r16 = self.range_to_utf16(&c.new_range);
            proof {
                lemma_utf16_range_on_boundaries(self.text@, r16);
                assert(changes@.skip(i as int).drop_first() =~= changes@.skip(i + 1));
            }
            let ghost before = self@;
            self.replace_text_in_range(Some(r16), c.old_text.as_str());
            proof {
                lemma_replaced_quietly(before, self@, Some(r16), c.old_text@);
            }
            i += 1;
        }
    }

    /// Applies each change again in turn while the history is ignored.
    fn reapply_changes(&mut self, changes: &Vec<Change>)
        requires
            old(self)@.history.ignore,
        ensures
            final(self)@ == old(self)@.reapply_all(changes@),
    {
        let mut i: usize = 0;
        assert(changes@.skip(0) =~= changes@);
        while i < changes.len()
            invariant
                i <= changes@.len(),
                self@.history.ignore,
                old(self)@.reapply_all(changes@) == self@.reapply_all(changes@.skip(i as int)),
            decreases changes.len() - i,
        {
            let c = &changes[i];
            let r16 = self.range_to_utf16(&c.old_range);
            proof {
                lemma_utf16_range_on_boundaries(self.text@, r16);
                assert(changes@.skip(i as int).drop_first() =~= changes@.skip(i + 1));
            }
            let ghost before = self@;
            self.replace_text_in_range(Some(r16), c.new_text.as_str());
            proof {
                lemma_replaced_quietly(before, self@, Some(r16), c.new_text@);
            }
            i += 1;
        }
    }

    /// Undoes the last group of changes: each change's inserted text is
    /// replaced by the text it removed, top change first. Nothing is recorded
    /// meanwhile, and afterwards the history records again.
    pub fn undo(&mut self)
        ensures
            final(self)@ == old(self)@.after_undo(),
    {
        let ghost h = old(self)@.history;
        self.history.set_ignore(true);
        assert(self@ == old(self)@.with_history(h, true));
        let ghost quiet = old(self)@.with_history(h.undone(), true);
        let ghost changes = old(self)@.undo_changes();
        match self.history.undo() {
            Some(cs) => {
                assert(self@ == quiet);
                self.revert_changes(&cs);
            },
            None => {
                assert(self@ == quiet);
            },
        }
        proof {
            lemma_revert_all_keeps(quiet, changes);
        }
        self.history.set_ignore(false);
    }

    /// Redoes the last undone group of changes: each change's removed text is
    /// replaced by the text it inserted, top change first. Nothing is
    /// recorded meanwhile, and afterwards the history records again.
    pub fn redo(&mut self)
        ensures
            final(self)@ == old(self)@.after_redo(),
    {
        let ghost h = old(self)@.history;
        self.history.set_ignore(true);
        assert(self@ == old(self)@.with_history(h, true));
        let ghost quiet = old(self)@.with_history(h.redone(), true);
        let ghost changes = old(self)@.redo_changes();
        match self.history.redo() {
            Some(cs) => {
                assert(self@ == quiet);
                self.reapply_changes(&cs);
            },
            None => {
                assert(self@ == quiet);
            },
        }
        proof {
            lemma_reapply_all_keeps(quiet, changes);
        }
        self.history.set_ignore(false);
    }
}

/// Both ends of a UTF-16 range of a text that fits in memory convert to
/// byte offsets at character boundaries.
pub proof fn lemma_utf16_range_on_boundaries(s: Seq<char>, r16: Range<usize>)
    requires
        utf8_len(s) <= usize::MAX,
    ensures
        is_boundary(s, byte_offset_of_utf16(s, r16.start as int) as usize as int),
        is_boundary(s, byte_offset_of_utf16(s, r16.end as int) as usize as int),
{
    crate::utf::lemma_utf16_lands_on_boundary(s, r16.start as int);
    crate::utf::lemma_utf16_lands_on_boundary(s, r16.end as int);
    crate::utf::lemma_boundary_within(s, byte_offset_of_utf16(s, r16.start as int) as int);
    crate::utf::lemma_boundary_within(s, byte_offset_of_utf16(s, r16.end as int) as int);
}

/// Reverting changes while the history is ignored keeps the history and
/// the settings of the input.
pub proof fn lemma_revert_all_keeps(v: InputView, changes: Seq<Change>)
    ensures
        ({
            let after = v.revert_all(changes);
            after == (InputView { text: after.text, selected_range: after.selected_range, marked_range: after.marked_range, ..v })
        }),
    decreases changes.len(),
{
    if changes.len() > 0 {
        let c = changes[0];
        let next = v.replaced_quietly(Some(InputView::utf16_range(v.text, c.new_range)), c.old_text@);
        lemma_revert_all_keeps(next, changes.drop_first());
    }
}

/// Applying changes again while the history is ignored keeps the history
/// and the settings of the input.
pub proof fn lemma_reapply_all_keeps(v: InputView, changes: Seq<Change>)
    ensures
        ({
            let after = v.reapply_all(changes);
            after == (InputView { text: after.text, selected_range: after.selected_range, marked_range: after.marked_range, ..v })
        }),
    decreases changes.len(),
{
    if changes.len() > 0 {
        let c = changes[0];
        let next = v.replaced_quietly(Some(InputView::utf16_range(v.text, c.old_range)), c.new_text@);
        lemma_reapply_all_keeps(next, changes.drop_first());
    }
}

/// Undo takes back a replacement: where a replacement began a new group of
/// changes, undoing it brings back the text that stood before it, provided
/// that text is one the input accepts.
pub proof fn lemma_undo_restores_text(v: InputView, after: InputView, range_utf16: Option<Range<usize>>, t: Seq<char>)
    requires
        v.history.wf(),
        !v.history.ignore,
        v.replace_can_run(range_utf16, t),
        v.replace_applies(range_utf16, t),
        v.valid_input(v.text),
        utf8_len(v.pending_text(range_utf16, t)) <= usize::MAX,
        v.replaced(after, range_utf16, t),
        after.history.version != v.history.version,
    ensures
        after.after_undo().text == v.text,
{
    let s = v.text;
    let r = v.target_range(range_utf16);
    let caret = (r.start + utf8_len(t)) as usize;
    let old_text = InputView::text_in_utf16_range(s, InputView::utf16_range(s, r));
    let new_range = range(r.start, caret);
    let ghost new_group = choose|g: bool|
        v.history.recorded(after.history, r, old_text, new_range, t, g);
    assert(v.history.recorded(after.history, r, old_text, new_range, t, new_group));
    assert(new_group);
    crate::history::lemma_new_group_on_top(v.history, after.history, r, old_text, new_range, t);
    let u = after.history.undos;
    let c = u.last();
    assert(after.undo_changes() =~= seq![c]);
    // The replaced text is the characters between the two boundaries.
    let i = char_index(s, r.start as int);
    let j = char_index(s, r.end as int);
    crate::utf::lemma_boundary_utf16(s, r.start as int);
    crate::utf::lemma_boundary_utf16(s, r.end as int);
    assert(old_text == s.subrange(i, j));
    if j < i {
        crate::utf::lemma_prefix_monotonic(s, j, i);
    }
    crate::utf::lemma_splice_inverse(s, i, j, t);
    crate::utf::lemma_splice_len(s, r.start as int, r.end as int, t);
    let spliced = after.text;
    assert(spliced == splice(s, r.start as int, r.end as int, t));
    // Reverting converts the change's range to UTF-16 and back.
    crate::utf::lemma_boundary_utf16(spliced, r.start as int);
    crate::utf::lemma_boundary_utf16(spliced, caret as int);
    let quiet = after.with_history(after.history.undone(), true);
    let r16 = InputView::utf16_range(spliced, c.new_range);
    assert(quiet.target_range(Some(r16)) == new_range);
    assert(quiet.pending_text(Some(r16), c.old_text@) == s);
    assert(quiet.replace_applies(Some(r16), c.old_text@));
    assert(quiet.revert_all(seq![c]) == quiet.replaced_quietly(Some(r16), c.old_text@).revert_all(
        seq![c].drop_first(),
    ));
}

/// Redo takes back an undo: where a replacement began a new group of
/// changes and was undone, redoing brings back the text it produced.
pub proof fn lemma_redo_restores_text(v: InputView, after: InputView, range_utf16: Option<Range<usize>>, t: Seq<char>)
    requires
        v.history.wf(),
        !v.history.ignore,
        v.replace_can_run(range_utf16, t),
        v.replace_applies(range_utf16, t),
        v.valid_input(v.text),
        utf8_len(v.pending_text(range_utf16, t)) <= usize::MAX,
        v.replaced(after, range_utf16, t),
        after.history.version != v.history.version,
    ensures
        after.after_undo().after_redo().text == after.text,
{
    lemma_undo_restores_text(v, after, range_utf16, t);
    let s = v.text;
    let r = v.target_range(range_utf16);
    let caret = (r.start + utf8_len(t)) as usize;
    let old_text = InputView::text_in_utf16_range(s, InputView::utf16_range(s, r));
    let new_range = range(r.start, caret);
    let ghost new_group = choose|g: bool|
        v.history.recorded(after.history, r, old_text, new_range, t, g);
    assert(v.history.recorded(after.history, r, old_text, new_range, t, new_group));
    crate::history::lemma_new_group_on_top(v.history, after.history, r, old_text, new_range, t);
    let h = after.history;
    let c = h.undos.last();
    let hu = h.undone();
    assert(hu.redos =~= h.redos.push(c)) by {
        assert(h.undos.subrange(h.undos.len() - 1, h.undos.len() as int) =~= seq![c]);
    }
    let quiet_u = after.with_history(hu, true);
    assert(after.undo_changes() =~= seq![c]);
    lemma_revert_all_keeps(quiet_u, seq![c]);
    let u = after.after_undo();
    assert(u.history == (HistoryView { ignore: false, ..hu }));
    // The redo stack's top group is the undone change alone.
    let rs = u.history.redos;
    crate::history::lemma_group_start(rs.drop_last(), c.spec_version());
    assert(rs.drop_last() =~= h.redos);
    assert(crate::history::is_group_start(rs.drop_last(), c.spec_version(), h.redos.len() as int));
    assert(u.redo_changes() =~= seq![c]);
    // Applying it again converts the old range to UTF-16 and back.
    crate::utf::lemma_boundary_utf16(s, r.start as int);
    crate::utf::lemma_boundary_utf16(s, r.end as int);
    let quiet = u.with_history(u.history.redone(), true);
    let r16 = InputView::utf16_range(s, c.old_range);
    assert(quiet.target_range(Some(r16)) == r);
    assert(quiet.pending_text(Some(r16), c.new_text@) == after.text);
    assert(quiet.reapply_all(seq![c]) == quiet.replaced_quietly(Some(r16), c.new_text@).reapply_all(
        seq![c].drop_first(),
    ));
}

/// The texts on either side of the UTF-16 offset of a byte offset: the
/// prefix of `m` characters, whose UTF-16 length is that offset, and the
/// rest of the text.
proof fn lemma_word_context(s: Seq<char>, offset: int, m: int)
    requires
        0 <= m <= s.len(),
        utf16_offset_of_byte(s, offset) == utf16_len(s.take(m)),
        utf8_len(s) <= usize::MAX,
    ensures
        ({
            let at = utf16_offset_of_byte(s, offset);
            &&& at <= utf8_len(s)
            &&& InputView::text_in_utf16_range(s, range(0, at as usize)) == s.take(m)
            &&& InputView::text_in_utf16_range(s, range(at as usize, utf8_len(s) as usize)) == s.skip(m)
            &&& at + utf16_len(s.skip(m)) == utf16_len(s)
            &&& utf16_len(s) <= utf8_len(s)
            &&& byte_offset_of_utf16(s, 0) == 0
            &&& at <= byte_offset_of_utf16(s, at as int) <= utf8_len(s)
        }),
{
    let at = utf16_offset_of_byte(s, offset);
    crate::utf::lemma_utf8_of_boundary(s, m);
    crate::utf::lemma_char_index(s, m);
    crate::utf::lemma_char_index(s, 0);
    assert(s.take(0) =~= Seq::<char>::empty());
    crate::utf::lemma_utf16_within_utf8(s);
    crate::utf::lemma_utf16_within_utf8(s.take(m));
    crate::utf::lemma_utf16_len_concat(s.take(m), s.skip(m));
    crate::utf::lemma_utf8_len_concat(s.take(m), s.skip(m));
    assert(s.take(m) + s.skip(m) =~= s);
    crate::utf::lemma_utf16_walk_past_end(s, utf8_len(s) as int);
    crate::utf::lemma_full_prefix(s);
    assert(s.subrange(0, m) =~= s.take(m));
    assert(s.subrange(m, s.len() as int) =~= s.skip(m));
}

/// A longer UTF-16 offset walks at least as far.
pub proof fn lemma_utf16_walk_monotonic(s: Seq<char>, a: int, b: int)
    requires
        a <= b,
    ensures
        byte_offset_of_utf16(s, a) <= byte_offset_of_utf16(s, b),
    decreases s.len(),
{
    if s.len() > 0 && a > 0 {
        lemma_utf16_walk_monotonic(s.drop_first(), a - crate::utf::utf16_width(s[0]), b - crate::utf::utf16_width(s[0]));
    }
}

} // verus!
