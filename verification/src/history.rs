//! Undo and redo history of text changes.
//!
//! Changes made close together in time share a version number; undo and
//! redo move a whole group of changes with one version at a time.

use std::ops::Range;
use std::time::{Duration, Instant};
use vstd::prelude::*;

verus! {

/// At most this many changes are kept for undo by `push`.
pub const MAX_UNDO: usize = 1000;

/// Changes recorded less than this many milliseconds apart share a version.
pub const GROUP_INTERVAL: u64 = 500;

#[verifier::external_type_specification]
#[verifier::external_body]
pub struct ExInstant(Instant);

/// One replacement of text: `old_text` at byte range `old_range` was replaced
/// by `new_text`, which now occupies `new_range`.
#[derive(Debug)]
pub struct Change {
    pub old_range: Range<usize>,
    pub old_text: String,
    pub new_range: Range<usize>,
    pub new_text: String,
    pub version: usize,
}

impl Change {
    pub open spec fn spec_version(&self) -> usize {
        self.version
    }

    /// The change replaced `old_text` at `old_range` by `new_text` at
    /// `new_range`, and has version `version`.
    pub open spec fn has_parts(
        &self,
        old_range: Range<usize>,
        old_text: Seq<char>,
        new_range: Range<usize>,
        new_text: Seq<char>,
        version: usize,
    ) -> bool {
        &&& self.old_range == old_range
        &&& self.old_text@ == old_text
        &&& self.new_range == new_range
        &&& self.new_text@ == new_text
        &&& self.spec_version() == version
    }

    /// A change of version zero.
    pub fn new(old_range: Range<usize>, old_text: &str, new_range: Range<usize>, new_text: &str) -> (c: Self)
        ensures
            c.old_range == old_range,
            c.old_text@ == old_text@,
            c.new_range == new_range,
            c.new_text@ == new_text@,
            c.spec_version() == 0,
    {
        Change {
            old_range,
            old_text: old_text.to_owned(),
            new_range,
            new_text: new_text.to_owned(),
            version: 0,
        }
    }

    pub fn version(&self) -> (v: usize)
        ensures
            v == self.spec_version(),
    {
        self.version
    }

    pub fn set_version(&mut self, version: usize)
        ensures
            final(self).spec_version() == version,
            final(self).old_range == old(self).old_range,
            final(self).old_text == old(self).old_text,
            final(self).new_range == old(self).new_range,
            final(self).new_text == old(self).new_text,
    {
        self.version = version;
    }

    /// An exact copy of the change.
    pub fn duplicate(&self) -> (c: Self)
        ensures
            c == *self,
    {
        Change {
            old_range: self.old_range.start..self.old_range.end,
            old_text: self.old_text.clone(),
            new_range: self.new_range.start..self.new_range.end,
            new_text: self.new_text.clone(),
            version: self.version,
        }
    }
}

impl Clone for Change {
    fn clone(&self) -> (c: Self)
        ensures
            c == *self,
    {
        self.duplicate()
    }
}

/// What a history holds: the undo stack and redo stack (last element on
/// top), the current version and whether recording is suspended.
pub ghost struct HistoryView {
    pub undos: Seq<Change>,
    pub redos: Seq<Change>,
    pub version: usize,
    pub ignore: bool,
}

/// `j` is where the group of changes with version `v` begins in `s`: no
/// element before `j` has version `v`, and the element at `j`, if any, has it.
pub open spec fn is_group_start(s: Seq<Change>, v: usize, j: int) -> bool {
    &&& 0 <= j <= s.len()
    &&& forall|i: int| 0 <= i < j ==> (#[trigger] s[i]).spec_version() != v
    &&& j < s.len() ==> s[j].spec_version() == v
}

/// The first index of `s` holding version `v`, or the length of `s` if none does.
pub open spec fn group_start(s: Seq<Change>, v: usize) -> int {
    choose|j: int| is_group_start(s, v, j)
}

/// Where the top group of a non-empty stack begins: the top element leaves,
/// and then elements keep leaving while the rest still holds its version.
pub open spec fn top_group_start(s: Seq<Change>) -> int {
    group_start(s.drop_last(), s.last().spec_version())
}

/// `group_start` finds where the group of version `v` starts, and no other
/// index does.
pub proof fn lemma_group_start(s: Seq<Change>, v: usize)
    ensures
        is_group_start(s, v, group_start(s, v)),
        forall|j: int| is_group_start(s, v, j) ==> j == group_start(s, v),
    decreases s.len(),
{
    if s.len() == 0 {
        assert(is_group_start(s, v, 0));
    } else if s[0].spec_version() == v {
        assert(is_group_start(s, v, 0));
    } else {
        lemma_group_start(s.drop_first(), v);
        let j = group_start(s.drop_first(), v);
        assert forall|i: int| 0 <= i < j + 1 implies (#[trigger] s[i]).spec_version() != v by {
            if i > 0 {
                assert(s[i] == s.drop_first()[i - 1]);
            }
        }
        assert(is_group_start(s, v, j + 1));
    }
    assert forall|j: int| is_group_start(s, v, j) implies j == group_start(s, v) by {
        let g = group_start(s, v);
        if j < g {
            assert(s[j].spec_version() != v);
        } else if g < j {
            assert(s[g].spec_version() != v);
        }
    }
}

pub struct History {
    undos: Vec<Change>,
    redos: Vec<Change>,
    last_changed_at: Instant,
    pub version: usize,
    /// While set, the text input records no changes.
    ignore: bool,
}

impl View for History {
    type V = HistoryView;

    closed spec fn view(&self) -> HistoryView {
        HistoryView {
            undos: self.undos@,
            redos: self.redos@,
            version: self.version,
            ignore: self.ignore,
        }
    }
}

/// The current instant (`std::time::Instant::now`). Nothing is stated of it.
#[verifier::external_body]
fn instant_now() -> Instant {
    Instant::now()
}

/// The time elapsed since `t` (`std::time::Instant::elapsed`). The clock
/// decides the result: nothing is stated of it.
#[verifier::external_body]
fn elapsed_since(t: &Instant) -> Duration {
    t.elapsed()
}

/// The whole milliseconds of a duration (`std::time::Duration::as_millis`).
/// Nothing is stated of it.
#[verifier::external_body]
fn whole_millis(d: &Duration) -> u128 {
    d.as_millis()
}

proof fn lemma_reverse_extend(s: Seq<Change>, a: int, b: int)
    requires
        0 < a <= b <= s.len(),
    ensures
        s.subrange(a - 1, b).reverse() =~= s.subrange(a, b).reverse().push(s[a - 1]),
{
    let l = s.subrange(a - 1, b).reverse();
    let r = s.subrange(a, b).reverse().push(s[a - 1]);
    assert(l.len() == r.len());
    assert forall|i: int| 0 <= i < l.len() implies l[i] == r[i] by {
        if i < b - a {
            assert(r[i] == s.subrange(a, b).reverse()[i]);
        }
    }
}

/// The version after `elapsed` milliseconds: one more where more than
/// `GROUP_INTERVAL` passed, the same otherwise.
pub fn next_version(version: usize, elapsed: u128) -> (r: usize)
    requires
        version < usize::MAX,
    ensures
        r == if elapsed > GROUP_INTERVAL as u128 { (version + 1) as usize } else { version },
{
    if elapsed > GROUP_INTERVAL as u128 {
        version + 1
    } else {
        version
    }
}

/// Copies `changes` in reverse order onto the end of `stack`.
fn extend_reversed(stack: &mut Vec<Change>, changes: &Vec<Change>)
    ensures
        final(stack)@ == old(stack)@ + changes@.reverse(),
{
    let mut i: usize = changes.len();
    while i > 0
        invariant
            i <= changes.len(),
            stack@ == old(stack)@ + changes@.subrange(i as int, changes.len() as int).reverse(),
        decreases i,
    {
        i = i - 1;
        let c = changes[i].duplicate();
        stack.push(c);
        assert(changes@.subrange(i as int, changes.len() as int).reverse() =~= changes@.subrange(
            (i + 1) as int,
            changes.len() as int,
        ).reverse().push(changes@[i as int]));
    }
    assert(changes@.subrange(0, changes.len() as int) =~= changes@);
}

/// Whether some element of `s` has version `v`.
fn holds_version(s: &Vec<Change>, v: usize) -> (r: bool)
    ensures
        r <==> exists|i: int| 0 <= i < s@.len() && (#[trigger] s@[i]).spec_version() == v,
{
    let mut i: usize = 0;
    while i < s.len()
        invariant
            i <= s@.len(),
            forall|k: int| 0 <= k < i ==> (#[trigger] s@[k]).spec_version() != v,
        decreases s.len() - i,
    {
        if s[i].version == v {
            return true;
        }
        i += 1;
    }
    false
}

/// Pops the top group off `stack`: the elements that leave, in the order
/// they left (top first).
fn pop_group(stack: &mut Vec<Change>) -> (changes: Vec<Change>)
    requires
        old(stack)@.len() > 0,
    ensures
        ({
            let s = old(stack)@;
            let k = top_group_start(s);
            &&& 0 <= k < s.len()
            &&& final(stack)@ == s.take(k)
            &&& changes@ == s.subrange(k, s.len() as int).reverse()
        }),
{
    let ghost s = stack@;
    let ghost n = s.len() as int;
    proof {
        lemma_group_start(s.drop_last(), s.last().spec_version());
    }
    let ghost k = top_group_start(s);
    let first = stack.pop().unwrap();
    let v = first.version;
    let mut changes = vec![first];
    assert(changes@ =~= s.subrange(n - 1, n).reverse());
    while holds_version(stack, v)
        invariant
            n == s.len(),
            n > 0,
            k <= stack@.len() <= n - 1,
            is_group_start(s.drop_last(), v, k),
            v == s.last().spec_version(),
            stack@ == s.take(stack@.len() as int),
            changes@ == s.subrange(stack@.len() as int, n).reverse(),
        decreases stack@.len(),
    {
        let ghost len = stack@.len() as int;
        assert(len > k) by {
            let i = choose|i: int| 0 <= i < stack@.len() && (#[trigger] stack@[i]).spec_version() == v;
            assert(stack@[i] == s[i]);
            assert(s.drop_last()[i] == s[i]);
        }
        let c = stack.pop().unwrap();
        changes.push(c);
        proof { lemma_reverse_extend(s, len, n); }
        assert(stack@ =~= s.take(len - 1));
    }
    assert(stack@.len() == k) by {
        if stack@.len() > k {
            assert(s.drop_last()[k].spec_version() == v);
            assert(stack@[k] == s.drop_last()[k]);
        }
    }
    changes
}

impl History {
    pub fn new() -> (h: Self)
        ensures
            h@.undos.len() == 0,
            h@.redos.len() == 0,
            h@.version == 0,
            !h@.ignore,
    {
        History {
            undos: Vec::new(),
            redos: Vec::new(),
            ignore: false,
            last_changed_at: instant_now(),
            version: 0,
        }
    }

    /// Whether recording is suspended.
    pub fn ignore(&self) -> (r: bool)
        ensures
            r == self@.ignore,
    {
        self.ignore
    }

    /// Suspends or resumes recording.
    pub fn set_ignore(&mut self, ignore: bool)
        ensures
            final(self)@ == (HistoryView { ignore, ..old(self)@ }),
    {
        self.ignore = ignore;
    }

    /// Records a change made now. The change joins the current version group
    /// unless more than `GROUP_INTERVAL` milliseconds passed since the last
    /// recorded change; the clock decides which.
    pub fn push(&mut self, old_range: Range<usize>, old_text: &str, new_range: Range<usize>, new_text: &str)
        requires
            old(self)@.version < usize::MAX,
        ensures
            old(self)@.recorded(
                final(self)@,
                old_range,
                old_text@,
                new_range,
                new_text@,
                final(self)@.version != old(self)@.version,
            ),
    {
        let version = self.inc_version();
        self.store(old_range, old_text, new_range, new_text, version);
    }

    /// Moves to the next version where more than `GROUP_INTERVAL`
    /// milliseconds passed since the last change (the clock decides), and
    /// returns the version for a change made now.
    pub fn inc_version(&mut self) -> (v: usize)
        requires
            old(self)@.version < usize::MAX,
        ensures
            final(self)@ == (HistoryView { version: v, ..old(self)@ }),
            v == old(self)@.version || v == old(self)@.version + 1,
    {
        let t = instant_now();
        let elapsed = whole_millis(&elapsed_since(&self.last_changed_at));
        self.last_changed_at = t;
        self.version = next_version(self.version, elapsed);
        self.version
    }

    /// Records a change, given the milliseconds elapsed since the previous one.
    pub fn record(
        &mut self,
        old_range: Range<usize>,
        old_text: &str,
        new_range: Range<usize>,
        new_text: &str,
        elapsed_millis: u128,
    )
        requires
            old(self)@.version < usize::MAX,
        ensures
            old(self)@.recorded(
                final(self)@,
                old_range,
                old_text@,
                new_range,
                new_text@,
                elapsed_millis > GROUP_INTERVAL as u128,
            ),
    {
        self.version = next_version(self.version, elapsed_millis);
        let version = self.version;
        self.store(old_range, old_text, new_range, new_text, version);
    }

    /// Adds a change of `version` on top of the undo stack, dropping the
    /// bottom change where the stack is full.
    fn store(&mut self, old_range: Range<usize>, old_text: &str, new_range: Range<usize>, new_text: &str, version: usize)
        requires
            version == old(self)@.version,
        ensures
            old(self)@.recorded(final(self)@, old_range, old_text@, new_range, new_text@, false),
    {
        let ghost kept = if old(self)@.undos.len() >= MAX_UNDO {
            old(self)@.undos.drop_first()
        } else {
            old(self)@.undos
        };
        if self.undos.len() >= MAX_UNDO {
            self.undos.remove(0);
            assert(self.undos@ =~= old(self)@.undos.drop_first());
        }
        self.undos.push(
            Change {
                old_range,
                old_text: old_text.to_owned(),
                new_range,
                new_text: new_text.to_owned(),
                version,
            },
        );
        assert(self.undos@.drop_last() =~= kept);
    }

    /// Takes the top group of changes off the undo stack and puts it on the
    /// redo stack. The changes come back top first, the order in which they
    /// are to be reverted.
    pub fn undo(&mut self) -> (r: Option<Vec<Change>>)
        ensures
            final(self)@ == old(self)@.undone(),
            match r {
                None => old(self)@.undos.len() == 0,
                Some(changes) => {
                    let s = old(self)@.undos;
                    &&& s.len() > 0
                    &&& changes@ == s.subrange(top_group_start(s), s.len() as int).reverse()
                },
            },
    {
        if self.undos.len() == 0 {
            return None;
        }
        let changes = pop_group(&mut self.undos);
        extend_reversed(&mut self.redos, &changes);
        proof {
            let s = old(self)@.undos;
            let k = top_group_start(s);
            assert(changes@.reverse() =~= s.subrange(k, s.len() as int));
        }
        Some(changes)
    }

    /// Takes the top group of changes off the redo stack and puts it back on
    /// the undo stack. The changes come back top first.
    pub fn redo(&mut self) -> (r: Option<Vec<Change>>)
        ensures
            final(self)@ == old(self)@.redone(),
            match r {
                None => old(self)@.redos.len() == 0,
                Some(changes) => {
                    let s = old(self)@.redos;
                    &&& s.len() > 0
                    &&& changes@ == s.subrange(top_group_start(s), s.len() as int).reverse()
                },
            },
    {
        if self.redos.len() == 0 {
            return None;
        }
        let changes = pop_group(&mut self.redos);
        extend_reversed(&mut self.undos, &changes);
        proof {
            let s = old(self)@.redos;
            let k = top_group_start(s);
            assert(changes@.reverse() =~= s.subrange(k, s.len() as int));
        }
        Some(changes)
    }
}

impl HistoryView {
    /// `after` is this history with a change recorded; `new_group` says
    /// whether the change starts a new version group. When the undo stack
    /// is full its bottom change is dropped.
    pub open spec fn recorded(
        self,
        after: HistoryView,
        old_range: Range<usize>,
        old_text: Seq<char>,
        new_range: Range<usize>,
        new_text: Seq<char>,
        new_group: bool,
    ) -> bool {
        let version = if new_group { (self.version + 1) as usize } else { self.version };
        let kept = if self.undos.len() >= MAX_UNDO { self.undos.drop_first() } else { self.undos };
        &&& after.version == version
        &&& after.redos == self.redos
        &&& after.ignore == self.ignore
        &&& after.undos.len() == kept.len() + 1
        &&& after.undos.drop_last() == kept
        &&& after.undos.last().has_parts(old_range, old_text, new_range, new_text, version)
    }

    /// No recorded change carries a version beyond the current one.
    pub open spec fn wf(self) -> bool {
        &&& forall|i: int| 0 <= i < self.undos.len() ==> (#[trigger] self.undos[i]).spec_version() <= self.version
        &&& forall|i: int| 0 <= i < self.redos.len() ==> (#[trigger] self.redos[i]).spec_version() <= self.version
    }

    /// The history after an undo: the top group moves, in its order, from
    /// the undo stack to the redo stack. Nothing changes when there is
    /// nothing to undo.
    pub open spec fn undone(self) -> HistoryView {
        if self.undos.len() == 0 {
            self
        } else {
            let k = top_group_start(self.undos);
            HistoryView {
                undos: self.undos.take(k),
                redos: self.redos + self.undos.subrange(k, self.undos.len() as int),
                ..self
            }
        }
    }

    /// The history after a redo: the top group moves from the redo stack
    /// back to the undo stack.
    pub open spec fn redone(self) -> HistoryView {
        if self.redos.len() == 0 {
            self
        } else {
            let k = top_group_start(self.redos);
            HistoryView {
                redos: self.redos.take(k),
                undos: self.undos + self.redos.subrange(k, self.redos.len() as int),
                ..self
            }
        }
    }
}

/// Redo reverts an undo: after undoing the top group, redoing brings back
/// both stacks as they were, provided the redo stack held no change of the
/// undone group's version.
pub proof fn lemma_redo_after_undo(h: HistoryView)
    requires
        h.undos.len() > 0,
        forall|i: int| 0 <= i < h.redos.len() ==> (#[trigger] h.redos[i]).spec_version() != h.undos.last().spec_version(),
    ensures
        h.undone().redone() == h,
{
    lemma_move_group_back(h.undos, h.redos);
    let s = h.undos;
    let r = h.redos;
    let k = top_group_start(s);
    let u = h.undone();
    let moved = r + s.subrange(k, s.len() as int);
    assert(u.redos == moved);
    assert(moved.take(r.len() as int) =~= r);
    assert(moved.subrange(r.len() as int, moved.len() as int) =~= s.subrange(k, s.len() as int));
    assert(s.take(k) + s.subrange(k, s.len() as int) =~= s);
    assert(u.redone().undos =~= s);
    assert(u.redone().redos =~= r);
}

/// Undo reverts a redo: after redoing the top group, undoing brings back
/// both stacks as they were, provided the undo stack held no change of the
/// redone group's version.
pub proof fn lemma_undo_after_redo(h: HistoryView)
    requires
        h.redos.len() > 0,
        forall|i: int| 0 <= i < h.undos.len() ==> (#[trigger] h.undos[i]).spec_version() != h.redos.last().spec_version(),
    ensures
        h.redone().undone() == h,
{
    lemma_move_group_back(h.redos, h.undos);
    let s = h.redos;
    let r = h.undos;
    let k = top_group_start(s);
    let u = h.redone();
    let moved = r + s.subrange(k, s.len() as int);
    assert(u.undos == moved);
    assert(moved.take(r.len() as int) =~= r);
    assert(moved.subrange(r.len() as int, moved.len() as int) =~= s.subrange(k, s.len() as int));
    assert(s.take(k) + s.subrange(k, s.len() as int) =~= s);
    assert(u.undone().redos =~= s);
    assert(u.undone().undos =~= r);
}

/// Moving the top group of `s` onto `r` and then moving the top group of
/// the result back splits at the old length of `r`.
proof fn lemma_move_group_back(s: Seq<Change>, r: Seq<Change>)
    requires
        s.len() > 0,
        forall|i: int| 0 <= i < r.len() ==> (#[trigger] r[i]).spec_version() != s.last().spec_version(),
    ensures
        ({
            let k = top_group_start(s);
            let moved = r + s.subrange(k, s.len() as int);
            &&& 0 <= k < s.len()
            &&& top_group_start(moved) == r.len()
        }),
{
    let v = s.last().spec_version();
    lemma_group_start(s.drop_last(), v);
    let k = top_group_start(s);
    let g = s.subrange(k, s.len() as int);
    let moved = r + g;
    assert(moved.last() == s.last());
    lemma_group_start(moved.drop_last(), v);
    assert(is_group_start(moved.drop_last(), v, r.len() as int)) by {
        assert forall|i: int| 0 <= i < r.len() implies (#[trigger] moved.drop_last()[i]).spec_version() != v by {
            assert(moved.drop_last()[i] == r[i]);
        }
        if r.len() < moved.drop_last().len() {
            assert(moved.drop_last()[r.len() as int] == s[k]);
            if k < s.len() - 1 {
                assert(s[k] == s.drop_last()[k]);
            }
        }
    }
}

/// Recording a change keeps every version at most the current one.
pub proof fn lemma_recorded_wf(
    h: HistoryView,
    after: HistoryView,
    old_range: Range<usize>,
    old_text: Seq<char>,
    new_range: Range<usize>,
    new_text: Seq<char>,
    new_group: bool,
)
    requires
        h.wf(),
        h.version < usize::MAX,
        h.recorded(after, old_range, old_text, new_range, new_text, new_group),
    ensures
        after.wf(),
{
    let kept = if h.undos.len() >= MAX_UNDO { h.undos.drop_first() } else { h.undos };
    assert forall|i: int| 0 <= i < after.undos.len() implies (#[trigger] after.undos[i]).spec_version() <= after.version by {
        if i < after.undos.len() - 1 {
            assert(after.undos[i] == after.undos.drop_last()[i]);
            if h.undos.len() >= MAX_UNDO {
                assert(kept[i] == h.undos[i + 1]);
            }
        }
    }
}

/// Undo and redo keep every version at most the current one.
pub proof fn lemma_moves_wf(h: HistoryView)
    requires
        h.wf(),
    ensures
        h.undone().wf(),
        h.redone().wf(),
{
    if h.undos.len() > 0 {
        lemma_group_start(h.undos.drop_last(), h.undos.last().spec_version());
        let k = top_group_start(h.undos);
        let u = h.undone();
        assert forall|i: int| 0 <= i < u.redos.len() implies (#[trigger] u.redos[i]).spec_version() <= u.version by {
            if i >= h.redos.len() {
                assert(u.redos[i] == h.undos[k + i - h.redos.len()]);
            }
        }
        assert forall|i: int| 0 <= i < u.undos.len() implies (#[trigger] u.undos[i]).spec_version() <= u.version by {
            assert(u.undos[i] == h.undos[i]);
        }
    }
    if h.redos.len() > 0 {
        lemma_group_start(h.redos.drop_last(), h.redos.last().spec_version());
        let k = top_group_start(h.redos);
        let u = h.redone();
        assert forall|i: int| 0 <= i < u.undos.len() implies (#[trigger] u.undos[i]).spec_version() <= u.version by {
            if i >= h.undos.len() {
                assert(u.undos[i] == h.redos[k + i - h.undos.len()]);
            }
        }
        assert forall|i: int| 0 <= i < u.redos.len() implies (#[trigger] u.redos[i]).spec_version() <= u.version by {
            assert(u.redos[i] == h.redos[i]);
        }
    }
}

/// Where a change starts a new group, the top group of the undo stack is
/// that change alone.
pub proof fn lemma_new_group_on_top(
    h: HistoryView,
    after: HistoryView,
    old_range: Range<usize>,
    old_text: Seq<char>,
    new_range: Range<usize>,
    new_text: Seq<char>,
)
    requires
        h.wf(),
        h.version < usize::MAX,
        h.recorded(after, old_range, old_text, new_range, new_text, true),
    ensures
        after.undos.len() > 0,
        top_group_start(after.undos) == after.undos.len() - 1,
{
    let s = after.undos;
    let v = s.last().spec_version();
    let kept = if h.undos.len() >= MAX_UNDO { h.undos.drop_first() } else { h.undos };
    lemma_group_start(s.drop_last(), v);
    assert(is_group_start(s.drop_last(), v, s.len() - 1)) by {
        assert forall|i: int| 0 <= i < s.len() - 1 implies (#[trigger] s.drop_last()[i]).spec_version() != v by {
            assert(s.drop_last()[i] == kept[i]);
            if h.undos.len() >= MAX_UNDO {
                assert(kept[i] == h.undos[i + 1]);
            }
        }
    }
}

/// Recording a change never lets the undo stack grow beyond `MAX_UNDO`.
pub proof fn lemma_record_bounded(
    h: HistoryView,
    after: HistoryView,
    old_range: Range<usize>,
    old_text: Seq<char>,
    new_range: Range<usize>,
    new_text: Seq<char>,
    new_group: bool,
)
    requires
        h.undos.len() <= MAX_UNDO,
        h.recorded(after, old_range, old_text, new_range, new_text, new_group),
    ensures
        after.undos.len() <= MAX_UNDO,
        after.redos == h.redos,
{
}

} // verus!
