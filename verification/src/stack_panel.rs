//! The panels of a stack panel: side by side along one axis, each at most
//! once. Panels are named by their entity ids.

use crate::dock::{Axis, Placement};
use crate::tab_panel::{distinct, holds, index_of, position};
use vstd::prelude::*;

verus! {

/// What a stack panel holds.
pub ghost struct StackPanelView {
    pub axis: Axis,
    pub panels: Seq<u64>,
    pub has_parent: bool,
}

pub struct StackPanel {
    axis: Axis,
    panels: Vec<u64>,
    has_parent: bool,
}

impl View for StackPanel {
    type V = StackPanelView;

    closed spec fn view(&self) -> StackPanelView {
        StackPanelView { axis: self.axis, panels: self.panels@, has_parent: self.has_parent }
    }
}

/// Where a panel inserted at `ix` into `panels` goes: `ix`, or the end
/// where `ix` is past it.
pub open spec fn clamp_index(panels: Seq<u64>, ix: int) -> int {
    if ix > panels.len() {
        panels.len() as int
    } else {
        ix
    }
}

/// `panels` after inserting `id` at `ix` (clamped to the end), unless it
/// holds `id` already.
pub open spec fn insert_once(panels: Seq<u64>, id: u64, ix: int) -> Seq<u64> {
    if holds(panels, id) {
        panels
    } else {
        panels.insert(clamp_index(panels, ix), id)
    }
}

impl StackPanelView {
    /// Where a panel inserted at `ix` goes: `ix`, or the end where `ix` is
    /// past it.
    pub open spec fn clamped(self, ix: int) -> int {
        clamp_index(self.panels, ix)
    }

    /// The stack after inserting `id` at `ix` (clamped to the end), unless
    /// it holds `id` already.
    pub open spec fn inserted(self, id: u64, ix: int) -> StackPanelView {
        StackPanelView { panels: insert_once(self.panels, id, ix), ..self }
    }
}

impl StackPanel {
    /// An empty stack along `axis`, with no parent.
    pub fn new(axis: Axis) -> (r: Self)
        ensures
            r@ == (StackPanelView { axis, panels: Seq::empty(), has_parent: false }),
    {
        StackPanel { axis, panels: Vec::new(), has_parent: false }
    }

    /// Another stack now holds this one.
    pub fn set_parent(&mut self)
        ensures
            final(self)@ == (StackPanelView { has_parent: true, ..old(self)@ }),
    {
        self.has_parent = true;
    }

    pub fn panels(&self) -> (r: &Vec<u64>)
        ensures
            r@ == self@.panels,
    {
        &self.panels
    }

    pub fn axis(&self) -> (r: Axis)
        ensures
            r == self@.axis,
    {
        self.axis
    }

    /// Whether no stack holds this one.
    pub fn is_root(&self) -> (r: bool)
        ensures
            r == !self@.has_parent,
    {
        !self.has_parent
    }

    /// Whether this stack holds at most one panel and so do the stacks
    /// above it (`parent_last`, where the parent is known).
    pub fn is_last_panel(&self, parent_last: Option<bool>) -> (r: bool)
        ensures
            r == (self@.panels.len() <= 1 && parent_last != Some(false)),
    {
        if self.panels.len() > 1 {
            return false;
        }
        match parent_last {
            Some(last) => last,
            None => true,
        }
    }

    pub fn panels_len(&self) -> (r: usize)
        ensures
            r == self@.panels.len(),
    {
        self.panels.len()
    }

    /// Where a panel stands in the stack.
    pub fn index_of_panel(&self, id: u64) -> (r: Option<usize>)
        ensures
            r matches Some(i) ==> i < self@.panels.len() && index_of(self@.panels, id) == Some(i as int)
                && self@.panels[i as int] == id,
            r is None ==> index_of(self@.panels, id) is None,
            r is None <==> !holds(self@.panels, id),
    {
        position(&self.panels, id)
    }

    /// Adds a panel at the end, unless it is there; returns where it went.
    pub fn add_panel(&mut self, id: u64) -> (r: Option<usize>)
        ensures
            final(self)@ == old(self)@.inserted(id, old(self)@.panels.len() as int),
            r == if holds(old(self)@.panels, id) { None } else { Some(old(self)@.panels.len() as usize) },
    {
        let n = self.panels.len();
        self.insert_panel(id, n)
    }

    /// Adds a panel at the end, before or after the last one by `placement`.
    pub fn add_panel_at(&mut self, id: u64, placement: Placement) -> (r: Option<usize>)
        requires
            old(self)@.panels.len() < usize::MAX,
        ensures
            final(self)@ == old(self)@.inserted(
                id,
                if placement == Placement::Top || placement == Placement::Left {
                    old(self)@.panels.len() as int
                } else {
                    old(self)@.panels.len() + 1int
                },
            ),
    {
        let n = self.panels.len();
        self.insert_panel_at(id, n, placement)
    }

    /// Inserts a panel before the one at `ix` where `placement` is top or
    /// left, after it otherwise.
    pub fn insert_panel_at(&mut self, id: u64, ix: usize, placement: Placement) -> (r: Option<usize>)
        requires
            ix < usize::MAX,
        ensures
            final(self)@ == old(self)@.inserted(
                id,
                if placement == Placement::Top || placement == Placement::Left { ix as int } else { ix + 1 },
            ),
            r == if holds(old(self)@.panels, id) {
                None
            } else {
                Some(
                    old(self)@.clamped(
                        if placement == Placement::Top || placement == Placement::Left { ix as int } else { ix + 1 },
                    ) as usize,
                )
            },
    {
        match placement {
            Placement::Top | Placement::Left => self.insert_panel_before(id, ix),
            Placement::Right | Placement::Bottom => self.insert_panel_after(id, ix),
        }
    }

    pub fn insert_panel_before(&mut self, id: u64, ix: usize) -> (r: Option<usize>)
        ensures
            final(self)@ == old(self)@.inserted(id, ix as int),
            r == if holds(old(self)@.panels, id) { None } else { Some(old(self)@.clamped(ix as int) as usize) },
    {
        self.insert_panel(id, ix)
    }

    pub fn insert_panel_after(&mut self, id: u64, ix: usize) -> (r: Option<usize>)
        requires
            ix < usize::MAX,
        ensures
            final(self)@ == old(self)@.inserted(id, ix + 1),
            r == if holds(old(self)@.panels, id) { None } else { Some(old(self)@.clamped(ix + 1) as usize) },
    {
        self.insert_panel(id, ix + 1)
    }

    /// Inserts a panel at `ix`, or at the end where `ix` is past it, unless
    /// the stack holds it; returns where it went.
    fn insert_panel(&mut self, id: u64, ix: usize) -> (r: Option<usize>)
        ensures
            final(self)@ == old(self)@.inserted(id, ix as int),
            r == if holds(old(self)@.panels, id) { None } else { Some(old(self)@.clamped(ix as int) as usize) },
    {
        if position(&self.panels, id).is_some() {
            return None;
        }
        let ix = if ix > self.panels.len() {
            self.panels.len()
        } else {
            ix
        };
        self.panels.insert(ix, id);
        Some(ix)
    }

    /// Removes a panel; returns where it stood, if it was there.
    pub fn remove_panel(&mut self, id: u64) -> (r: Option<usize>)
        ensures
            match index_of(old(self)@.panels, id) {
                Some(i) => r == Some(i as usize) && final(self)@ == (StackPanelView {
                    panels: old(self)@.panels.remove(i),
                    ..old(self)@
                }),
                None => r is None && final(self)@ == old(self)@,
            },
    {
        match position(&self.panels, id) {
            Some(ix) => {
                self.panels.remove(ix);
                Some(ix)
            },
            None => None,
        }
    }

    /// Whether the stack should leave its parent: it has one and is empty.
    pub fn should_remove_self(&self) -> (r: bool)
        ensures
            r == (self@.has_parent && self@.panels.len() == 0),
    {
        if self.is_root() {
            return false;
        }
        self.panels.len() == 0
    }

    /// Puts `new_id` where `old_id` stood; returns where that was.
    pub fn replace_panel(&mut self, old_id: u64, new_id: u64) -> (r: Option<usize>)
        ensures
            match index_of(old(self)@.panels, old_id) {
                Some(i) => r == Some(i as usize) && final(self)@ == (StackPanelView {
                    panels: old(self)@.panels.update(i, new_id),
                    ..old(self)@
                }),
                None => r is None && final(self)@ == old(self)@,
            },
    {
        match position(&self.panels, old_id) {
            Some(ix) => {
                self.panels.set(ix, new_id);
                Some(ix)
            },
            None => None,
        }
    }

    /// The first panel, where the stack holds any.
    pub fn first_panel(&self) -> (r: Option<u64>)
        ensures
            r == if self@.panels.len() > 0 { Some(self@.panels[0]) } else { None },
    {
        if self.panels.len() > 0 {
            Some(self.panels[0])
        } else {
            None
        }
    }

    /// The last panel, where the stack holds any.
    pub fn last_panel(&self) -> (r: Option<u64>)
        ensures
            r == if self@.panels.len() > 0 { Some(self@.panels.last()) } else { None },
    {
        if self.panels.len() > 0 {
            Some(self.panels[self.panels.len() - 1])
        } else {
            None
        }
    }

    pub fn remove_all_panels(&mut self)
        ensures
            final(self)@ == (StackPanelView { panels: Seq::empty(), ..old(self)@ }),
    {
        self.panels.clear();
    }

    pub fn set_axis(&mut self, axis: Axis)
        ensures
            final(self)@ == (StackPanelView { axis, ..old(self)@ }),
    {
        self.axis = axis;
    }
}

/// The two tab panels of a split, in order: the new one first where it goes
/// to the top or left.
pub open spec fn split_order(placement: Placement, this_id: u64, new_tab_id: u64) -> (u64, u64) {
    if placement == Placement::Left || placement == Placement::Top {
        (new_tab_id, this_id)
    } else {
        (this_id, new_tab_id)
    }
}

/// A stack holding the two tab panels of a split: emptied, turned to
/// `axis`, then given both in order.
pub open spec fn split_stack(s: StackPanelView, axis: Axis, placement: Placement, this_id: u64, new_tab_id: u64) -> StackPanelView {
    let (a, b) = split_order(placement, this_id, new_tab_id);
    let empty = StackPanelView { panels: Seq::empty(), axis, ..s };
    empty.inserted(a, 0).inserted(b, empty.inserted(a, 0).panels.len() as int)
}

/// Places a new tab panel (`new_tab_id`) beside the tab panel `this_id`,
/// held by `parent`, at the side `placement`. Where `parent` runs along
/// that side, the new tab panel goes into it next to this one. Otherwise,
/// where `parent` holds only this tab panel, it turns to the new axis and
/// holds both; else a new stack (`new_stack_id`) holding both takes this
/// tab panel's place, and is returned.
pub fn split_stacks(
    parent: &mut StackPanel,
    this_id: u64,
    new_tab_id: u64,
    new_stack_id: u64,
    placement: Placement,
) -> (r: Option<StackPanel>)
    ensures
        ({
            let p = old(parent)@;
            let plan = if (p.axis == Axis::Vertical && (placement == Placement::Top || placement == Placement::Bottom))
                || (p.axis == Axis::Horizontal && (placement == Placement::Left || placement == Placement::Right)) {
                0int
            } else if p.panels.len() <= 1 {
                1int
            } else {
                2int
            };
            let axis = if placement == Placement::Top || placement == Placement::Bottom {
                Axis::Vertical
            } else {
                Axis::Horizontal
            };
            let ix = match index_of(p.panels, this_id) {
                Some(i) => i,
                None => 0,
            };
            if plan == 0 {
                &&& r is None
                &&& final(parent)@ == p.inserted(
                    new_tab_id,
                    if placement == Placement::Top || placement == Placement::Left { ix } else { ix + 1 },
                )
            } else if plan == 1 {
                &&& r is None
                &&& final(parent)@ == split_stack(p, axis, placement, this_id, new_tab_id)
            } else {
                &&& r matches Some(n) && n@ == split_stack(
                    StackPanelView { axis, panels: Seq::empty(), has_parent: true },
                    axis,
                    placement,
                    this_id,
                    new_tab_id,
                )
                &&& final(parent)@ == match index_of(p.panels, this_id) {
                    Some(i) => StackPanelView { panels: p.panels.update(i, new_stack_id), ..p },
                    None => p,
                }
            }
        }),
{
    let n = parent.panels_len();
    let plan = crate::tab_panel::split_plan(parent.axis(), placement, n);
    match plan {
        crate::tab_panel::SplitPlan::InsertIntoStack => {
            let ix = match parent.index_of_panel(this_id) {
                Some(i) => i,
                None => 0,
            };
            parent.insert_panel_at(new_tab_id, ix, placement);
            None
        },
        crate::tab_panel::SplitPlan::ReuseStack => {
            parent.remove_all_panels();
            parent.set_axis(placement.axis());
            add_in_order(parent, placement, this_id, new_tab_id);
            None
        },
        crate::tab_panel::SplitPlan::NewStack => {
            let mut stack = StackPanel::new(placement.axis());
            stack.set_parent();
            add_in_order(&mut stack, placement, this_id, new_tab_id);
            parent.replace_panel(this_id, new_stack_id);
            Some(stack)
        },
    }
}

/// Adds the two tab panels of a split to an empty stack, in order.
fn add_in_order(stack: &mut StackPanel, placement: Placement, this_id: u64, new_tab_id: u64)
    requires
        old(stack)@.panels.len() == 0,
    ensures
        final(stack)@ == split_stack(old(stack)@, old(stack)@.axis, placement, this_id, new_tab_id),
{
    let ghost empty = old(stack)@;
    assert(empty.panels =~= Seq::<u64>::empty());
    assert(empty == (StackPanelView { panels: Seq::empty(), axis: empty.axis, ..empty }));
    match placement {
        Placement::Left | Placement::Top => {
            stack.add_panel(new_tab_id);
            stack.add_panel(this_id);
        },
        Placement::Right | Placement::Bottom => {
            stack.add_panel(this_id);
            stack.add_panel(new_tab_id);
        },
    }
}

/// The stack made for a split holds the two tab panels along the split's
/// axis, the new one first where it was dropped on the left or top side and
/// last where it was dropped on the right or bottom side.
pub proof fn lemma_split_stack_order(
    s: StackPanelView,
    axis: Axis,
    placement: Placement,
    this_id: u64,
    new_tab_id: u64,
)
    requires
        this_id != new_tab_id,
    ensures
        split_stack(s, axis, placement, this_id, new_tab_id).axis == axis,
        split_stack(s, axis, placement, this_id, new_tab_id).has_parent == s.has_parent,
        split_stack(s, axis, placement, this_id, new_tab_id).panels.len() == 2,
        (placement == Placement::Left || placement == Placement::Top) ==> {
            &&& split_stack(s, axis, placement, this_id, new_tab_id).panels[0] == new_tab_id
            &&& split_stack(s, axis, placement, this_id, new_tab_id).panels[1] == this_id
        },
        (placement == Placement::Right || placement == Placement::Bottom) ==> {
            &&& split_stack(s, axis, placement, this_id, new_tab_id).panels[0] == this_id
            &&& split_stack(s, axis, placement, this_id, new_tab_id).panels[1] == new_tab_id
        },
{
    let (a, b) = split_order(placement, this_id, new_tab_id);
    let empty = StackPanelView { panels: Seq::empty(), axis, ..s };
    assert(!holds(empty.panels, a));
    let one = empty.inserted(a, 0);
    assert(one.panels =~= seq![a]);
    if holds(one.panels, b) {
        let k = choose|k: int| 0 <= k < one.panels.len() && one.panels[k] == b;
        assert(one.panels[k] == a);
    }
    assert(one.inserted(b, 1).panels =~= seq![a, b]);
}

/// A split along the stack that holds the tab panel puts the new tab panel
/// right beside it: before it where dropped on the left or top side, after
/// it where dropped on the right or bottom side.
pub proof fn lemma_split_inserts_beside(
    p: StackPanelView,
    placement: Placement,
    this_id: u64,
    new_tab_id: u64,
    i: int,
)
    requires
        0 <= i < p.panels.len(),
        p.panels[i] == this_id,
        !holds(p.panels, new_tab_id),
    ensures
        ({
            let q = p.inserted(
                new_tab_id,
                if placement == Placement::Top || placement == Placement::Left { i } else { i + 1 },
            ).panels;
            &&& q.len() == p.panels.len() + 1
            &&& (placement == Placement::Left || placement == Placement::Top) ==> q[i] == new_tab_id && q[i + 1]
                == this_id
            &&& (placement == Placement::Right || placement == Placement::Bottom) ==> q[i] == this_id && q[i + 1]
                == new_tab_id
        }),
{
}

/// Inserting keeps every panel at most once, and the panel is then held.
pub proof fn lemma_insert_once_distinct(panels: Seq<u64>, id: u64, ix: int)
    requires
        distinct(panels),
        0 <= ix,
    ensures
        distinct(insert_once(panels, id, ix)),
        holds(insert_once(panels, id, ix), id),
        insert_once(panels, id, ix).len() == panels.len() + if holds(panels, id) { 0int } else { 1 },
{
    if !holds(panels, id) {
        let k = clamp_index(panels, ix);
        let p = panels.insert(k, id);
        assert forall|i: int, j: int| 0 <= i < j < p.len() implies p[i] != p[j] by {
            if i == k {
                assert(p[j] == panels[j - 1]);
            } else if j == k {
                assert(p[i] == panels[i]);
            } else {
                let a = if i < k { i } else { i - 1 };
                let b = if j < k { j } else { j - 1 };
                assert(p[i] == panels[a]);
                assert(p[j] == panels[b]);
            }
        }
        assert(p[k] == id);
    }
}

/// Inserting into a stack keeps every panel at most once, and the panel is
/// then held.
pub proof fn lemma_inserted_distinct(v: StackPanelView, id: u64, ix: int)
    requires
        distinct(v.panels),
        0 <= ix,
    ensures
        distinct(v.inserted(id, ix).panels),
        holds(v.inserted(id, ix).panels, id),
        v.inserted(id, ix).panels.len() == v.panels.len() + if holds(v.panels, id) { 0int } else { 1 },
{
    lemma_insert_once_distinct(v.panels, id, ix);
}

} // verus!
