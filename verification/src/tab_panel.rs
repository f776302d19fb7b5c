//! The tabs of a tab panel: which panels it holds, in order, which are
//! hidden, and which is active. Panels are named by their entity ids.

use crate::dock::{Axis, DockPlacement, PanelEvent, PanelStyle, Placement};
use crate::icon::IconName;
use crate::menu::{EntryView, PopupMenu, PopupMenuView};
use std::collections::HashMap;
use vstd::prelude::*;

verus! {

/// Whether `id` occurs in `s`.
pub open spec fn holds(s: Seq<u64>, id: u64) -> bool {
    exists|i: int| 0 <= i < s.len() && s[i] == id
}

/// No id occurs twice in `s`.
pub open spec fn distinct(s: Seq<u64>) -> bool {
    forall|i: int, j: int| 0 <= i < j < s.len() ==> s[i] != s[j]
}

/// The ids of `s` that are not hidden, in order.
pub open spec fn visible_of(s: Seq<u64>, hidden: Set<u64>) -> Seq<u64>
    decreases s.len(),
{
    if s.len() == 0 {
        s
    } else if hidden.contains(s.last()) {
        visible_of(s.drop_last(), hidden)
    } else {
        visible_of(s.drop_last(), hidden).push(s.last())
    }
}

/// `s` without the id `id`.
pub open spec fn without(s: Seq<u64>, id: u64) -> Seq<u64>
    decreases s.len(),
{
    if s.len() == 0 {
        s
    } else if s.last() == id {
        without(s.drop_last(), id)
    } else {
        without(s.drop_last(), id).push(s.last())
    }
}

/// Where `id` first occurs in `s`.
pub open spec fn index_of(s: Seq<u64>, id: u64) -> Option<int>
    decreases s.len(),
{
    if s.len() == 0 {
        None
    } else if s[0] == id {
        Some(0)
    } else {
        match index_of(s.drop_first(), id) {
            Some(i) => Some(i + 1),
            None => None,
        }
    }
}

/// How a tab of the tab bar is drawn.
#[derive(Debug, Clone, Copy, PartialEq, Eq, Structural)]
pub struct TabState {
    /// The tab's index among the panels.
    pub ix: usize,
    pub panel: u64,
    /// Drawn as the active tab: never while the tab panel is collapsed.
    pub selected: bool,
    /// Not clickable: all tabs are while the tab panel is collapsed.
    pub disabled: bool,
}

/// The tabs of the tab bar: one for each visible panel, in order.
pub open spec fn tab_states(panels: Seq<u64>, hidden: Set<u64>, active_ix: usize, collapsed: bool) -> Seq<TabState>
    decreases panels.len(),
{
    if panels.len() == 0 {
        Seq::empty()
    } else {
        let rest = tab_states(panels.drop_last(), hidden, active_ix, collapsed);
        let ix = (panels.len() - 1) as usize;
        if hidden.contains(panels.last()) {
            rest
        } else {
            rest.push(
                TabState { ix, panel: panels.last(), selected: ix == active_ix && !collapsed, disabled: collapsed },
            )
        }
    }
}

/// The icon of the button that opens or closes the dock at `placement`.
pub fn dock_toggle_icon(placement: DockPlacement, is_open: bool) -> (r: IconName)
    ensures
        r == match placement {
            DockPlacement::Left => if is_open { IconName::PanelLeft } else { IconName::PanelLeftOpen },
            DockPlacement::Right => if is_open { IconName::PanelRight } else { IconName::PanelRightOpen },
            DockPlacement::Bottom => if is_open { IconName::PanelBottom } else { IconName::PanelBottomOpen },
        },
{
    match placement {
        DockPlacement::Left => if is_open {
            IconName::PanelLeft
        } else {
            IconName::PanelLeftOpen
        },
        DockPlacement::Right => if is_open {
            IconName::PanelRight
        } else {
            IconName::PanelRightOpen
        },
        DockPlacement::Bottom => if is_open {
            IconName::PanelBottom
        } else {
            IconName::PanelBottomOpen
        },
    }
}

/// What a drop on a tab panel leads to.
#[derive(Debug, Clone, Copy, PartialEq, Eq, Structural)]
pub enum DropOutcome {
    /// Nothing happens.
    Ignored,
    /// The panel is to be split off at this side (see `split_stacks`).
    Split(Placement),
    /// The panel now stands among the tabs.
    Placed,
}

/// Whether `name` is the name of a stack panel, which a tab panel may not
/// hold.
pub open spec fn is_stack_panel_name(name: Seq<char>) -> bool {
    name == "StackPanel"@
}

/// The panels that a map of visibilities hides: those it maps to `false`.
pub open spec fn hidden_of(visibility: Map<u64, bool>) -> Set<u64> {
    Set::new(|id: u64| visibility.contains_key(id) && !visibility[id])
}

/// What a tab panel holds.
pub ghost struct TabPanelView {
    pub panels: Seq<u64>,
    pub hidden: Set<u64>,
    pub active_ix: usize,
    pub closable: bool,
    pub zoomed: bool,
    pub collapsed: bool,
    pub in_stack: bool,
    pub will_split: Option<Placement>,
}

/// What to do with a panel dropped next to a tab panel, by the axis of the
/// stack that holds the tab panel and the side of the drop.
#[derive(Debug, Clone, Copy, PartialEq, Eq, Structural)]
pub enum SplitPlan {
    /// The stack runs along the drop: insert the new tab panel into it.
    InsertIntoStack,
    /// The stack holds this tab panel alone: turn it to the drop's axis and
    /// put both tab panels in it.
    ReuseStack,
    /// Put both tab panels into a new stack along the drop's axis, which
    /// takes this tab panel's place.
    NewStack,
}

pub struct TabPanel {
    panels: Vec<u64>,
    invisible_panels: HashMap<u64, bool>,
    active_ix: usize,
    closable: bool,
    is_zoomed: bool,
    is_collapsed: bool,
    in_stack: bool,
    will_split_placement: Option<Placement>,
}

impl View for TabPanel {
    type V = TabPanelView;

    closed spec fn view(&self) -> TabPanelView {
        TabPanelView {
            panels: self.panels@,
            hidden: hidden_of(self.invisible_panels@),
            active_ix: self.active_ix,
            closable: self.closable,
            zoomed: self.is_zoomed,
            collapsed: self.is_collapsed,
            in_stack: self.in_stack,
            will_split: self.will_split_placement,
        }
    }
}

impl TabPanelView {
    /// The panel shown: the active one where it is visible, else the first
    /// visible one; none where the active index is past the panels.
    pub open spec fn active_panel(self) -> Option<u64> {
        if self.active_ix < self.panels.len() {
            let p = self.panels[self.active_ix as int];
            if !self.hidden.contains(p) {
                Some(p)
            } else {
                let v = visible_of(self.panels, self.hidden);
                if v.len() > 0 {
                    Some(v[0])
                } else {
                    None
                }
            }
        } else {
            None
        }
    }

    /// The tab panel after making `ix` the active index.
    pub open spec fn activated(self, ix: usize) -> TabPanelView {
        TabPanelView { active_ix: ix, ..self }
    }

    /// The tab panel after adding `id` at the end, made active where
    /// `active`; nothing changes where it holds `id` already.
    pub open spec fn added(self, id: u64, active: bool) -> TabPanelView {
        if holds(self.panels, id) {
            self
        } else {
            let p = self.panels.push(id);
            TabPanelView {
                panels: p,
                active_ix: if active { (p.len() - 1) as usize } else { self.active_ix },
                ..self
            }
        }
    }

    /// The tab panel after taking `id` out: where the active index is then
    /// past the panels, the last panel becomes active.
    pub open spec fn detached(self, id: u64) -> TabPanelView {
        let p = without(self.panels, id);
        TabPanelView {
            panels: p,
            active_ix: if self.active_ix >= p.len() {
                if p.len() == 0 { 0 } else { (p.len() - 1) as usize }
            } else {
                self.active_ix
            },
            ..self
        }
    }
}

/// What a new tab panel outside any stack holds.
pub open spec fn new_tab_panel_view() -> TabPanelView {
    TabPanelView {
        panels: Seq::empty(),
        hidden: Set::empty(),
        active_ix: 0,
        closable: true,
        zoomed: false,
        collapsed: false,
        in_stack: false,
        will_split: None,
    }
}

/// `v` after adding each of `ids` in turn, each made active.
pub open spec fn added_all(v: TabPanelView, ids: Seq<u64>) -> TabPanelView
    decreases ids.len(),
{
    if ids.len() == 0 {
        v
    } else {
        added_all(v, ids.drop_last()).added(ids.last(), true)
    }
}

proof fn lemma_visible_step(s: Seq<u64>, hidden: Set<u64>, k: int)
    requires
        0 <= k < s.len(),
    ensures
        visible_of(s.take(k + 1), hidden) == if hidden.contains(s[k]) {
            visible_of(s.take(k), hidden)
        } else {
            visible_of(s.take(k), hidden).push(s[k])
        },
{
    assert(s.take(k + 1).drop_last() =~= s.take(k));
}

proof fn lemma_without_step(s: Seq<u64>, id: u64, k: int)
    requires
        0 <= k < s.len(),
    ensures
        without(s.take(k + 1), id) == if s[k] == id {
            without(s.take(k), id)
        } else {
            without(s.take(k), id).push(s[k])
        },
{
    assert(s.take(k + 1).drop_last() =~= s.take(k));
}

/// The ids that remain after taking `id` out are those of `s` but `id`.
pub proof fn lemma_without_holds(s: Seq<u64>, id: u64, x: u64)
    ensures
        holds(without(s, id), x) <==> (holds(s, x) && x != id),
        without(s, id).len() <= s.len(),
        distinct(s) ==> distinct(without(s, id)),
    decreases s.len(),
{
    if s.len() > 0 {
        let t = s.drop_last();
        let l = s.last();
        lemma_without_holds(t, id, x);
        lemma_holds_push(t, l, x);
        assert(t.push(l) =~= s);
        let w = without(t, id);
        if l != id {
            lemma_holds_push(w, l, x);
            if distinct(s) {
                lemma_distinct_drop_last(s);
                lemma_without_holds(t, id, l);
                assert(!holds(t, l)) by {
                    if holds(t, l) {
                        let i = choose|i: int| 0 <= i < t.len() && t[i] == l;
                        assert(s[i] == s[s.len() - 1]);
                    }
                }
                assert forall|i: int, j: int| 0 <= i < j < w.push(l).len() implies w.push(l)[i] != w.push(l)[j] by {
                    if j == w.len() && w[i] == l {
                        assert(holds(w, l));
                    }
                }
            }
        } else if distinct(s) {
            lemma_distinct_drop_last(s);
        }
    }
}

/// `s` with `l` pushed holds `x` where `s` does or `l` is `x`.
pub proof fn lemma_holds_push(s: Seq<u64>, l: u64, x: u64)
    ensures
        holds(s.push(l), x) <==> (holds(s, x) || l == x),
{
    let p = s.push(l);
    if holds(p, x) {
        let i = choose|i: int| 0 <= i < p.len() && p[i] == x;
        if i < s.len() {
            assert(s[i] == x);
        }
    }
    if holds(s, x) {
        let i = choose|i: int| 0 <= i < s.len() && s[i] == x;
        assert(p[i] == x);
    }
    if l == x {
        assert(p[s.len() as int] == x);
    }
}

proof fn lemma_distinct_drop_last(s: Seq<u64>)
    requires
        distinct(s),
        s.len() > 0,
    ensures
        distinct(s.drop_last()),
{
    assert forall|i: int, j: int| 0 <= i < j < s.drop_last().len() implies s.drop_last()[i] != s.drop_last()[j] by {
        assert(s.drop_last()[i] == s[i] && s.drop_last()[j] == s[j]);
    }
}

/// Whether `v` holds `id`.
fn vec_holds(v: &Vec<u64>, id: u64) -> (r: bool)
    ensures
        r == holds(v@, id),
{
    let mut i: usize = 0;
    while i < v.len()
        invariant
            i <= v@.len(),
            forall|k: int| 0 <= k < i ==> v@[k] != id,
        decreases v.len() - i,
    {
        if v[i] == id {
            return true;
        }
        i += 1;
    }
    false
}

/// Where `id` first occurs in `v`.
pub fn position(v: &Vec<u64>, id: u64) -> (r: Option<usize>)
    ensures
        r matches Some(i) ==> index_of(v@, id) == Some(i as int),
        r is None ==> index_of(v@, id) is None,
        r matches Some(i) ==> i < v@.len() && v@[i as int] == id,
        r is None <==> !holds(v@, id),
{
    let mut i: usize = 0;
    assert(v@.skip(0) =~= v@);
    while i < v.len()
        invariant
            i <= v@.len(),
            forall|k: int| 0 <= k < i ==> v@[k] != id,
            index_of(v@, id) == match index_of(v@.skip(i as int), id) {
                Some(j) => Some(j + i),
                None => None::<int>,
            },
        decreases v.len() - i,
    {
        assert(v@.skip(i as int).drop_first() =~= v@.skip(i + 1));
        if v[i] == id {
            return Some(i);
        }
        i += 1;
    }
    None
}

/// `v` without `id`.
fn remove_all(v: &Vec<u64>, id: u64) -> (r: Vec<u64>)
    ensures
        r@ == without(v@, id),
{
    let mut out: Vec<u64> = Vec::new();
    let mut i: usize = 0;
    assert(v@.take(0) =~= Seq::<u64>::empty());
    while i < v.len()
        invariant
            i <= v@.len(),
            out@ == without(v@.take(i as int), id),
        decreases v.len() - i,
    {
        proof {
            lemma_without_step(v@, id, i as int);
        }
        if v[i] != id {
            out.push(v[i]);
        }
        i += 1;
    }
    assert(v@.take(v@.len() as int) =~= v@);
    out
}

impl TabPanel {
    /// An empty tab panel; `in_stack` says whether a stack panel holds it,
    /// without which its panels can be neither split nor moved.
    pub fn new(in_stack: bool) -> (r: Self)
        ensures
            r@ == (TabPanelView {
                panels: Seq::empty(),
                hidden: Set::empty(),
                active_ix: 0,
                closable: true,
                zoomed: false,
                collapsed: false,
                in_stack,
                will_split: None,
            }),
    {
        let r = TabPanel {
            panels: Vec::new(),
            invisible_panels: HashMap::new(),
            active_ix: 0,
            closable: true,
            is_zoomed: false,
            is_collapsed: false,
            in_stack,
            will_split_placement: None,
        };
        assert(hidden_of(r.invisible_panels@) =~= Set::<u64>::empty());
        r
    }

    /// Replaces all panels and makes the first one active.
    pub fn replace_panels(&mut self, panels: Vec<u64>)
        ensures
            final(self)@ == (TabPanelView { panels: panels@, active_ix: 0, ..old(self)@ }),
    {
        self.panels = panels;
        self.active_ix = 0;
    }

    /// Whether the tab panel may be closed at all.
    pub fn set_closable(&mut self, closable: bool)
        ensures
            final(self)@ == (TabPanelView { closable, ..old(self)@ }),
    {
        self.closable = closable;
    }

    /// A stack panel now holds this tab panel.
    pub fn set_parent(&mut self)
        ensures
            final(self)@ == (TabPanelView { in_stack: true, ..old(self)@ }),
    {
        self.in_stack = true;
    }

    /// The panels, in order.
    pub fn panels(&self) -> (r: &Vec<u64>)
        ensures
            r@ == self@.panels,
    {
        &self.panels
    }

    pub fn active_ix(&self) -> (r: usize)
        ensures
            r == self@.active_ix,
    {
        self.active_ix
    }

    /// Whether a panel is shown: only hidden panels are not.
    pub fn is_panel_visible(&self, id: u64) -> (r: bool)
        ensures
            r == !self@.hidden.contains(id),
    {
        match self.invisible_panels.get(&id) {
            Some(v) => *v,
            None => true,
        }
    }

    /// The visible panels, in order.
    pub fn visible_panels(&self) -> (r: Vec<u64>)
        ensures
            r@ == visible_of(self@.panels, self@.hidden),
    {
        let mut out: Vec<u64> = Vec::new();
        let mut i: usize = 0;
        assert(self.panels@.take(0) =~= Seq::<u64>::empty());
        while i < self.panels.len()
            invariant
                i <= self.panels@.len(),
                out@ == visible_of(self.panels@.take(i as int), self@.hidden),
            decreases self.panels.len() - i,
        {
            proof {
                lemma_visible_step(self.panels@, self@.hidden, i as int);
            }
            let id = self.panels[i];
            if self.is_panel_visible(id) {
                out.push(id);
            }
            i += 1;
        }
        assert(self.panels@.take(self.panels@.len() as int) =~= self.panels@);
        out
    }

    /// The panel shown: the active one where it is visible, else the first
    /// visible one.
    pub fn active_panel(&self) -> (r: Option<u64>)
        ensures
            r == self@.active_panel(),
    {
        if self.active_ix < self.panels.len() {
            let p = self.panels[self.active_ix];
            if self.is_panel_visible(p) {
                Some(p)
            } else {
                let v = self.visible_panels();
                if v.len() > 0 {
                    Some(v[0])
                } else {
                    None
                }
            }
        } else {
            None
        }
    }

    /// Makes `ix` the active index; returns whether it changed, in which
    /// case the layout changed.
    pub fn set_active_ix(&mut self, ix: usize) -> (changed: bool)
        ensures
            changed == (ix != old(self)@.active_ix),
            final(self)@ == old(self)@.activated(ix),
    {
        if ix == self.active_ix {
            return false;
        }
        self.active_ix = ix;
        true
    }

    /// Adds a panel at the end and makes it active, unless it is there. The
    /// panel, named `panel_name`, may not be a stack panel.
    pub fn add_panel(&mut self, id: u64, panel_name: &str)
        requires
            !is_stack_panel_name(panel_name@),
        ensures
            final(self)@ == old(self)@.added(id, true),
    {
        self.add_panel_with_active(id, panel_name, true);
    }

    /// Adds a panel at the end, made active where `active`, unless it is
    /// there. The panel, named `panel_name`, may not be a stack panel.
    pub fn add_panel_with_active(&mut self, id: u64, panel_name: &str, active: bool)
        requires
            !is_stack_panel_name(panel_name@),
        ensures
            final(self)@ == old(self)@.added(id, active),
    {
        if vec_holds(&self.panels, id) {
            return;
        }
        self.panels.push(id);
        if active {
            let ix = self.panels.len() - 1;
            self.set_active_ix(ix);
        }
    }

    /// Shows or hides a panel. Only a tab panel in a stack does so; it
    /// returns whether any of its panels is visible then, which the stack
    /// is told.
    pub fn set_panel_visible(&mut self, id: u64, visible: bool) -> (r: Option<bool>)
        ensures
            !old(self)@.in_stack ==> r is None && final(self)@ == old(self)@,
            old(self)@.in_stack ==> final(self)@ == (TabPanelView {
                hidden: if visible { old(self)@.hidden.remove(id) } else { old(self)@.hidden.insert(id) },
                ..old(self)@
            }),
            old(self)@.in_stack ==> r == Some(visible_of(final(self)@.panels, final(self)@.hidden).len() > 0),
    {
        if !self.in_stack {
            return None;
        }
        if visible {
            self.invisible_panels.remove(&id);
            assert(hidden_of(self.invisible_panels@) =~= old(self)@.hidden.remove(id));
        } else {
            self.invisible_panels.insert(id, false);
            assert(hidden_of(self.invisible_panels@) =~= old(self)@.hidden.insert(id));
        }
        let v = self.visible_panels();
        Some(v.len() > 0)
    }

    /// Inserts a panel at `ix` and makes it active, unless it is there.
    pub fn insert_panel_at(&mut self, id: u64, ix: usize)
        requires
            !holds(old(self)@.panels, id) ==> ix <= old(self)@.panels.len(),
        ensures
            holds(old(self)@.panels, id) ==> final(self)@ == old(self)@,
            !holds(old(self)@.panels, id) ==> final(self)@ == (TabPanelView {
                panels: old(self)@.panels.insert(ix as int, id),
                active_ix: ix,
                ..old(self)@
            }),
    {
        if vec_holds(&self.panels, id) {
            return;
        }
        self.panels.insert(ix, id);
        self.set_active_ix(ix);
    }

    /// Takes a panel out; where the active index is then past the panels,
    /// the last panel becomes active.
    pub fn detach_panel(&mut self, id: u64)
        ensures
            final(self)@ == old(self)@.detached(id),
    {
        self.panels = remove_all(&self.panels, id);
        if self.active_ix >= self.panels.len() {
            let ix = self.panels.len().saturating_sub(1);
            self.set_active_ix(ix);
        }
    }

    /// Removes a panel; returns whether the tab panel is empty then, in
    /// which case its stack drops it.
    pub fn remove_panel(&mut self, id: u64) -> (empty: bool)
        ensures
            final(self)@ == old(self)@.detached(id),
            empty == (final(self)@.panels.len() == 0),
    {
        self.detach_panel(id);
        self.panels.len() == 0
    }

    pub fn set_collapsed(&mut self, collapsed: bool)
        ensures
            final(self)@ == (TabPanelView { collapsed, ..old(self)@ }),
    {
        self.is_collapsed = collapsed;
    }

    /// Whether the panels are locked in place: without a dock area
    /// (`dock_locked` is `None`), where the dock area is locked, while
    /// zoomed, or outside a stack.
    pub fn is_locked(&self, dock_locked: Option<bool>) -> (r: bool)
        ensures
            r == match dock_locked {
                None => true,
                Some(locked) => locked || self@.zoomed || !self@.in_stack,
            },
    {
        match dock_locked {
            None => true,
            Some(locked) => {
                if locked {
                    return true;
                }
                if self.is_zoomed {
                    return true;
                }
                !self.in_stack
            },
        }
    }

    /// Whether this is the last panel: the stack above, if known
    /// (`parent_last`), holds only it, and it holds at most one panel.
    pub fn is_last_panel(&self, parent_last: Option<bool>) -> (r: bool)
        ensures
            r == (parent_last != Some(false) && self@.panels.len() <= 1),
    {
        match parent_last {
            Some(false) => false,
            _ => self.panels.len() <= 1,
        }
    }

    /// Whether a tab can be dragged away: not when locked or last.
    pub fn draggable(&self, dock_locked: Option<bool>, parent_last: Option<bool>) -> (r: bool)
        ensures
            r == (!(match dock_locked {
                None => true,
                Some(locked) => locked || self@.zoomed || !self@.in_stack,
            }) && !(parent_last != Some(false) && self@.panels.len() <= 1)),
    {
        !self.is_locked(dock_locked) && !self.is_last_panel(parent_last)
    }

    /// Whether a tab can be dropped here: not when locked.
    pub fn droppable(&self, dock_locked: Option<bool>) -> (r: bool)
        ensures
            r == !(match dock_locked {
                None => true,
                Some(locked) => locked || self@.zoomed || !self@.in_stack,
            }),
    {
        !self.is_locked(dock_locked)
    }

    /// Whether the tab panel can be closed: where it allows closing and the
    /// active panel, if any (`active_closable`), does.
    pub fn closable(&self, active_closable: Option<bool>) -> (r: bool)
        ensures
            r == (self@.closable && active_closable == Some(true)),
    {
        if !self.closable {
            return false;
        }
        match active_closable {
            Some(c) => c,
            None => false,
        }
    }

    /// Where the dragged panel would be placed.
    pub fn set_will_split(&mut self, placement: Option<Placement>)
        ensures
            final(self)@ == (TabPanelView { will_split: placement, ..old(self)@ }),
    {
        self.will_split_placement = placement;
    }

    /// Zooms in or out, where the active panel is zoomable; returns what
    /// the dock area is told.
    pub fn toggle_zoom(&mut self, zoomable: bool) -> (r: Option<PanelEvent>)
        ensures
            !zoomable ==> r is None && final(self)@ == old(self)@,
            zoomable ==> r == Some(if old(self)@.zoomed { PanelEvent::ZoomOut } else { PanelEvent::ZoomIn }),
            zoomable ==> final(self)@ == (TabPanelView { zoomed: !old(self)@.zoomed, ..old(self)@ }),
    {
        if !zoomable {
            return None;
        }
        let event = if !self.is_zoomed {
            PanelEvent::ZoomIn
        } else {
            PanelEvent::ZoomOut
        };
        self.is_zoomed = !self.is_zoomed;
        Some(event)
    }

    /// Whether this tab panel shows the button of the dock at some side: not
    /// while zoomed; only where that dock exists and can collapse, and the
    /// dock area chose this tab panel (`this_id`) to carry the button.
    pub fn shows_dock_toggle(&self, collapsible: bool, has_dock: bool, owner: Option<u64>, this_id: u64) -> (r: bool)
        ensures
            r == (!self@.zoomed && collapsible && has_dock && owner == Some(this_id)),
    {
        if self.is_zoomed {
            return false;
        }
        if !collapsible {
            return false;
        }
        has_dock && owner == Some(this_id)
    }

    /// Whether the title bar shows a plain title instead of a tab bar: for
    /// a single panel in the default style.
    pub fn shows_plain_title(&self, style: PanelStyle) -> (r: bool)
        ensures
            r == (self@.panels.len() == 1 && style == PanelStyle::Default),
    {
        self.panels.len() == 1 && style == PanelStyle::Default
    }

    /// The tabs of the tab bar.
    pub fn tab_states(&self) -> (r: Vec<TabState>)
        ensures
            r@ == tab_states(self@.panels, self@.hidden, self@.active_ix, self@.collapsed),
    {
        let mut out: Vec<TabState> = Vec::new();
        let mut i: usize = 0;
        assert(self.panels@.take(0) =~= Seq::<u64>::empty());
        while i < self.panels.len()
            invariant
                i <= self.panels@.len(),
                out@ == tab_states(self.panels@.take(i as int), self@.hidden, self@.active_ix, self@.collapsed),
            decreases self.panels.len() - i,
        {
            let id = self.panels[i];
            assert(self.panels@.take(i + 1).drop_last() =~= self.panels@.take(i as int));
            if self.is_panel_visible(id) {
                out.push(
                    TabState {
                        ix: i,
                        panel: id,
                        selected: i == self.active_ix && !self.is_collapsed,
                        disabled: self.is_collapsed,
                    },
                );
            }
            i += 1;
        }
        assert(self.panels@.take(self.panels@.len() as int) =~= self.panels@);
        out
    }

    /// Where a panel dropped on the empty end of the tab bar goes: the last
    /// place where it comes from this tab panel, the end otherwise.
    pub fn drop_index_at_end(&self, is_same_tab: bool) -> (r: Option<usize>)
        requires
            is_same_tab ==> self@.panels.len() > 0,
        ensures
            r == if is_same_tab { Some((self@.panels.len() - 1) as usize) } else { None },
    {
        if is_same_tab {
            Some(self.panels.len() - 1)
        } else {
            None
        }
    }

    /// Adds the tab panel's own entries to a panel's menu: zooming in or out
    /// where the panel can zoom, and closing where it can close, each after
    /// a separator. The labels are translation keys.
    pub fn toolbar_menu(&self, menu: PopupMenu, zoomable: bool, closable: bool) -> (r: PopupMenu)
        ensures
            ({
                let z = if zoomable {
                    PopupMenuView {
                        has_icon: menu@.separated().has_icon,
                        ..menu@.separated().pushed(
                            EntryView::item(if self@.zoomed { "Dock.Zoom Out"@ } else { "Dock.Zoom In"@ }, false),
                        )
                    }
                } else {
                    menu@
                };
                r@ == if closable {
                    PopupMenuView {
                        has_icon: z.separated().has_icon,
                        ..z.separated().pushed(EntryView::item("Dock.Close"@, false))
                    }
                } else {
                    z
                }
            }),
    {
        let mut m = menu;
        if zoomable {
            let name = if self.is_zoomed {
                "Dock.Zoom Out".to_string()
            } else {
                "Dock.Zoom In".to_string()
            };
            m = m.separator().menu(name);
        }
        if closable {
            m = m.separator().menu("Dock.Close".to_string());
        }
        m
    }

    /// Takes a dragged panel: a panel dropped back on its own tab panel
    /// first leaves it (a panel from another tab panel is detached there by
    /// the caller); then it is split off where a split is pending, inserted
    /// at `ix` where given, and added at the end otherwise (made active
    /// where `active`). Returns what happened and whether the tab panel is
    /// then empty, in which case its stack drops it.
    pub fn drop_panel(
        &mut self,
        panel: u64,
        panel_name: &str,
        ix: Option<usize>,
        active: bool,
        is_same_tab: bool,
    ) -> (r: (DropOutcome, bool))
        requires
            ({
                let v = old(self)@;
                let ignored = is_same_tab && ix is None && (v.will_split is None || v.panels.len() == 1);
                let v1 = if is_same_tab { v.detached(panel) } else { v };
                &&& (!ignored && v.will_split is None && ix is Some && !holds(v1.panels, panel)) ==> ix->Some_0
                    <= v1.panels.len()
                &&& (!ignored && v.will_split is None && ix is None) ==> !is_stack_panel_name(panel_name@)
            }),
        ensures
            ({
                let v = old(self)@;
                let ignored = is_same_tab && ix is None && (v.will_split is None || v.panels.len() == 1);
                let v1 = if is_same_tab { v.detached(panel) } else { v };
                if ignored {
                    r == (DropOutcome::Ignored, v.panels.len() == 0) && final(self)@ == v
                } else {
                    &&& r.1 == (final(self)@.panels.len() == 0)
                    &&& match v.will_split {
                        Some(p) => r.0 == DropOutcome::Split(p) && final(self)@ == v1,
                        None => r.0 == DropOutcome::Placed && final(self)@ == match ix {
                            Some(i) => if holds(v1.panels, panel) {
                                v1
                            } else {
                                TabPanelView { panels: v1.panels.insert(i as int, panel), active_ix: i, ..v1 }
                            },
                            None => v1.added(panel, active),
                        },
                    }
                }
            }),
    {
        if self.drop_ignored(is_same_tab, ix) {
            return (DropOutcome::Ignored, self.panels.len() == 0);
        }
        if is_same_tab {
            self.detach_panel(panel);
        }
        let outcome = match self.will_split_placement {
            Some(p) => DropOutcome::Split(p),
            None => {
                match ix {
                    Some(i) => self.insert_panel_at(panel, i),
                    None => self.add_panel_with_active(panel, panel_name, active),
                }
                DropOutcome::Placed
            },
        };
        (outcome, self.panels.len() == 0)
    }

    /// Whether a drop does nothing: a panel dropped back on its own tab
    /// panel, not at a tab, stays where it is when no split is pending or
    /// it is the only panel.
    pub fn drop_ignored(&self, is_same_tab: bool, ix: Option<usize>) -> (r: bool)
        ensures
            r == (is_same_tab && ix is None && (self@.will_split is None || self@.panels.len() == 1)),
    {
        if is_same_tab && ix.is_none() {
            if self.will_split_placement.is_none() {
                return true;
            } else if self.panels.len() == 1 {
                return true;
            }
        }
        false
    }
}

/// How a split is carried out, from the axis of the stack that holds the
/// tab panel, the side of the drop and how many panels the stack holds.
pub fn split_plan(parent_axis: Axis, placement: Placement, parent_len: usize) -> (r: SplitPlan)
    ensures
        r == if (parent_axis == Axis::Vertical && (placement == Placement::Top || placement == Placement::Bottom))
            || (parent_axis == Axis::Horizontal && (placement == Placement::Left || placement
            == Placement::Right)) {
            SplitPlan::InsertIntoStack
        } else if parent_len <= 1 {
            SplitPlan::ReuseStack
        } else {
            SplitPlan::NewStack
        },
{
    if parent_axis.is_vertical() && placement.is_vertical() {
        SplitPlan::InsertIntoStack
    } else if parent_axis.is_horizontal() && placement.is_horizontal() {
        SplitPlan::InsertIntoStack
    } else if parent_len <= 1 {
        SplitPlan::ReuseStack
    } else {
        SplitPlan::NewStack
    }
}

proof fn lemma_first_visible(s: Seq<u64>, hidden: Set<u64>)
    ensures
        visible_of(s, hidden).len() == 0 <==> forall|j: int| 0 <= j < s.len() ==> hidden.contains(#[trigger] s[j]),
        visible_of(s, hidden).len() > 0 ==> exists|k: int|
            0 <= k < s.len() && #[trigger] s[k] == visible_of(s, hidden)[0] && !hidden.contains(s[k]) && forall|j: int|
                0 <= j < k ==> hidden.contains(#[trigger] s[j]),
    decreases s.len(),
{
    if s.len() > 0 {
        let d = s.drop_last();
        lemma_first_visible(d, hidden);
        assert forall|j: int| 0 <= j < d.len() implies #[trigger] d[j] == s[j] by {}
        if visible_of(d, hidden).len() > 0 {
            let k = choose|k: int|
                0 <= k < d.len() && #[trigger] d[k] == visible_of(d, hidden)[0] && !hidden.contains(d[k]) && forall|j: int|
                    0 <= j < k ==> hidden.contains(#[trigger] d[j]);
            assert(s[k] == d[k]);
            assert forall|j: int| 0 <= j < k implies hidden.contains(#[trigger] s[j]) by {
                assert(s[j] == d[j]);
            }
            if !hidden.contains(s.last()) {
                assert(visible_of(s, hidden)[0] == visible_of(d, hidden)[0]);
            }
        } else {
            assert forall|j: int| 0 <= j < d.len() implies hidden.contains(#[trigger] s[j]) by {
                assert(s[j] == d[j]);
            }
            if !hidden.contains(s.last()) {
                let k = s.len() - 1;
                assert(s[k] == visible_of(s, hidden)[0]);
            }
        }
    }
}

/// The visible panels are the panels that are not hidden, in their order.
pub proof fn lemma_visible_panels(s: Seq<u64>, hidden: Set<u64>)
    ensures
        visible_of(s, hidden) == s.filter(|x: u64| !hidden.contains(x)),
        forall|k: int| 0 <= k < visible_of(s, hidden).len() ==> !hidden.contains(#[trigger] visible_of(s, hidden)[k]),
    decreases s.len(),
{
    let shown = |x: u64| !hidden.contains(x);
    reveal(Seq::filter);
    if s.len() > 0 {
        lemma_visible_panels(s.drop_last(), hidden);
        assert(s.filter(shown) == if shown(s.last()) {
            s.drop_last().filter(shown).push(s.last())
        } else {
            s.drop_last().filter(shown)
        });
        let v = visible_of(s, hidden);
        let d = visible_of(s.drop_last(), hidden);
        assert forall|k: int| 0 <= k < v.len() implies !hidden.contains(#[trigger] v[k]) by {
            if k < d.len() {
                assert(v[k] == d[k]);
            }
        }
    }
}

/// The panel a tab panel shows: none where the active index is past the
/// panels; the active panel where it is visible; else the first visible
/// panel, before which every panel is hidden, and none where all are hidden.
pub proof fn lemma_active_panel_shown(v: TabPanelView)
    ensures
        v.active_ix >= v.panels.len() ==> v.active_panel() is None,
        v.active_ix < v.panels.len() && !v.hidden.contains(v.panels[v.active_ix as int]) ==> v.active_panel()
            == Some(v.panels[v.active_ix as int]),
        v.active_ix < v.panels.len() && v.hidden.contains(v.panels[v.active_ix as int]) ==> {
            &&& v.active_panel() is None <==> forall|j: int| 0 <= j < v.panels.len() ==> v.hidden.contains(#[trigger] v.panels[j])
            &&& v.active_panel() matches Some(p) ==> exists|k: int|
                0 <= k < v.panels.len() && #[trigger] v.panels[k] == p && !v.hidden.contains(p) && forall|j: int|
                    0 <= j < k ==> v.hidden.contains(#[trigger] v.panels[j])
        },
{
    lemma_first_visible(v.panels, v.hidden);
}

/// Adding keeps every panel at most once.
pub proof fn lemma_added_distinct(v: TabPanelView, id: u64, active: bool)
    requires
        distinct(v.panels),
    ensures
        distinct(v.added(id, active).panels),
        holds(v.added(id, active).panels, id),
{
    if !holds(v.panels, id) {
        let p = v.panels.push(id);
        assert forall|i: int, j: int| 0 <= i < j < p.len() implies p[i] != p[j] by {
            if j == p.len() - 1 && p[i] == id {
                assert(v.panels[i] == id);
            }
        }
        assert(p[p.len() - 1] == id);
    }
}

/// Detaching keeps every panel at most once, takes the panel out, and
/// leaves the active index on a panel where any remain.
pub proof fn lemma_detached(v: TabPanelView, id: u64)
    requires
        distinct(v.panels),
        v.active_ix < v.panels.len() || v.active_ix == 0,
    ensures
        distinct(v.detached(id).panels),
        !holds(v.detached(id).panels, id),
        v.detached(id).active_ix < v.detached(id).panels.len() || v.detached(id).active_ix == 0,
{
    lemma_without_holds(v.panels, id, id);
}

} // verus!
