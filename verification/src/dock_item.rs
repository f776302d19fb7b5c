//! The layout of a dock area's centre: a tree whose leaves are tab panels
//! and whose inner nodes are stacks that split their children along an
//! axis. Tab panels and panels are known by their ids; sizes, in pixels,
//! are kept by the caller.

use crate::dock::Axis;
use crate::tab_panel::{
    added_all, distinct, holds, is_stack_panel_name, lemma_added_distinct, lemma_holds_push, new_tab_panel_view,
    TabPanel, TabPanelView,
};
use vstd::prelude::*;

verus! {

/// A node of the layout.
pub enum DockItem {
    /// A stack of items laid out along `axis`, in order.
    Split { axis: Axis, items: Vec<DockItem> },
    /// The tab panel `id`, made for `panels` with `active_ix` in front;
    /// `view` is that tab panel, which holds each panel once.
    Tabs { id: u64, panels: Vec<u64>, active_ix: usize, view: TabPanel },
}

/// Whether one of the first `n` of `items` has the tab panel `id`.
pub open spec fn any_contains_tab_panel(items: Seq<DockItem>, id: u64, n: int) -> bool
    decreases items, n,
{
    if n <= 0 || n > items.len() {
        false
    } else {
        any_contains_tab_panel(items, id, n - 1) || items[n - 1].spec_contains_tab_panel(id)
    }
}

/// Whether one of the first `n` of `items` shows the panel `panel`.
pub open spec fn any_holds_panel(items: Seq<DockItem>, panel: u64, n: int) -> bool
    decreases items, n,
{
    if n <= 0 || n > items.len() {
        false
    } else {
        any_holds_panel(items, panel, n - 1) || items[n - 1].spec_holds_panel(panel)
    }
}

proof fn lemma_any_contains_from(items: Seq<DockItem>, id: u64, i: int, n: int)
    requires
        0 <= i < n <= items.len(),
        items[i].spec_contains_tab_panel(id),
    ensures
        any_contains_tab_panel(items, id, n),
    decreases n,
{
    if i < n - 1 {
        lemma_any_contains_from(items, id, i, n - 1);
    }
}

proof fn lemma_any_holds_from(items: Seq<DockItem>, panel: u64, i: int, n: int)
    requires
        0 <= i < n <= items.len(),
        items[i].spec_holds_panel(panel),
    ensures
        any_holds_panel(items, panel, n),
    decreases n,
{
    if i < n - 1 {
        lemma_any_holds_from(items, panel, i, n - 1);
    }
}

impl DockItem {
    /// Whether the tab panel `id` is a leaf of this layout.
    pub open spec fn spec_contains_tab_panel(self, id: u64) -> bool
        decreases self, 0int,
    {
        match self {
            DockItem::Tabs { id: t, .. } => t == id,
            DockItem::Split { items, .. } => {
                proof {
                    assert(decreases_to!(self => items@));
                }
                any_contains_tab_panel(items@, id, items@.len() as int)
            },
        }
    }

    /// Whether the panel `panel` is shown by a tab panel of this layout.
    pub open spec fn spec_holds_panel(self, panel: u64) -> bool
        decreases self, 0int,
    {
        match self {
            DockItem::Tabs { panels, .. } => panels@.contains(panel),
            DockItem::Split { items, .. } => {
                proof {
                    assert(decreases_to!(self => items@));
                }
                any_holds_panel(items@, panel, items@.len() as int)
            },
        }
    }

    /// The tab panel at the top left: the first child, followed down.
    pub open spec fn spec_left_top(self) -> Option<u64>
        decreases self,
    {
        match self {
            DockItem::Tabs { id, .. } => Some(id),
            DockItem::Split { items, .. } => if items.len() == 0 {
                None
            } else {
                items[0].spec_left_top()
            },
        }
    }

    /// The tab panel at the top right: in a vertical stack the first child,
    /// in a horizontal one the last, followed down.
    pub open spec fn spec_right_top(self) -> Option<u64>
        decreases self,
    {
        match self {
            DockItem::Tabs { id, .. } => Some(id),
            DockItem::Split { axis, items } => if items.len() == 0 {
                None
            } else if axis is Vertical {
                items[0].spec_right_top()
            } else {
                items[items.len() - 1].spec_right_top()
            },
        }
    }

    /// A stack of `items` along `axis`.
    pub fn split(axis: Axis, items: Vec<DockItem>) -> (r: Self)
        ensures
            r == (DockItem::Split { axis, items }),
    {
        DockItem::Split { axis, items }
    }

    /// The tab panel `id` for `panels`, named `panel_names`; the first is in
    /// front unless `active_ix` says otherwise. The tab panel gets each panel
    /// in turn, so that a repeated panel is held once; none may be a stack
    /// panel.
    pub fn tabs(id: u64, panels: Vec<u64>, panel_names: &Vec<String>, active_ix: Option<usize>) -> (r: Self)
        requires
            panel_names@.len() == panels@.len(),
            forall|k: int| 0 <= k < panel_names@.len() ==> !is_stack_panel_name(#[trigger] panel_names@[k]@),
        ensures
            r matches DockItem::Tabs { id: t, panels: p, active_ix: a, view } && {
                &&& t == id
                &&& p@ == panels@
                &&& a == match active_ix {
                    Some(ix) => ix,
                    None => 0,
                }
                &&& view@ == (TabPanelView { active_ix: a, ..added_all(new_tab_panel_view(), panels@) })
                &&& distinct(view@.panels)
                &&& forall|x: u64| holds(view@.panels, x) <==> holds(panels@, x)
            },
    {
        let active_ix = match active_ix {
            Some(ix) => ix,
            None => 0,
        };
        let mut view = TabPanel::new(false);
        let mut k: usize = 0;
        while k < panels.len()
            invariant
                k <= panels@.len(),
                panel_names@.len() == panels@.len(),
                forall|j: int| 0 <= j < panel_names@.len() ==> !is_stack_panel_name(#[trigger] panel_names@[j]@),
                view@ == added_all(new_tab_panel_view(), panels@.take(k as int)),
                distinct(view@.panels),
                forall|x: u64| holds(view@.panels, x) <==> holds(panels@.take(k as int), x),
            decreases panels@.len() - k,
        {
            let ghost before = view@;
            let ghost pk = panels@[k as int];
            let ghost prefix = panels@.take(k as int);
            proof {
                assert(panels@.take(k + 1).drop_last() =~= prefix);
                assert(panels@.take(k + 1) =~= prefix.push(pk));
                lemma_added_distinct(before, pk, true);
            }
            view.add_panel(panels[k], panel_names[k].as_str());
            proof {
                assert forall|x: u64| holds(view@.panels, x) <==> holds(panels@.take(k + 1), x) by {
                    lemma_holds_push(prefix, pk, x);
                    if !holds(before.panels, pk) {
                        lemma_holds_push(before.panels, pk, x);
                    }
                }
            }
            k += 1;
        }
        assert(panels@.take(panels@.len() as int) =~= panels@);
        view.set_active_ix(active_ix);
        DockItem::Tabs { id, panels, active_ix, view }
    }

    /// The tab panel `id` showing the one panel `panel`, named `panel_name`,
    /// which may not be a stack panel.
    pub fn tab(id: u64, panel: u64, panel_name: &str) -> (r: Self)
        requires
            !is_stack_panel_name(panel_name@),
        ensures
            r matches DockItem::Tabs { id: t, panels, active_ix, view } && t == id && panels@ == seq![panel]
                && active_ix == 0 && view@ == new_tab_panel_view().added(panel, true),
    {
        let mut panels = Vec::new();
        panels.push(panel);
        assert(panels@ =~= seq![panel]);
        let mut view = TabPanel::new(false);
        view.add_panel(panel, panel_name);
        DockItem::Tabs { id, panels, active_ix: 0, view }
    }

    /// Whether the tab panel `id` is a leaf of this layout.
    pub fn contains_entity_id(&self, id: u64) -> (r: bool)
        ensures
            r == self.spec_contains_tab_panel(id),
        decreases self,
    {
        match self {
            DockItem::Tabs { id: t, .. } => *t == id,
            DockItem::Split { items, .. } => {
                let mut i: usize = 0;
                #[verifier::loop_isolation(false)]
                while i < items.len()
                    invariant
                        i <= items.len(),
                        !any_contains_tab_panel(items@, id, i as int),
                    decreases items.len() - i,
                {
                    assert(decreases_to!(self => items[i as int]));
                    if items[i].contains_entity_id(id) {
                        proof {
                            lemma_any_contains_from(items@, id, i as int, items@.len() as int);
                        }
                        return true;
                    }
                    i += 1;
                }
                false
            },
        }
    }

    /// The panel `panel`, if a tab panel of this layout shows it.
    pub fn find_panel(&self, panel: u64) -> (r: Option<u64>)
        ensures
            r == (if self.spec_holds_panel(panel) {
                Some(panel)
            } else {
                None
            }),
        decreases self,
    {
        match self {
            DockItem::Tabs { panels, .. } => {
                let mut i: usize = 0;
                #[verifier::loop_isolation(false)]
                while i < panels.len()
                    invariant
                        i <= panels.len(),
                        forall|j: int| 0 <= j < i ==> panels@[j] != panel,
                    decreases panels.len() - i,
                {
                    if panels[i] == panel {
                        assert(panels@.contains(panel)) by {
                            assert(panels@[i as int] == panel);
                        }
                        return Some(panels[i]);
                    }
                    i += 1;
                }
                None
            },
            DockItem::Split { items, .. } => {
                let mut i: usize = 0;
                #[verifier::loop_isolation(false)]
                while i < items.len()
                    invariant
                        i <= items.len(),
                        !any_holds_panel(items@, panel, i as int),
                    decreases items.len() - i,
                {
                    assert(decreases_to!(self => items[i as int]));
                    let found = items[i].find_panel(panel);
                    if found.is_some() {
                        proof {
                            lemma_any_holds_from(items@, panel, i as int, items@.len() as int);
                        }
                        return found;
                    }
                    i += 1;
                }
                None
            },
        }
    }

    /// The tab panel at the top left of the layout.
    pub fn left_top_tab_panel(&self) -> (r: Option<u64>)
        ensures
            r == self.spec_left_top(),
        decreases self,
    {
        match self {
            DockItem::Tabs { id, .. } => Some(*id),
            DockItem::Split { items, .. } => {
                if items.len() == 0 {
                    None
                } else {
                    assert(decreases_to!(self => items[0]));
                    items[0].left_top_tab_panel()
                }
            },
        }
    }

    /// The tab panel at the top right of the layout.
    pub fn right_top_tab_panel(&self) -> (r: Option<u64>)
        ensures
            r == self.spec_right_top(),
        decreases self,
    {
        match self {
            DockItem::Tabs { id, .. } => Some(*id),
            DockItem::Split { axis, items } => {
                if items.len() == 0 {
                    None
                } else {
                    let ix = match axis {
                        Axis::Vertical => 0,
                        Axis::Horizontal => items.len() - 1,
                    };
                    assert(decreases_to!(self => items[ix as int]));
                    items[ix].right_top_tab_panel()
                }
            },
        }
    }
}

/// The tab panels that carry the buttons of the left, right and bottom
/// docks: the top-left and top-right tab panels of the centre, and the
/// bottom dock's own tab panel where there is a bottom dock.
pub fn toggle_button_tab_panels(center: &DockItem, bottom_dock_panel: Option<u64>) -> (r: (
    Option<u64>,
    Option<u64>,
    Option<u64>,
))
    ensures
        r == (center.spec_left_top(), center.spec_right_top(), bottom_dock_panel),
{
    (center.left_top_tab_panel(), center.right_top_tab_panel(), bottom_dock_panel)
}

/// The tab panel at the top left of a layout is one of its tab panels.
pub proof fn lemma_left_top_in_layout(item: DockItem)
    ensures
        item.spec_left_top() matches Some(t) ==> item.spec_contains_tab_panel(t),
    decreases item,
{
    if let DockItem::Split { items, .. } = item {
        if items.len() > 0 {
            assert(decreases_to!(item => items[0]));
            lemma_left_top_in_layout(items[0]);
            if let Some(t) = items[0].spec_left_top() {
                lemma_any_contains_from(items@, t, 0, items@.len() as int);
            }
        }
    }
}

/// The tab panel at the top right of a layout is one of its tab panels.
pub proof fn lemma_right_top_in_layout(item: DockItem)
    ensures
        item.spec_right_top() matches Some(t) ==> item.spec_contains_tab_panel(t),
    decreases item,
{
    if let DockItem::Split { axis, items } = item {
        if items.len() > 0 {
            let ix: int = if axis is Vertical { 0 } else { items.len() - 1 };
            assert(decreases_to!(item => items[ix]));
            lemma_right_top_in_layout(items[ix]);
            if let Some(t) = items[ix].spec_right_top() {
                lemma_any_contains_from(items@, t, ix, items@.len() as int);
            }
        }
    }
}

/// The tab panels of a layout from left to right (depth first, children in
/// order).
pub open spec fn leaves(item: DockItem) -> Seq<u64>
    decreases item, 0int,
{
    match item {
        DockItem::Tabs { id, .. } => seq![id],
        DockItem::Split { items, .. } => {
            proof {
                assert(decreases_to!(item => items@));
            }
            all_leaves(items@)
        },
    }
}

/// The tab panels of `items` in order.
pub open spec fn all_leaves(items: Seq<DockItem>) -> Seq<u64>
    decreases items, 0int,
{
    if items.len() == 0 {
        Seq::empty()
    } else {
        all_leaves(items.drop_last()) + leaves(items.last())
    }
}

/// No stack of the layout is empty.
pub open spec fn no_empty_stack(item: DockItem) -> bool
    decreases item, 0int,
{
    match item {
        DockItem::Tabs { .. } => true,
        DockItem::Split { items, .. } => {
            proof {
                assert(decreases_to!(item => items@));
            }
            items@.len() > 0 && all_no_empty_stack(items@)
        },
    }
}

/// No stack of any of `items` is empty.
pub open spec fn all_no_empty_stack(items: Seq<DockItem>) -> bool
    decreases items, 0int,
{
    items.len() > 0 ==> all_no_empty_stack(items.drop_last()) && no_empty_stack(items.last())
}

proof fn lemma_all_no_empty_stack(items: Seq<DockItem>, i: int)
    requires
        all_no_empty_stack(items),
        0 <= i < items.len(),
    ensures
        no_empty_stack(items[i]),
    decreases items.len(),
{
    if i < items.len() - 1 {
        assert(items.drop_last()[i] == items[i]);
        lemma_all_no_empty_stack(items.drop_last(), i);
    }
}

proof fn lemma_all_leaves_first(items: Seq<DockItem>)
    requires
        items.len() > 0,
        leaves(items[0]).len() > 0,
    ensures
        all_leaves(items).len() > 0,
        all_leaves(items)[0] == leaves(items[0])[0],
    decreases items.len(),
{
    if items.len() > 1 {
        assert(items.drop_last()[0] == items[0]);
        lemma_all_leaves_first(items.drop_last());
    } else {
        assert(items.drop_last() =~= Seq::<DockItem>::empty());
        assert(all_leaves(items.drop_last()) =~= Seq::<u64>::empty());
        assert(all_leaves(items) =~= leaves(items[0]));
    }
}

/// In a layout without empty stacks, the tab panel at the top left is the
/// first tab panel from the left.
pub proof fn lemma_left_top_is_first_leaf(item: DockItem)
    requires
        no_empty_stack(item),
    ensures
        leaves(item).len() > 0,
        item.spec_left_top() == Some(leaves(item)[0]),
    decreases item,
{
    if let DockItem::Split { items, .. } = item {
        assert(decreases_to!(item => items@));
        assert(decreases_to!(item => items[0]));
        lemma_all_no_empty_stack(items@, 0);
        lemma_left_top_is_first_leaf(items[0]);
        lemma_all_leaves_first(items@);
    }
}

} // verus!
