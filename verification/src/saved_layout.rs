//! Rebuilding the layout of a dock area from its saved form: which stacks
//! and tab panels to make, along which axes, with which panels and active
//! tabs. The panels themselves are made by the caller from their names;
//! saved sizes, in pixels, are kept by the caller too.

use crate::dock::{stack_axis, stack_axis_code, Axis};
use vstd::prelude::*;

verus! {

/// What kind of item was saved.
#[derive(Debug)]
pub enum SavedInfo {
    /// A stack along the axis saved as `axis` (0 for horizontal).
    Stack { axis: usize },
    /// A tab panel whose tab `active_index` was in front.
    Tabs { active_index: usize },
    /// A single panel.
    Panel,
}

/// A saved item and its children.
#[derive(Debug)]
pub struct SavedItem {
    pub panel_name: String,
    pub children: Vec<SavedItem>,
    pub info: SavedInfo,
}

/// A rebuilt item: a stack of items along an axis, or a tab panel for the
/// panels of the given names, with the tab `active_ix` in front.
#[derive(Debug)]
pub enum RestoredItem {
    Split { axis: Axis, items: Vec<RestoredItem> },
    Tabs { panels: Vec<String>, active_ix: usize },
}

/// The shape of a rebuilt item.
pub ghost enum LayoutShape {
    Split { axis: Axis, items: Seq<LayoutShape> },
    Tabs { panels: Seq<Seq<char>>, active_ix: usize },
}

/// The panels of a shape that is a tab panel; none for a stack.
pub open spec fn shape_panels(s: LayoutShape) -> Seq<Seq<char>> {
    match s {
        LayoutShape::Tabs { panels, .. } => panels,
        LayoutShape::Split { .. } => Seq::empty(),
    }
}

/// The panels of all the tab panels among `shapes`, in order.
pub open spec fn flat_panels(shapes: Seq<LayoutShape>) -> Seq<Seq<char>>
    decreases shapes.len(),
{
    if shapes.len() == 0 {
        Seq::empty()
    } else {
        flat_panels(shapes.drop_last()) + shape_panels(shapes.last())
    }
}

/// The shapes that the saved items rebuild to, in order.
pub open spec fn shapes_of(items: Seq<SavedItem>) -> Seq<LayoutShape>
    decreases items, 0int,
{
    if items.len() == 0 {
        Seq::empty()
    } else {
        shapes_of(items.drop_last()).push(shape_of(items.last()))
    }
}

/// The shape that a saved item rebuilds to: a stack of its children along
/// the saved axis; for saved tabs, the one child where there is exactly one,
/// else a tab panel for all the panels of the children, with the saved
/// active tab; for a panel, a tab panel for that panel alone.
pub open spec fn shape_of(s: SavedItem) -> LayoutShape
    decreases s, 0int,
{
    let kids = {
        proof {
            assert(decreases_to!(s => s.children@));
        }
        shapes_of(s.children@)
    };
    match s.info {
        SavedInfo::Stack { axis } => LayoutShape::Split {
            axis: if axis == 0 { Axis::Horizontal } else { Axis::Vertical },
            items: kids,
        },
        SavedInfo::Tabs { active_index } => if kids.len() == 1 {
            kids[0]
        } else {
            LayoutShape::Tabs { panels: flat_panels(kids), active_ix: active_index }
        },
        SavedInfo::Panel => LayoutShape::Tabs { panels: seq![s.panel_name@], active_ix: 0 },
    }
}

/// Every one of the saved items can be rebuilt.
pub open spec fn all_restorable(items: Seq<SavedItem>) -> bool
    decreases items, 0int,
{
    if items.len() == 0 {
        true
    } else {
        all_restorable(items.drop_last()) && restorable(items.last())
    }
}

/// A saved item can be rebuilt: its children can, and saved tabs with other
/// than one child have only children that rebuild to tab panels.
pub open spec fn restorable(s: SavedItem) -> bool
    decreases s, 0int,
{
    let kids = shapes_of(s.children@);
    &&& {
        proof {
            assert(decreases_to!(s => s.children@));
        }
        all_restorable(s.children@)
    }
    &&& (s.info is Tabs && kids.len() != 1) ==> forall|i: int| 0 <= i < kids.len() ==> #[trigger] kids[i] is Tabs
}

/// The shapes of rebuilt items, in order.
pub open spec fn restored_shapes(items: Seq<RestoredItem>) -> Seq<LayoutShape>
    decreases items, 0int,
{
    if items.len() == 0 {
        Seq::empty()
    } else {
        restored_shapes(items.drop_last()).push(items.last().shape())
    }
}

impl RestoredItem {
    /// The shape of this item.
    pub open spec fn shape(self) -> LayoutShape
        decreases self, 0int,
    {
        match self {
            RestoredItem::Split { axis, items } => {
                proof {
                    assert(decreases_to!(self => items@));
                }
                LayoutShape::Split { axis, items: restored_shapes(items@) }
            },
            RestoredItem::Tabs { panels, active_ix } => LayoutShape::Tabs {
                panels: panels@.map_values(|p: String| p@),
                active_ix,
            },
        }
    }
}

proof fn lemma_shapes_len(items: Seq<SavedItem>)
    ensures
        shapes_of(items).len() == items.len(),
        forall|i: int| 0 <= i < items.len() ==> #[trigger] shapes_of(items)[i] == shape_of(items[i]),
    decreases items.len(),
{
    if items.len() > 0 {
        lemma_shapes_len(items.drop_last());
        assert forall|i: int| 0 <= i < items.len() implies #[trigger] shapes_of(items)[i] == shape_of(items[i]) by {
            if i < items.len() - 1 {
                assert(items.drop_last()[i] == items[i]);
            }
        }
    }
}

proof fn lemma_restored_shapes(items: Seq<RestoredItem>)
    ensures
        restored_shapes(items).len() == items.len(),
        forall|i: int| 0 <= i < items.len() ==> #[trigger] restored_shapes(items)[i] == items[i].shape(),
    decreases items.len(),
{
    if items.len() > 0 {
        lemma_restored_shapes(items.drop_last());
        assert forall|i: int| 0 <= i < items.len() implies #[trigger] restored_shapes(items)[i]
            == items[i].shape() by {
            if i < items.len() - 1 {
                assert(items.drop_last()[i] == items[i]);
            }
        }
    }
}

proof fn lemma_all_restorable(items: Seq<SavedItem>, i: int)
    requires
        all_restorable(items),
        0 <= i < items.len(),
    ensures
        restorable(items[i]),
    decreases items.len(),
{
    if i < items.len() - 1 {
        assert(items.drop_last()[i] == items[i]);
        lemma_all_restorable(items.drop_last(), i);
    }
}

impl SavedItem {
    /// Whether the item rebuilds to a tab panel.
    fn rebuilds_to_tabs(&self) -> (r: bool)
        ensures
            r == (shape_of(*self) is Tabs),
        decreases self,
    {
        proof {
            lemma_shapes_len(self.children@);
        }
        match &self.info {
            SavedInfo::Stack { .. } => false,
            SavedInfo::Panel => true,
            SavedInfo::Tabs { .. } => {
                if self.children.len() == 1 {
                    assert(decreases_to!(self => self.children@[0]));
                    self.children[0].rebuilds_to_tabs()
                } else {
                    true
                }
            },
        }
    }

    /// Whether the saved layout can be rebuilt (see `restorable`).
    pub fn is_restorable(&self) -> (r: bool)
        ensures
            r == restorable(*self),
        decreases self,
    {
        let ghost kids = shapes_of(self.children@);
        proof {
            lemma_shapes_len(self.children@);
        }
        let mut i: usize = 0;
        #[verifier::loop_isolation(false)]
        while i < self.children.len()
            invariant
                i <= self.children@.len(),
                all_restorable(self.children@.take(i as int)),
            decreases self.children@.len() - i,
        {
            assert(self.children@.take(i + 1).drop_last() =~= self.children@.take(i as int));
            assert(decreases_to!(self => self.children@[i as int]));
            if !self.children[i].is_restorable() {
                proof {
                    assert(self.children@.take(i + 1).last() == self.children@[i as int]);
                    if all_restorable(self.children@) {
                        lemma_all_restorable(self.children@, i as int);
                    }
                }
                return false;
            }
            i += 1;
        }
        assert(self.children@.take(self.children@.len() as int) =~= self.children@);
        let is_tabs = match &self.info {
            SavedInfo::Tabs { .. } => true,
            _ => false,
        };
        if is_tabs && self.children.len() != 1 {
            let mut k: usize = 0;
            #[verifier::loop_isolation(false)]
            while k < self.children.len()
                invariant
                    k <= self.children@.len(),
                    forall|j: int| 0 <= j < k ==> #[trigger] kids[j] is Tabs,
                decreases self.children@.len() - k,
            {
                if !self.children[k].rebuilds_to_tabs() {
                    assert(!(kids[k as int] is Tabs));
                    return false;
                }
                k += 1;
            }
        }
        true
    }

    /// Rebuilds the saved layout (see `shape_of`).
    pub fn to_item(&self) -> (r: RestoredItem)
        requires
            restorable(*self),
        ensures
            r.shape() == shape_of(*self),
        decreases self,
    {
        let ghost kids = shapes_of(self.children@);
        proof {
            lemma_shapes_len(self.children@);
        }
        let mut items: Vec<RestoredItem> = Vec::new();
        let mut i: usize = 0;
        #[verifier::loop_isolation(false)]
        while i < self.children.len()
            invariant
                i <= self.children@.len(),
                restored_shapes(items@) == shapes_of(self.children@.take(i as int)),
            decreases self.children@.len() - i,
        {
            proof {
                lemma_all_restorable(self.children@, i as int);
                assert(decreases_to!(self => self.children@[i as int]));
                assert(self.children@.take(i + 1).drop_last() =~= self.children@.take(i as int));
            }
            let item = self.children[i].to_item();
            let ghost before = items@;
            items.push(item);
            proof {
                assert(items@.drop_last() =~= before);
                assert(shapes_of(self.children@.take(i + 1)) == shapes_of(self.children@.take(i as int)).push(
                    shape_of(self.children@[i as int]),
                ));
            }
            i += 1;
        }
        assert(self.children@.take(self.children@.len() as int) =~= self.children@);
        assert(restored_shapes(items@) == kids);
        proof {
            lemma_restored_shapes(items@);
        }
        match &self.info {
            SavedInfo::Stack { axis } => RestoredItem::Split { axis: stack_axis(*axis), items },
            SavedInfo::Tabs { active_index } => {
                if items.len() == 1 {
                    let only = items.pop().unwrap();
                    only
                } else {
                    let mut panels: Vec<String> = Vec::new();
                    let mut k: usize = 0;
                    while k < items.len()
                        invariant
                            k <= items@.len(),
                            items@.len() == kids.len(),
                            forall|j: int| 0 <= j < items@.len() ==> #[trigger] kids[j] == items@[j].shape(),
                            forall|j: int| 0 <= j < kids.len() ==> #[trigger] kids[j] is Tabs,
                            panels@.map_values(|p: String| p@) == flat_panels(kids.take(k as int)),
                        decreases items@.len() - k,
                    {
                        assert(kids.take(k + 1).drop_last() =~= kids.take(k as int));
                        assert(kids[k as int] is Tabs);
                        match &items[k] {
                            RestoredItem::Tabs { panels: ps, .. } => {
                                let ghost base = panels@.map_values(|p: String| p@);
                                let mut j: usize = 0;
                                while j < ps.len()
                                    invariant
                                        j <= ps@.len(),
                                        panels@.map_values(|p: String| p@) == base + ps@.take(j as int).map_values(
                                            |p: String| p@,
                                        ),
                                    decreases ps@.len() - j,
                                {
                                    let ghost before = panels@;
                                    let p = ps[j].clone();
                                    panels.push(p);
                                    proof {
                                        assert(ps@.take(j + 1).map_values(|p: String| p@) =~= ps@.take(
                                            j as int,
                                        ).map_values(|p: String| p@).push(ps@[j as int]@));
                                        assert(panels@.map_values(|p: String| p@) =~= before.map_values(
                                            |p: String| p@,
                                        ).push(ps@[j as int]@));
                                    }
                                    j += 1;
                                }
                                assert(ps@.take(ps@.len() as int) =~= ps@);
                            },
                            RestoredItem::Split { .. } => {},
                        }
                        k += 1;
                    }
                    assert(kids.take(kids.len() as int) =~= kids);
                    RestoredItem::Tabs { panels, active_ix: *active_index }
                }
            },
            SavedInfo::Panel => {
                let mut panels: Vec<String> = Vec::new();
                panels.push(self.panel_name.clone());
                assert(panels@.map_values(|p: String| p@) =~= seq![self.panel_name@]);
                RestoredItem::Tabs { panels, active_ix: 0 }
            },
        }
    }
}

/// `s` is the saved form of `r`: a stack is saved under the name
/// `StackPanel` with its items as children, a tab panel under the name
/// `TabPanel` with a saved panel per tab; the kind is recorded (with the
/// axis, or the active tab) only where there are children, else the item is
/// saved as a panel.
pub open spec fn dumps_to(r: RestoredItem, s: SavedItem) -> bool
    decreases r, 0int,
{
    match r {
        RestoredItem::Split { axis, items } => {
            &&& s.panel_name@ == "StackPanel"@
            &&& {
                proof {
                    assert(decreases_to!(r => items@));
                }
                all_dump(items@, s.children@)
            }
            &&& s.info == if items@.len() > 0 {
                SavedInfo::Stack { axis: if axis == Axis::Horizontal { 0usize } else { 1usize } }
            } else {
                SavedInfo::Panel
            }
        },
        RestoredItem::Tabs { panels, active_ix } => {
            &&& s.panel_name@ == "TabPanel"@
            &&& s.children@.len() == panels@.len()
            &&& forall|i: int|
                0 <= i < panels@.len() ==> {
                    &&& (#[trigger] s.children@[i]).panel_name@ == panels@[i]@
                    &&& s.children@[i].children@.len() == 0
                    &&& s.children@[i].info is Panel
                }
            &&& s.info == if panels@.len() > 0 {
                SavedInfo::Tabs { active_index: active_ix }
            } else {
                SavedInfo::Panel
            }
        },
    }
}

/// Each of `rs` is saved as the matching one of `ss`.
pub open spec fn all_dump(rs: Seq<RestoredItem>, ss: Seq<SavedItem>) -> bool
    decreases rs, 0int,
{
    &&& rs.len() == ss.len()
    &&& rs.len() > 0 ==> all_dump(rs.drop_last(), ss.drop_last()) && dumps_to(rs.last(), ss.last())
}

/// Every one of `items` reads back from its saved form.
pub open spec fn all_round_trip(items: Seq<RestoredItem>) -> bool
    decreases items, 0int,
{
    items.len() > 0 ==> all_round_trip(items.drop_last()) && round_trips(items.last())
}

/// A layout reads back from its saved form: no stack or tab panel is empty,
/// and a tab panel with one tab has it in front.
pub open spec fn round_trips(r: RestoredItem) -> bool
    decreases r, 0int,
{
    match r {
        RestoredItem::Split { items, .. } => {
            &&& items@.len() > 0
            &&& {
                proof {
                    assert(decreases_to!(r => items@));
                }
                all_round_trip(items@)
            }
        },
        RestoredItem::Tabs { panels, active_ix } => panels@.len() > 0 && (panels@.len() == 1 ==> active_ix == 0),
    }
}

impl RestoredItem {
    /// The saved form of the layout (see `dumps_to`).
    pub fn dump(&self) -> (s: SavedItem)
        ensures
            dumps_to(*self, s),
        decreases self,
    {
        match self {
            RestoredItem::Split { axis, items } => {
                let mut children: Vec<SavedItem> = Vec::new();
                let mut i: usize = 0;
                #[verifier::loop_isolation(false)]
                while i < items.len()
                    invariant
                        i <= items@.len(),
                        all_dump(items@.take(i as int), children@),
                    decreases items@.len() - i,
                {
                    assert(decreases_to!(self => items@[i as int]));
                    let child = items[i].dump();
                    let ghost before = children@;
                    children.push(child);
                    assert(items@.take(i + 1).drop_last() =~= items@.take(i as int));
                    assert(children@.drop_last() =~= before);
                    i += 1;
                }
                assert(items@.take(items@.len() as int) =~= items@);
                let info = if items.len() > 0 {
                    SavedInfo::Stack { axis: stack_axis_code(*axis) }
                } else {
                    SavedInfo::Panel
                };
                SavedItem { panel_name: "StackPanel".to_string(), children, info }
            },
            RestoredItem::Tabs { panels, active_ix } => {
                let mut children: Vec<SavedItem> = Vec::new();
                let mut i: usize = 0;
                while i < panels.len()
                    invariant
                        i <= panels@.len(),
                        children@.len() == i,
                        forall|j: int|
                            0 <= j < i ==> {
                                &&& (#[trigger] children@[j]).panel_name@ == panels@[j]@
                                &&& children@[j].children@.len() == 0
                                &&& children@[j].info is Panel
                            },
                    decreases panels@.len() - i,
                {
                    let name = panels[i].clone();
                    children.push(SavedItem { panel_name: name, children: Vec::new(), info: SavedInfo::Panel });
                    i += 1;
                }
                let info = if panels.len() > 0 {
                    SavedInfo::Tabs { active_index: *active_ix }
                } else {
                    SavedInfo::Panel
                };
                SavedItem { panel_name: "TabPanel".to_string(), children, info }
            },
        }
    }
}

proof fn lemma_all_round_trip(rs: Seq<RestoredItem>, ss: Seq<SavedItem>)
    requires
        all_dump(rs, ss),
        all_round_trip(rs),
    ensures
        shapes_of(ss) == restored_shapes(rs),
    decreases rs, 0int,
{
    if rs.len() > 0 {
        lemma_all_round_trip(rs.drop_last(), ss.drop_last());
        lemma_dump_round_trip(rs.last(), ss.last());
    }
}

/// Saving a layout and rebuilding it gives back its shape, for every
/// layout without empty stacks or tab panels whose single tab, where there
/// is one, is in front.
pub proof fn lemma_dump_round_trip(r: RestoredItem, s: SavedItem)
    requires
        dumps_to(r, s),
        round_trips(r),
    ensures
        shape_of(s) == r.shape(),
    decreases r, 1int,
{
    match r {
        RestoredItem::Split { axis, items } => {
            assert(decreases_to!(r => items@));
            lemma_all_round_trip(items@, s.children@);
        },
        RestoredItem::Tabs { panels, active_ix } => {
            let kids = shapes_of(s.children@);
            lemma_shapes_len(s.children@);
            assert forall|i: int| 0 <= i < kids.len() implies #[trigger] kids[i] == LayoutShape::Tabs {
                panels: seq![panels@[i]@],
                active_ix: 0,
            } by {
                let c = s.children@[i];
                assert(c.children@ =~= Seq::<SavedItem>::empty());
            }
            let names = panels@.map_values(|p: String| p@);
            if panels@.len() == 1 {
                assert(names =~= seq![panels@[0]@]);
            } else {
                assert forall|k: int| 0 <= k <= kids.len() implies #[trigger] flat_panels(kids.take(k)) == names.take(k) by {
                    lemma_flat_prefix(kids, names, k);
                }
                assert(kids.take(kids.len() as int) =~= kids);
                assert(names.take(names.len() as int) =~= names);
            }
        },
    }
}

proof fn lemma_flat_prefix(kids: Seq<LayoutShape>, names: Seq<Seq<char>>, k: int)
    requires
        kids.len() == names.len(),
        0 <= k <= kids.len(),
        forall|i: int| 0 <= i < kids.len() ==> #[trigger] kids[i] == (LayoutShape::Tabs { panels: seq![names[i]], active_ix: 0 }),
    ensures
        flat_panels(kids.take(k)) == names.take(k),
    decreases k,
{
    if k > 0 {
        lemma_flat_prefix(kids, names, k - 1);
        assert(kids.take(k).drop_last() =~= kids.take(k - 1));
        assert(kids.take(k).last() == kids[k - 1]);
        assert(names.take(k) =~= names.take(k - 1) + seq![names[k - 1]]);
    }
}

} // verus!
