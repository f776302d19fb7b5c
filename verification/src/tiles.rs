//! Free-floating tiles stacked by z-index: the order in which they are
//! drawn, and bringing one to the front. Panels are named by their entity
//! ids; where a tile lies on screen is kept by the caller.

use crate::dock::Placement;
use crate::stack_panel::insert_once;
use crate::tab_panel::{holds, index_of, position};
use vstd::prelude::*;
use vstd::set_lib::{lemma_int_range, lemma_len_subset, lemma_subset_equality, set_int_range};

verus! {

/// A panel placed as a tile, with its place in the stacking order.
#[derive(Debug, Clone, Copy, PartialEq, Eq, Structural)]
pub struct TileItem {
    pub panel: u64,
    pub z_index: usize,
}

impl TileItem {
    /// A tile at z-index 0.
    pub fn new(panel: u64) -> (r: Self)
        ensures
            r == (TileItem { panel, z_index: 0 }),
    {
        TileItem { panel, z_index: 0 }
    }

    pub fn z_index(self, z_index: usize) -> (r: Self)
        ensures
            r == (TileItem { z_index, ..self }),
    {
        TileItem { z_index, ..self }
    }
}

/// Tile `a` (at index `a`) is drawn before tile `b`: lower z-index first,
/// and among equal z-indexes the earlier tile first.
pub open spec fn drawn_before(items: Seq<TileItem>, a: int, b: int) -> bool {
    items[a].z_index < items[b].z_index || (items[a].z_index == items[b].z_index && a < b)
}

/// `order` lists every index of `items` once, in drawing order.
pub open spec fn is_drawing_order(items: Seq<TileItem>, order: Seq<usize>) -> bool {
    &&& order.len() == items.len()
    &&& forall|k: int| 0 <= k < order.len() ==> (#[trigger] order[k]) < items.len()
    &&& forall|k: int, l: int| 0 <= k < l < order.len() ==> drawn_before(items, order[k] as int, order[l] as int)
}

/// Which tile the pointer is moving or resizing, if any, and whether a
/// resize drag is under way.
pub ghost struct TileGrab {
    pub dragging_index: Option<usize>,
    pub resizing_index: Option<usize>,
    pub resize_dragging: bool,
}

pub struct Tiles {
    panels: Vec<TileItem>,
    dragging_index: Option<usize>,
    resizing_index: Option<usize>,
    resize_dragging: bool,
}

impl Tiles {
    /// What the pointer holds.
    pub closed spec fn grab(&self) -> TileGrab {
        TileGrab {
            dragging_index: self.dragging_index,
            resizing_index: self.resizing_index,
            resize_dragging: self.resize_dragging,
        }
    }
}

impl View for Tiles {
    type V = Seq<TileItem>;

    closed spec fn view(&self) -> Seq<TileItem> {
        self.panels@
    }
}

/// Where `panel` first occurs among the tiles.
pub open spec fn tile_index(items: Seq<TileItem>, panel: u64) -> Option<int>
    decreases items.len(),
{
    if items.len() == 0 {
        None
    } else if items[0].panel == panel {
        Some(0)
    } else {
        match tile_index(items.drop_first(), panel) {
            Some(i) => Some(i + 1),
            None => None,
        }
    }
}

impl Tiles {
    pub fn new() -> (r: Self)
        ensures
            r@ == Seq::<TileItem>::empty(),
            r.grab() == (TileGrab { dragging_index: None, resizing_index: None, resize_dragging: false }),
    {
        Tiles { panels: Vec::new(), dragging_index: None, resizing_index: None, resize_dragging: false }
    }

    pub fn items(&self) -> (r: &Vec<TileItem>)
        ensures
            r@ == self@,
    {
        &self.panels
    }

    /// Where a panel's tile stands.
    pub fn index_of(&self, panel: u64) -> (r: Option<usize>)
        ensures
            r matches Some(i) ==> i < self@.len() && tile_index(self@, panel) == Some(i as int) && self@[i as int].panel == panel,
            r is None ==> tile_index(self@, panel) is None,
    {
        let mut i: usize = 0;
        assert(self.panels@.skip(0) =~= self.panels@);
        while i < self.panels.len()
            invariant
                i <= self.panels@.len(),
                tile_index(self.panels@, panel) == match tile_index(self.panels@.skip(i as int), panel) {
                    Some(j) => Some(j + i),
                    None => None::<int>,
                },
            decreases self.panels.len() - i,
        {
            assert(self.panels@.skip(i as int).drop_first() =~= self.panels@.skip(i + 1));
            if self.panels[i].panel == panel {
                return Some(i);
            }
            i += 1;
        }
        None
    }

    /// Removes a panel's tile; returns whether it was there.
    pub fn remove(&mut self, panel: u64) -> (removed: bool)
        ensures
            match tile_index(old(self)@, panel) {
                Some(i) => removed && final(self)@ == old(self)@.remove(i),
                None => !removed && final(self)@ == old(self)@,
            },
            final(self).grab() == old(self).grab(),
    {
        match self.index_of(panel) {
            Some(ix) => {
                self.panels.remove(ix);
                true
            },
            None => false,
        }
    }

    /// Adds a tile at the end.
    pub fn add_item(&mut self, item: TileItem)
        ensures
            final(self)@ == old(self)@.push(item),
            final(self).grab() == old(self).grab(),
    {
        self.panels.push(item);
    }

    /// Lets go of whatever the pointer moves or resizes.
    fn reset_current_index(&mut self)
        ensures
            final(self)@ == old(self)@,
            final(self).grab() == (TileGrab { dragging_index: None, resizing_index: None, ..old(self).grab() }),
    {
        self.dragging_index = None;
        self.resizing_index = None;
    }

    /// The tile being moved, if any.
    pub fn dragging_index(&self) -> (r: Option<usize>)
        ensures
            r == self.grab().dragging_index,
    {
        self.dragging_index
    }

    /// The tile being resized, if any.
    pub fn resizing_index(&self) -> (r: Option<usize>)
        ensures
            r == self.grab().resizing_index,
    {
        self.resizing_index
    }

    /// The drag bar was pressed over the tile `hit`, if any (found by the
    /// caller from the pointer's position): that tile is taken to be moved
    /// and brought to the front, and the index it moves to is tracked.
    pub fn start_dragging(&mut self, hit: Option<usize>)
        ensures
            ({
                let g = if hit is Some { TileGrab { dragging_index: hit, ..old(self).grab() } } else { old(self).grab() };
                match g.dragging_index {
                    Some(i) if i < old(self)@.len() => {
                        &&& final(self)@ == brought_to_front(old(self)@, i as int)
                        &&& final(self).grab() == (TileGrab {
                            dragging_index: Some((old(self)@.len() - 1) as usize),
                            resizing_index: None,
                            ..g
                        })
                    },
                    _ => final(self)@ == old(self)@ && final(self).grab() == g,
                }
            }),
    {
        if let Some(index) = hit {
            self.dragging_index = Some(index);
        }
        if let Some((_, new_ix)) = self.bring_to_front(self.dragging_index) {
            self.dragging_index = Some(new_ix);
        }
    }

    /// A resize handle was pressed over the tile `hit`, if any: that tile is
    /// taken to be resized and brought to the front, and the index it moves
    /// to is tracked.
    pub fn start_resizing(&mut self, hit: Option<usize>)
        ensures
            ({
                let g = if hit is Some {
                    TileGrab { resizing_index: hit, resize_dragging: true, ..old(self).grab() }
                } else {
                    old(self).grab()
                };
                match g.resizing_index {
                    Some(i) if i < old(self)@.len() => {
                        &&& final(self)@ == brought_to_front(old(self)@, i as int)
                        &&& final(self).grab() == (TileGrab {
                            dragging_index: None,
                            resizing_index: Some((old(self)@.len() - 1) as usize),
                            ..g
                        })
                    },
                    _ => final(self)@ == old(self)@ && final(self).grab() == g,
                }
            }),
    {
        if let Some(index) = hit {
            self.resizing_index = Some(index);
            self.resize_dragging = true;
        }
        if let Some((_, new_ix)) = self.bring_to_front(self.resizing_index) {
            self.resizing_index = Some(new_ix);
        }
    }

    /// The pointer was released: whatever was moved or resized is let go.
    /// Returns whether something was, so that the layout is saved.
    pub fn on_mouse_up(&mut self) -> (changed: bool)
        ensures
            changed == (old(self).grab().dragging_index is Some || old(self).grab().resizing_index is Some
                || old(self).grab().resize_dragging),
            final(self)@ == old(self)@,
            changed ==> final(self).grab() == (TileGrab { dragging_index: None, resizing_index: None, resize_dragging: false }),
            !changed ==> final(self).grab() == old(self).grab(),
    {
        if self.dragging_index.is_some() || self.resizing_index.is_some() || self.resize_dragging {
            self.reset_current_index();
            self.resize_dragging = false;
            true
        } else {
            false
        }
    }

    /// The canvas was pressed over the tile `hit`, if any: while nothing is
    /// moved or resized, that tile comes to the front. Returns whether it
    /// did.
    pub fn on_mouse_down(&mut self, hit: Option<usize>) -> (moved: bool)
        ensures
            moved == (old(self).grab().dragging_index is None && old(self).grab().resizing_index is None
                && hit is Some),
            moved && hit->Some_0 < old(self)@.len() ==> final(self)@ == brought_to_front(old(self)@, hit->Some_0 as int),
            !(moved && hit->Some_0 < old(self)@.len()) ==> final(self)@ == old(self)@,
            final(self).grab() == old(self).grab(),
    {
        if self.resizing_index.is_none() && self.dragging_index.is_none() {
            if let Some(index) = hit {
                self.bring_to_front(Some(index));
                return true;
            }
        }
        false
    }

    /// Brings the tile at `target_index` to the front: it moves to the end of
    /// the list and takes the highest z-index, so that it is drawn last.
    /// Returns its old and new index, where there was such a tile.
    pub fn bring_to_front(&mut self, target_index: Option<usize>) -> (r: Option<(usize, usize)>)
        ensures
            match target_index {
                Some(i) if i < old(self)@.len() => {
                    &&& r == Some((i, (old(self)@.len() - 1) as usize))
                    &&& final(self)@ == brought_to_front(old(self)@, i as int)
                    &&& forall|order: Seq<usize>| #[trigger] is_drawing_order(final(self)@, order)
                        ==> order[order.len() - 1] == i_last(final(self)@)
                    &&& final(self).grab() == (TileGrab { dragging_index: None, resizing_index: None, ..old(self).grab() })
                },
                _ => r is None && final(self)@ == old(self)@ && final(self).grab() == old(self).grab(),
            },
    {
        match target_index {
            Some(old_index) => {
                if old_index < self.panels.len() {
                    let ghost items = self.panels@;
                    let mut top: usize = 0;
                    let mut k: usize = 0;
                    while k < self.panels.len()
                        invariant
                            self.panels@ == items,
                            k <= items.len(),
                            top == max_z(items.take(k as int)),
                        decreases items.len() - k,
                    {
                        assert(items.take(k + 1).drop_last() =~= items.take(k as int));
                        if self.panels[k].z_index > top {
                            top = self.panels[k].z_index;
                        }
                        k += 1;
                    }
                    assert(items.take(items.len() as int) =~= items);
                    let item = self.panels.remove(old_index);
                    self.panels.push(TileItem { z_index: top, ..item });
                    let new_index = self.panels.len() - 1;
                    self.reset_current_index();
                    proof {
                        let after = self.panels@;
                        lemma_max_z(items);
                        assert forall|j: int| 0 <= j < after.len() implies (#[trigger] after[j]).z_index
                            <= after[after.len() - 1].z_index by {
                            if j < after.len() - 1 {
                                if j < old_index {
                                    assert(after[j] == items[j]);
                                } else {
                                    assert(after[j] == items[j + 1]);
                                }
                            }
                        }
                        assert forall|order: Seq<usize>| #[trigger] is_drawing_order(after, order)
                            implies order[order.len() - 1] == i_last(after) by {
                            lemma_top_drawn_last(after, order);
                        }
                    }
                    return Some((old_index, new_index));
                }
                None
            },
            None => None,
        }
    }

    /// The indexes of the tiles in drawing order: by z-index, and by
    /// position among equal z-indexes.
    pub fn drawing_order(&self) -> (order: Vec<usize>)
        ensures
            is_drawing_order(self@, order@),
    {
        let items = &self.panels;
        let mut order: Vec<usize> = Vec::new();
        let mut i: usize = 0;
        while i < items.len()
            invariant
                i <= items@.len(),
                order@.len() == i,
                forall|k: int| 0 <= k < order@.len() ==> (#[trigger] order@[k]) < i,
                forall|k: int, l: int| 0 <= k < l < order@.len() ==> drawn_before(items@, order@[k] as int, order@[l] as int),
            decreases items.len() - i,
        {
            let z = items[i].z_index;
            let mut p: usize = 0;
            while p < order.len() && items[order[p]].z_index <= z
                invariant
                    p <= order@.len(),
                    order@.len() == i,
                    i < items@.len(),
                    z == items@[i as int].z_index,
                    forall|k: int| 0 <= k < order@.len() ==> (#[trigger] order@[k]) < i,
                    forall|k: int| 0 <= k < p ==> items@[#[trigger] order@[k] as int].z_index <= z,
                decreases order.len() - p,
            {
                p += 1;
            }
            proof {
                assert forall|k: int| p <= k < order@.len() implies items@[#[trigger] order@[k] as int].z_index > z by {
                    if k > p {
                        assert(drawn_before(items@, order@[p as int] as int, order@[k] as int));
                    }
                }
            }
            let ghost before = order@;
            order.insert(p, i);
            proof {
                assert forall|k: int, l: int| 0 <= k < l < order@.len() implies drawn_before(
                    items@,
                    order@[k] as int,
                    order@[l] as int,
                ) by {
                    if k == p {
                        assert(order@[l] == before[l - 1]);
                    } else if l == p {
                        assert(order@[k] == before[k]);
                    } else {
                        let a = if k < p { k } else { k - 1 };
                        let b = if l < p { l } else { l - 1 };
                        assert(order@[k] == before[a]);
                        assert(order@[l] == before[b]);
                    }
                }
                assert forall|k: int| 0 <= k < order@.len() implies (#[trigger] order@[k]) < i + 1 by {
                    if k < p {
                        assert(order@[k] == before[k]);
                    } else if k > p {
                        assert(order@[k] == before[k - 1]);
                    }
                }
            }
            i += 1;
        }
        order
    }

    /// The tiles in drawing order.
    pub fn sorted_panels(&self) -> (r: Vec<TileItem>)
        ensures
            exists|order: Seq<usize>|
                is_drawing_order(self@, order) && r@.len() == order.len() && forall|k: int|
                    0 <= k < order.len() ==> r@[k] == self@[#[trigger] order[k] as int],
    {
        let order = self.drawing_order();
        let mut r: Vec<TileItem> = Vec::new();
        let mut k: usize = 0;
        while k < order.len()
            invariant
                k <= order@.len(),
                is_drawing_order(self@, order@),
                r@.len() == k,
                forall|j: int| 0 <= j < k ==> r@[j] == self@[#[trigger] order@[j] as int],
            decreases order.len() - k,
        {
            r.push(self.panels[order[k]]);
            k += 1;
        }
        r
    }
}

/// A canvas of panels placed freely, each at most once, in the order they
/// were added. Panels are named by their entity ids; their bounds are kept
/// by the caller.
/// The highest z-index among `items`, or 0 where there are none.
pub open spec fn max_z(items: Seq<TileItem>) -> usize
    decreases items.len(),
{
    if items.len() == 0 {
        0
    } else {
        let m = max_z(items.drop_last());
        if items.last().z_index > m {
            items.last().z_index
        } else {
            m
        }
    }
}

/// The tiles with the tile at `i` moved to the end and raised to the
/// highest z-index, so that it is drawn over every other.
pub open spec fn brought_to_front(items: Seq<TileItem>, i: int) -> Seq<TileItem> {
    items.remove(i).push(TileItem { z_index: max_z(items), ..items[i] })
}

/// The index of the last tile.
pub open spec fn i_last(items: Seq<TileItem>) -> usize {
    (items.len() - 1) as usize
}

proof fn lemma_max_z(items: Seq<TileItem>)
    ensures
        forall|j: int| 0 <= j < items.len() ==> (#[trigger] items[j]).z_index <= max_z(items),
    decreases items.len(),
{
    if items.len() > 0 {
        lemma_max_z(items.drop_last());
        assert forall|j: int| 0 <= j < items.len() implies (#[trigger] items[j]).z_index <= max_z(items) by {
            if j < items.len() - 1 {
                assert(items[j] == items.drop_last()[j]);
            }
        }
    }
}

/// A tile last in the list with a z-index no lower than any other is drawn
/// last.
proof fn lemma_top_drawn_last(items: Seq<TileItem>, order: Seq<usize>)
    requires
        0 < items.len() <= usize::MAX,
        forall|j: int| 0 <= j < items.len() ==> (#[trigger] items[j]).z_index <= items[items.len() - 1].z_index,
        is_drawing_order(items, order),
    ensures
        order[order.len() - 1] == items.len() - 1,
{
    lemma_drawing_order_draws_each_once(items, order);
    let n = items.len();
    let top = (n - 1) as usize;
    assert(order.contains(top));
    let k = choose|k: int| 0 <= k < order.len() && order[k] == top;
    let last = order.len() - 1;
    if k != last {
        assert(k < last);
        assert(order[last] < items.len());
        assert(order[k] != order[last]);
        assert(drawn_before(items, order[k] as int, order[last] as int));
        assert(items[order[last] as int].z_index <= items[n - 1].z_index);
    }
}

pub struct TilePanel {
    panels: Vec<u64>,
}

impl View for TilePanel {
    type V = Seq<u64>;

    closed spec fn view(&self) -> Seq<u64> {
        self.panels@
    }
}

impl TilePanel {
    /// An empty canvas.
    pub fn new() -> (r: Self)
        ensures
            r@ == Seq::<u64>::empty(),
    {
        TilePanel { panels: Vec::new() }
    }

    pub fn panels(&self) -> (r: &Vec<u64>)
        ensures
            r@ == self@,
    {
        &self.panels
    }

    pub fn panels_len(&self) -> (r: usize)
        ensures
            r == self@.len(),
    {
        self.panels.len()
    }

    /// Where a panel stands on the canvas.
    pub fn index_of_panel(&self, id: u64) -> (r: Option<usize>)
        ensures
            r matches Some(i) ==> i < self@.len() && index_of(self@, id) == Some(i as int) && self@[i as int] == id,
            r is None <==> !holds(self@, id),
    {
        position(&self.panels, id)
    }

    /// Adds a panel at the end, unless it is there.
    pub fn add_panel(&mut self, id: u64)
        ensures
            final(self)@ == insert_once(old(self)@, id, old(self)@.len() as int),
    {
        let n = self.panels.len();
        self.insert_panel(id, n);
    }

    /// Adds a panel at the end, before or after the last one by `placement`.
    pub fn add_panel_at(&mut self, id: u64, placement: Placement)
        requires
            old(self)@.len() < usize::MAX,
        ensures
            final(self)@ == insert_once(
                old(self)@,
                id,
                if placement == Placement::Top || placement == Placement::Left {
                    old(self)@.len() as int
                } else {
                    old(self)@.len() + 1int
                },
            ),
    {
        let n = self.panels.len();
        self.insert_panel_at(id, n, placement);
    }

    /// Inserts a panel before the one at `ix` where `placement` is top or
    /// left, after it otherwise.
    pub fn insert_panel_at(&mut self, id: u64, ix: usize, placement: Placement)
        requires
            ix < usize::MAX,
        ensures
            final(self)@ == insert_once(
                old(self)@,
                id,
                if placement == Placement::Top || placement == Placement::Left { ix as int } else { ix + 1 },
            ),
    {
        match placement {
            Placement::Top | Placement::Left => self.insert_panel_before(id, ix),
            Placement::Right | Placement::Bottom => self.insert_panel_after(id, ix),
        }
    }

    pub fn insert_panel_before(&mut self, id: u64, ix: usize)
        ensures
            final(self)@ == insert_once(old(self)@, id, ix as int),
    {
        self.insert_panel(id, ix);
    }

    pub fn insert_panel_after(&mut self, id: u64, ix: usize)
        requires
            ix < usize::MAX,
        ensures
            final(self)@ == insert_once(old(self)@, id, ix + 1),
    {
        self.insert_panel(id, ix + 1);
    }

    /// Inserts a panel at `ix`, or at the end where `ix` is past it, unless
    /// the canvas holds it.
    fn insert_panel(&mut self, id: u64, ix: usize)
        ensures
            final(self)@ == insert_once(old(self)@, id, ix as int),
    {
        if position(&self.panels, id).is_some() {
            return;
        }
        let ix = if ix > self.panels.len() {
            self.panels.len()
        } else {
            ix
        };
        self.panels.insert(ix, id);
    }

    /// Removes a panel; returns whether it was there.
    pub fn remove_panel(&mut self, id: u64) -> (removed: bool)
        ensures
            removed == holds(old(self)@, id),
            match index_of(old(self)@, id) {
                Some(i) => final(self)@ == old(self)@.remove(i),
                None => final(self)@ == old(self)@,
            },
    {
        match position(&self.panels, id) {
            Some(ix) => {
                self.panels.remove(ix);
                true
            },
            None => false,
        }
    }
}

/// A drawing order draws every tile exactly once: each index of `items`
/// occurs in it, and no index occurs twice.
pub proof fn lemma_drawing_order_draws_each_once(items: Seq<TileItem>, order: Seq<usize>)
    requires
        is_drawing_order(items, order),
    ensures
        forall|i: usize| i < items.len() ==> #[trigger] order.contains(i),
        forall|k: int, l: int| 0 <= k < l < order.len() ==> order[k] != order[l],
{
    let n = items.len() as int;
    let ints = order.map_values(|x: usize| x as int);
    assert forall|k: int, l: int| 0 <= k < l < ints.len() implies ints[k] != ints[l] by {
        assert(drawn_before(items, order[k] as int, order[l] as int));
    }
    assert(ints.no_duplicates());
    ints.unique_seq_to_set();
    lemma_int_range(0, n);
    let s = ints.to_set();
    let r = set_int_range(0, n);
    assert(s.subset_of(r)) by {
        assert forall|x: int| s.contains(x) implies r.contains(x) by {
            let k = choose|k: int| 0 <= k < ints.len() && ints[k] == x;
            assert(order[k] < items.len());
        }
    }
    lemma_len_subset(s, r);
    lemma_subset_equality(s, r);
    assert forall|i: usize| i < items.len() implies #[trigger] order.contains(i) by {
        assert(r.contains(i as int));
        assert(s.contains(i as int));
        let k = choose|k: int| 0 <= k < ints.len() && ints[k] == i as int;
        assert(order[k] == i);
    }
    assert forall|k: int, l: int| 0 <= k < l < order.len() implies order[k] != order[l] by {
        assert(drawn_before(items, order[k] as int, order[l] as int));
    }
}

proof fn lemma_orders_agree_below(items: Seq<TileItem>, o1: Seq<usize>, o2: Seq<usize>, k: int)
    requires
        is_drawing_order(items, o1),
        is_drawing_order(items, o2),
        0 <= k <= o1.len(),
    ensures
        forall|j: int| 0 <= j < k ==> o1[j] == o2[j],
    decreases k,
{
    if k > 0 {
        lemma_orders_agree_below(items, o1, o2, k - 1);
        lemma_drawing_order_draws_each_once(items, o1);
        lemma_drawing_order_draws_each_once(items, o2);
        let top = k - 1;
        let a = o1[top];
        let b = o2[top];
        if a != b {
            if drawn_before(items, a as int, b as int) {
                assert(o2.contains(a));
                let m = choose|m: int| 0 <= m < o2.len() && o2[m] == a;
                if m < top {
                    assert(o1[m] == o2[m]);
                } else {
                    assert(drawn_before(items, o2[top] as int, o2[m] as int));
                }
            } else {
                assert(o1.contains(b));
                let m = choose|m: int| 0 <= m < o1.len() && o1[m] == b;
                if m < top {
                    assert(o1[m] == o2[m]);
                } else {
                    assert(drawn_before(items, o1[top] as int, o1[m] as int));
                }
            }
        }
    }
}

/// The drawing order is determined by the tiles: two drawing orders of the
/// same tiles are the same.
pub proof fn lemma_drawing_order_unique(items: Seq<TileItem>, o1: Seq<usize>, o2: Seq<usize>)
    requires
        is_drawing_order(items, o1),
        is_drawing_order(items, o2),
    ensures
        o1 == o2,
{
    lemma_orders_agree_below(items, o1, o2, o1.len() as int);
    assert(o1 =~= o2);
}

} // verus!
