//! Nodes of the binary tree of a tab layout: empty, a leaf of tabs with an
//! active one, or a split into two children. Sizes and split fractions are
//! kept by the caller.

use crate::dock::Split;
use vstd::prelude::*;

verus! {

pub enum Node<Tab> {
    Empty,
    Leaf { tabs: Vec<Tab>, active: usize },
    Vertical,
    Horizontal,
}

/// The tabs of `s` for which `keep` holds, in order.
pub open spec fn kept<Tab>(s: Seq<Tab>, keep: Seq<bool>) -> Seq<Tab>
    decreases s.len(),
{
    if s.len() == 0 || keep.len() == 0 {
        Seq::empty()
    } else if keep.last() {
        kept(s.drop_last(), keep.drop_last()).push(s.last())
    } else {
        kept(s.drop_last(), keep.drop_last())
    }
}

/// The values that `outs` holds, in order.
pub open spec fn somes<T>(outs: Seq<Option<T>>) -> Seq<T>
    decreases outs.len(),
{
    if outs.len() == 0 {
        Seq::empty()
    } else {
        match outs.last() {
            Some(t) => somes(outs.drop_last()).push(t),
            None => somes(outs.drop_last()),
        }
    }
}

impl<Tab> Node<Tab> {
    /// The tabs of a leaf.
    pub open spec fn spec_tabs(&self) -> Seq<Tab> {
        match self {
            Node::Leaf { tabs, .. } => tabs@,
            _ => Seq::empty(),
        }
    }

    /// The active index of a leaf.
    pub open spec fn spec_active(&self) -> usize {
        match self {
            Node::Leaf { active, .. } => *active,
            _ => 0,
        }
    }

    /// A leaf holding one tab.
    pub fn leaf(tab: Tab) -> (r: Self)
        ensures
            r is Leaf,
            r.spec_tabs() == seq![tab],
            r.spec_active() == 0,
    {
        let mut tabs = Vec::new();
        tabs.push(tab);
        assert(tabs@ =~= seq![tab]);
        Node::Leaf { tabs, active: 0 }
    }

    /// A leaf holding `tabs`.
    pub fn leaf_with(tabs: Vec<Tab>) -> (r: Self)
        ensures
            r is Leaf,
            r.spec_tabs() == tabs@,
            r.spec_active() == 0,
    {
        Node::Leaf { tabs, active: 0 }
    }

    pub fn is_empty(&self) -> (r: bool)
        ensures
            r == self is Empty,
    {
        matches!(self, Node::Empty)
    }

    pub fn is_leaf(&self) -> (r: bool)
        ensures
            r == self is Leaf,
    {
        matches!(self, Node::Leaf { .. })
    }

    pub fn is_horizontal(&self) -> (r: bool)
        ensures
            r == self is Horizontal,
    {
        matches!(self, Node::Horizontal)
    }

    pub fn is_vertical(&self) -> (r: bool)
        ensures
            r == self is Vertical,
    {
        matches!(self, Node::Vertical)
    }

    /// Whether the node splits into two children.
    pub fn is_parent(&self) -> (r: bool)
        ensures
            r == (self is Horizontal || self is Vertical),
    {
        self.is_horizontal() || self.is_vertical()
    }

    /// Turns the node into a split along `split`'s axis and returns what it
    /// was.
    pub fn split(&mut self, split: Split) -> (r: Self)
        ensures
            r == *old(self),
            (split == Split::Left || split == Split::Right) ==> *final(self) is Horizontal,
            (split == Split::Top || split == Split::Bottom) ==> *final(self) is Vertical,
    {
        let mut src = match split {
            Split::Left | Split::Right => Node::Horizontal,
            Split::Top | Split::Bottom => Node::Vertical,
        };
        std::mem::swap(self, &mut src);
        src
    }

    /// The tabs of a leaf.
    pub fn tabs(&self) -> (r: Option<&Vec<Tab>>)
        ensures
            self is Leaf ==> (r matches Some(t) && t@ == self.spec_tabs()),
            !(self is Leaf) ==> r is None,
    {
        match self {
            Node::Leaf { tabs, .. } => Some(tabs),
            _ => None,
        }
    }

    /// Adds a tab at the end of a leaf and makes it active.
    pub fn append_tab(&mut self, tab: Tab)
        requires
            *old(self) is Leaf,
        ensures
            *final(self) is Leaf,
            final(self).spec_tabs() == old(self).spec_tabs().push(tab),
            final(self).spec_active() == old(self).spec_tabs().len(),
    {
        match self {
            Node::Leaf { tabs, active } => {
                *active = tabs.len();
                tabs.push(tab);
            },
            _ => {},
        }
    }

    /// Inserts a tab into a leaf at `ix` and makes it active.
    pub fn insert_tab(&mut self, ix: usize, tab: Tab)
        requires
            *old(self) is Leaf,
            ix <= old(self).spec_tabs().len(),
        ensures
            *final(self) is Leaf,
            final(self).spec_tabs() == old(self).spec_tabs().insert(ix as int, tab),
            final(self).spec_active() == ix,
    {
        match self {
            Node::Leaf { tabs, active } => {
                *active = ix;
                tabs.insert(ix, tab);
            },
            _ => {},
        }
    }

    /// Takes the tab at `ix` out of a leaf; where it was active, the first
    /// tab becomes active.
    pub fn remove_tab(&mut self, ix: usize) -> (r: Option<Tab>)
        requires
            *old(self) is Leaf ==> ix < old(self).spec_tabs().len(),
        ensures
            *old(self) is Leaf ==> {
                &&& r == Some(old(self).spec_tabs()[ix as int])
                &&& *final(self) is Leaf
                &&& final(self).spec_tabs() == old(self).spec_tabs().remove(ix as int)
                &&& final(self).spec_active() == if ix == old(self).spec_active() { 0 } else { old(self).spec_active() }
            },
            !(*old(self) is Leaf) ==> r is None && *final(self) == *old(self),
    {
        match self {
            Node::Leaf { tabs, active } => {
                if ix == *active {
                    *active = 0;
                }
                Some(tabs.remove(ix))
            },
            _ => None,
        }
    }

    pub fn tabs_count(&self) -> (r: usize)
        ensures
            r == self.spec_tabs().len(),
    {
        match self {
            Node::Leaf { tabs, .. } => tabs.len(),
            _ => 0,
        }
    }

    /// A node with each tab of a leaf mapped by `function`, dropping those
    /// it maps to `None`; a leaf left without tabs becomes empty. Other
    /// nodes keep their kind.
    pub fn filter_map_tabs<NewTab, F: Fn(&Tab) -> Option<NewTab>>(&self, function: F) -> (r: Node<NewTab>)
        requires
            forall|t: &Tab| #[trigger] function.requires((t,)),
        ensures
            *self is Empty ==> r is Empty,
            *self is Vertical ==> r is Vertical,
            *self is Horizontal ==> r is Horizontal,
            *self is Leaf ==> exists|outs: Seq<Option<NewTab>>|
                {
                    &&& outs.len() == self.spec_tabs().len()
                    &&& forall|i: int| 0 <= i < outs.len() ==> function.ensures((&self.spec_tabs()[i],), #[trigger] outs[i])
                    &&& somes(outs).len() == 0 ==> r is Empty
                    &&& somes(outs).len() > 0 ==> {
                        &&& r is Leaf
                        &&& r.spec_tabs() == somes(outs)
                        &&& r.spec_active() == self.spec_active()
                    }
                },
    {
        match self {
            Node::Leaf { tabs, active } => {
                let ghost s = tabs@;
                let mut out: Vec<NewTab> = Vec::new();
                let ghost mut outs: Seq<Option<NewTab>> = Seq::empty();
                let mut i: usize = 0;
                while i < tabs.len()
                    invariant
                        s == tabs@,
                        i <= s.len(),
                        outs.len() == i,
                        forall|j: int| 0 <= j < i ==> function.ensures((&s[j],), #[trigger] outs[j]),
                        forall|t: &Tab| #[trigger] function.requires((t,)),
                        out@ == somes(outs),
                    decreases s.len() - i,
                {
                    let o = function(&tabs[i]);
                    let ghost before = outs;
                    proof {
                        outs = outs.push(o);
                        assert(outs.drop_last() =~= before);
                    }
                    match o {
                        Some(t) => out.push(t),
                        None => {},
                    }
                    i += 1;
                }
                if out.len() == 0 {
                    Node::Empty
                } else {
                    Node::Leaf { tabs: out, active: *active }
                }
            },
            Node::Empty => Node::Empty,
            Node::Vertical => Node::Vertical,
            Node::Horizontal => Node::Horizontal,
        }
    }

    /// A node with each tab of a leaf mapped by `function`; a leaf without
    /// tabs becomes empty. Other nodes keep their kind.
    pub fn map_tabs<NewTab, F: Fn(&Tab) -> NewTab>(&self, function: F) -> (r: Node<NewTab>)
        requires
            forall|t: &Tab| #[trigger] function.requires((t,)),
        ensures
            *self is Empty ==> r is Empty,
            *self is Vertical ==> r is Vertical,
            *self is Horizontal ==> r is Horizontal,
            *self is Leaf && self.spec_tabs().len() == 0 ==> r is Empty,
            *self is Leaf && self.spec_tabs().len() > 0 ==> {
                &&& r is Leaf
                &&& r.spec_active() == self.spec_active()
                &&& r.spec_tabs().len() == self.spec_tabs().len()
                &&& forall|i: int|
                    0 <= i < self.spec_tabs().len() ==> function.ensures(
                        (&self.spec_tabs()[i],),
                        #[trigger] r.spec_tabs()[i],
                    )
            },
    {
        match self {
            Node::Leaf { tabs, active } => {
                let mut out: Vec<NewTab> = Vec::new();
                let mut i: usize = 0;
                while i < tabs.len()
                    invariant
                        i <= tabs@.len(),
                        out@.len() == i,
                        forall|j: int| 0 <= j < i ==> function.ensures((&tabs@[j],), #[trigger] out@[j]),
                        forall|t: &Tab| #[trigger] function.requires((t,)),
                    decreases tabs@.len() - i,
                {
                    let t = function(&tabs[i]);
                    out.push(t);
                    i += 1;
                }
                if out.len() == 0 {
                    Node::Empty
                } else {
                    Node::Leaf { tabs: out, active: *active }
                }
            },
            Node::Empty => Node::Empty,
            Node::Vertical => Node::Vertical,
            Node::Horizontal => Node::Horizontal,
        }
    }

    /// A node keeping a clone of each tab of a leaf for which `predicate`
    /// holds; a leaf left without tabs becomes empty. Other nodes keep their
    /// kind.
    pub fn filter_tabs<F: Fn(&Tab) -> bool>(&self, predicate: F) -> (r: Node<Tab>) where Tab: Clone
        requires
            forall|t: &Tab| #[trigger] predicate.requires((t,)),
        ensures
            *self is Empty ==> r is Empty,
            *self is Vertical ==> r is Vertical,
            *self is Horizontal ==> r is Horizontal,
            *self is Leaf ==> exists|keep: Seq<bool>|
                {
                    &&& keep.len() == self.spec_tabs().len()
                    &&& forall|i: int| 0 <= i < keep.len() ==> predicate.ensures((&self.spec_tabs()[i],), #[trigger] keep[i])
                    &&& kept(self.spec_tabs(), keep).len() == 0 ==> r is Empty
                    &&& kept(self.spec_tabs(), keep).len() > 0 ==> {
                        &&& r is Leaf
                        &&& r.spec_active() == self.spec_active()
                        &&& r.spec_tabs().len() == kept(self.spec_tabs(), keep).len()
                        &&& forall|j: int| 0 <= j < r.spec_tabs().len() ==> cloned(
                            #[trigger] kept(self.spec_tabs(), keep)[j],
                            r.spec_tabs()[j],
                        )
                    }
                },
    {
        match self {
            Node::Leaf { tabs, active } => {
                let ghost s = tabs@;
                let mut out: Vec<Tab> = Vec::new();
                let ghost mut keep: Seq<bool> = Seq::empty();
                let mut i: usize = 0;
                while i < tabs.len()
                    invariant
                        s == tabs@,
                        i <= s.len(),
                        keep.len() == i,
                        forall|j: int| 0 <= j < i ==> predicate.ensures((&s[j],), #[trigger] keep[j]),
                        forall|t: &Tab| #[trigger] predicate.requires((t,)),
                        out@.len() == kept(s.take(i as int), keep).len(),
                        forall|j: int| 0 <= j < out@.len() ==> cloned(
                            #[trigger] kept(s.take(i as int), keep)[j],
                            out@[j],
                        ),
                    decreases s.len() - i,
                {
                    let k = predicate(&tabs[i]);
                    let ghost old_keep = keep;
                    let ghost old_kept = kept(s.take(i as int), old_keep);
                    proof {
                        keep = keep.push(k);
                        assert(s.take(i + 1).drop_last() =~= s.take(i as int));
                        assert(keep.drop_last() =~= old_keep);
                        assert(s.take(i + 1).last() == s[i as int]);
                    }
                    if k {
                        let c = tabs[i].clone();
                        out.push(c);
                        proof {
                            assert(kept(s.take(i + 1), keep) == old_kept.push(s[i as int]));
                            assert forall|j: int| 0 <= j < out@.len() implies cloned(
                                #[trigger] kept(s.take(i + 1), keep)[j],
                                out@[j],
                            ) by {
                                if j < old_kept.len() {
                                    assert(kept(s.take(i + 1), keep)[j] == old_kept[j]);
                                }
                            }
                        }
                    } else {
                        proof {
                            assert(kept(s.take(i + 1), keep) == old_kept);
                        }
                    }
                    i += 1;
                }
                assert(s.take(s.len() as int) =~= s);
                if out.len() == 0 {
                    Node::Empty
                } else {
                    Node::Leaf { tabs: out, active: *active }
                }
            },
            Node::Empty => Node::Empty,
            Node::Vertical => Node::Vertical,
            Node::Horizontal => Node::Horizontal,
        }
    }

    /// The tabs of a leaf, to change in place; `None` for other nodes.
    pub fn tabs_mut(&mut self) -> (r: Option<&mut Vec<Tab>>)
        ensures
            !(*old(self) is Leaf) ==> r is None && *final(self) == *old(self),
            *old(self) is Leaf ==> (r matches Some(t) && t@ == old(self).spec_tabs()
                && *final(self) == (Node::Leaf { tabs: *final(t), active: old(self).spec_active() })),
    {
        match self {
            Node::Leaf { tabs, .. } => Some(tabs),
            _ => None,
        }
    }

    /// Keeps the tabs of a leaf for which `predicate` holds; a leaf left
    /// without tabs becomes empty.
    pub fn retain_tabs<F: Fn(&Tab) -> bool>(&mut self, predicate: F)
        requires
            forall|t: &Tab| #[trigger] predicate.requires((t,)),
        ensures
            !(*old(self) is Leaf) ==> *final(self) == *old(self),
            *old(self) is Leaf ==> exists|keep: Seq<bool>|
                {
                    &&& keep.len() == old(self).spec_tabs().len()
                    &&& forall|i: int| 0 <= i < keep.len() ==> predicate.ensures((&old(self).spec_tabs()[i],), #[trigger] keep[i])
                    &&& kept(old(self).spec_tabs(), keep).len() == 0 ==> *final(self) is Empty
                    &&& kept(old(self).spec_tabs(), keep).len() > 0 ==> {
                        &&& *final(self) is Leaf
                        &&& final(self).spec_tabs() == kept(old(self).spec_tabs(), keep)
                        &&& final(self).spec_active() == old(self).spec_active()
                    }
                },
    {
        let ghost orig = *self;
        let is_leaf = self.is_leaf();
        if !is_leaf {
            return;
        }
        let mut old_node = Node::Empty;
        std::mem::swap(self, &mut old_node);
        match old_node {
            Node::Leaf { tabs, active } => {
                let ghost s = tabs@;
                let n = tabs.len();
                let mut out: Vec<Tab> = Vec::new();
                let ghost mut keep: Seq<bool> = Seq::empty();
                let mut tabs = tabs;
                let mut rev: Vec<Tab> = Vec::new();
                while tabs.len() > 0
                    invariant
                        rev@ + tabs@.reverse() == s.reverse(),
                    decreases tabs.len(),
                {
                    let ghost before = tabs@;
                    let t = tabs.pop().unwrap();
                    rev.push(t);
                    assert(before.reverse() =~= seq![t] + tabs@.reverse());
                    assert(rev@ + tabs@.reverse() =~= (rev@.drop_last() + seq![t]) + tabs@.reverse());
                }
                assert(rev@ =~= s.reverse());
                let mut i: usize = 0;
                while rev.len() > 0
                    invariant
                        i + rev@.len() == s.len(),
                        s.len() == n,
                        rev@ =~= s.reverse().take(rev@.len() as int),
                        keep.len() == i,
                        forall|j: int| 0 <= j < i ==> predicate.ensures((&s[j],), #[trigger] keep[j]),
                        forall|t: &Tab| #[trigger] predicate.requires((t,)),
                        out@ == kept(s.take(i as int), keep),
                    decreases rev.len(),
                {
                    let t = rev.pop().unwrap();
                    assert(t == s[i as int]) by {
                        assert(s.reverse()[rev@.len() as int] == s[s.len() - 1 - rev@.len()]);
                    }
                    let k = predicate(&t);
                    let ghost old_keep = keep;
                    proof {
                        keep = keep.push(k);
                        assert(s.take(i + 1).drop_last() =~= s.take(i as int));
                        assert(keep.drop_last() =~= old_keep);
                        assert(s.take(i + 1).last() == t);
                    }
                    if k {
                        out.push(t);
                    }
                    proof {
                        assert(rev@ =~= s.reverse().take(rev@.len() as int));
                    }
                    i += 1;
                }
                assert(s.take(s.len() as int) =~= s);
                if out.len() > 0 {
                    *self = Node::Leaf { tabs: out, active };
                }
            },
            _ => {},
        }
    }
}

} // verus!
