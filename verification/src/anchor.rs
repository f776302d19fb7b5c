//! Which corner of a floating element (a popover, a color picker's panel)
//! is pinned, and to which corner of its trigger it is pinned.

use vstd::prelude::*;

verus! {

/// A corner of a rectangle.
#[derive(Clone, Copy, Debug, PartialEq, Eq, Structural)]
pub enum AnchorCorner {
    TopLeft,
    TopRight,
    BottomLeft,
    BottomRight,
}

impl AnchorCorner {
    /// Whether the corner is on the top edge.
    pub open spec fn spec_is_top(self) -> bool {
        self is TopLeft || self is TopRight
    }

    /// Whether the corner is on the left edge.
    pub open spec fn spec_is_left(self) -> bool {
        self is TopLeft || self is BottomLeft
    }

    /// Whether the corner is on the top edge.
    pub fn is_top(&self) -> (r: bool)
        ensures
            r == self.spec_is_top(),
    {
        match self {
            AnchorCorner::TopLeft | AnchorCorner::TopRight => true,
            AnchorCorner::BottomLeft | AnchorCorner::BottomRight => false,
        }
    }

    /// Whether the corner is on the left edge.
    pub fn is_left(&self) -> (r: bool)
        ensures
            r == self.spec_is_left(),
    {
        match self {
            AnchorCorner::TopLeft | AnchorCorner::BottomLeft => true,
            AnchorCorner::TopRight | AnchorCorner::BottomRight => false,
        }
    }

    /// The corner on the same side and the opposite edge.
    pub open spec fn spec_trigger_corner(self) -> AnchorCorner {
        match self {
            AnchorCorner::TopLeft => AnchorCorner::BottomLeft,
            AnchorCorner::TopRight => AnchorCorner::BottomRight,
            AnchorCorner::BottomLeft => AnchorCorner::TopLeft,
            AnchorCorner::BottomRight => AnchorCorner::TopRight,
        }
    }

    /// The corner of the trigger at which an element anchored by `self` is
    /// placed: the same side, on the opposite edge, so that an element
    /// pinned by its top corner hangs below the trigger and one pinned by
    /// its bottom corner stands above it.
    pub fn trigger_corner(&self) -> (r: AnchorCorner)
        ensures
            r == self.spec_trigger_corner(),
            r.spec_is_left() == self.spec_is_left(),
            r.spec_is_top() == !self.spec_is_top(),
    {
        match self {
            AnchorCorner::TopLeft => AnchorCorner::BottomLeft,
            AnchorCorner::TopRight => AnchorCorner::BottomRight,
            AnchorCorner::BottomLeft => AnchorCorner::TopLeft,
            AnchorCorner::BottomRight => AnchorCorner::TopRight,
        }
    }
}

/// Taking the trigger corner twice gives back the corner one started from.
pub proof fn lemma_trigger_corner_twice(c: AnchorCorner)
    ensures
        c.spec_trigger_corner().spec_trigger_corner() == c,
{
}

} // verus!
