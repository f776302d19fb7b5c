//! Placement and split directions of the dock area, and the small
//! encodings that its persisted layout uses.

use vstd::prelude::*;

verus! {

/// The axis along which panels are laid out.
#[derive(Debug, Clone, Copy, PartialEq, Eq, Structural)]
pub enum Axis {
    Horizontal,
    Vertical,
}

/// Where a dock is fixed in the window.
#[derive(Debug, Clone, Copy, PartialEq, Eq, Structural)]
pub enum DockPlacement {
    Left,
    Bottom,
    Right,
}

impl DockPlacement {
    /// The axis along which the dock is resized: left and right docks
    /// change their width, the bottom dock its height.
    pub fn axis(&self) -> (r: Axis)
        ensures
            r == (match *self {
                DockPlacement::Bottom => Axis::Vertical,
                _ => Axis::Horizontal,
            }),
    {
        match self {
            DockPlacement::Left | DockPlacement::Right => Axis::Horizontal,
            DockPlacement::Bottom => Axis::Vertical,
        }
    }

    pub fn is_left(&self) -> (r: bool)
        ensures
            r <==> *self == DockPlacement::Left,
    {
        matches!(self, DockPlacement::Left)
    }

    pub fn is_bottom(&self) -> (r: bool)
        ensures
            r <==> *self == DockPlacement::Bottom,
    {
        matches!(self, DockPlacement::Bottom)
    }

    pub fn is_right(&self) -> (r: bool)
        ensures
            r <==> *self == DockPlacement::Right,
    {
        matches!(self, DockPlacement::Right)
    }
}

/// A side of a panel where another panel can be placed.
#[derive(Debug, Clone, Copy, PartialEq, Eq, Structural)]
pub enum Placement {
    Top,
    Bottom,
    Left,
    Right,
}

impl Placement {
    /// Top and bottom stack vertically, left and right horizontally.
    pub fn axis(&self) -> (r: Axis)
        ensures
            r == (match *self {
                Placement::Top | Placement::Bottom => Axis::Vertical,
                _ => Axis::Horizontal,
            }),
    {
        match self {
            Placement::Top | Placement::Bottom => Axis::Vertical,
            Placement::Left | Placement::Right => Axis::Horizontal,
        }
    }

    pub fn is_vertical(&self) -> (r: bool)
        ensures
            r <==> (*self == Placement::Top || *self == Placement::Bottom),
    {
        matches!(self, Placement::Top | Placement::Bottom)
    }

    pub fn is_horizontal(&self) -> (r: bool)
        ensures
            r <==> (*self == Placement::Left || *self == Placement::Right),
    {
        matches!(self, Placement::Left | Placement::Right)
    }
}

impl Axis {
    pub fn is_vertical(&self) -> (r: bool)
        ensures
            r <==> *self == Axis::Vertical,
    {
        matches!(self, Axis::Vertical)
    }

    pub fn is_horizontal(&self) -> (r: bool)
        ensures
            r <==> *self == Axis::Horizontal,
    {
        matches!(self, Axis::Horizontal)
    }
}

/// The number a saved layout uses for the axis of a stack: 0 for
/// horizontal, 1 for vertical.
pub fn stack_axis_code(axis: Axis) -> (r: usize)
    ensures
        r == if axis == Axis::Horizontal { 0usize } else { 1usize },
{
    if axis == Axis::Horizontal {
        0
    } else {
        1
    }
}

/// The axis of a stack in a saved layout: 0 is horizontal, any other
/// number vertical.
pub fn stack_axis(code: usize) -> (r: Axis)
    ensures
        r == if code == 0 { Axis::Horizontal } else { Axis::Vertical },
{
    if code == 0 {
        Axis::Horizontal
    } else {
        Axis::Vertical
    }
}

/// A saved axis reads back as the axis that was saved.
pub proof fn lemma_stack_axis_round_trip(axis: Axis)
    ensures
        (if (if axis == Axis::Horizontal { 0usize } else { 1usize }) == 0 { Axis::Horizontal } else { Axis::Vertical })
            == axis,
{
}

/// What a panel tells the dock area.
#[derive(Debug, Clone, Copy, PartialEq, Eq, Structural)]
pub enum PanelEvent {
    ZoomIn,
    ZoomOut,
    LayoutChanged,
}

/// How a panel shows its title.
#[derive(Debug, Clone, Copy, PartialEq, Eq, Structural)]
pub enum PanelStyle {
    /// The tab bar where there are several tabs, else a plain title.
    Default,
    /// Always the tab bar.
    TabBar,
}

/// What the dock area tells its subscribers.
#[derive(Debug, Clone, Copy, PartialEq, Eq, Structural)]
pub enum DockEvent {
    /// The layout changed; subscribers save it.
    LayoutChanged,
}

/// The identifier of a workspace in its database.
#[derive(Debug, Clone, Copy, PartialEq, Eq, Structural)]
pub struct WorkspaceId(pub i64);

/// The direction in which to split.
#[derive(Debug, Clone, Copy, PartialEq, Eq, Structural)]
pub enum Split {
    Left,
    Right,
    Top,
    Bottom,
}

impl Split {
    pub fn is_horizontal(self) -> (r: bool)
        ensures
            r <==> (self == Split::Left || self == Split::Right),
    {
        matches!(self, Split::Left | Split::Right)
    }

    pub fn is_vertical(self) -> (r: bool)
        ensures
            r <==> (self == Split::Top || self == Split::Bottom),
    {
        matches!(self, Split::Top | Split::Bottom)
    }
}

/// How a new tab is inserted.
#[derive(Debug, Clone, Copy, PartialEq, Eq, Structural)]
pub enum TabInsert {
    Split(Split),
    Insert(usize),
    Append,
}

} // verus!
