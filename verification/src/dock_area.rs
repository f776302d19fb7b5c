//! The docks at the left, bottom and right of a dock area, and the area's
//! own state: locked, zoomed, and the version of its default layout. The
//! sizes of docks, in pixels, are kept by the caller.

use crate::dock::{Axis, DockPlacement};
use crate::dock_item::{toggle_button_tab_panels, DockItem};
use crate::tab_panel::{new_tab_panel_view, TabPanel, TabPanelView};
use vstd::prelude::*;

verus! {

/// What a dock holds.
pub ghost struct DockView {
    pub placement: DockPlacement,
    pub panel: TabPanelView,
    pub open: bool,
    pub resizeable: bool,
    pub resizing: bool,
}

/// A dock: a tab panel fixed at one side of the dock area.
pub struct Dock {
    placement: DockPlacement,
    panel: TabPanel,
    open: bool,
    resizeable: bool,
    is_resizing: bool,
}

impl View for Dock {
    type V = DockView;

    closed spec fn view(&self) -> DockView {
        DockView {
            placement: self.placement,
            panel: self.panel@,
            open: self.open,
            resizeable: self.resizeable,
            resizing: self.is_resizing,
        }
    }
}

/// What a new dock at `placement` holds: open, resizeable, not being
/// resized, with an empty tab panel outside any stack that cannot be
/// closed.
pub open spec fn new_dock_view(placement: DockPlacement) -> DockView {
    DockView {
        placement,
        panel: TabPanelView { closable: false, ..new_tab_panel_view() },
        open: true,
        resizeable: true,
        resizing: false,
    }
}

impl Dock {
    /// An open, resizeable dock at `placement` whose tab panel has no
    /// panels and cannot be closed.
    pub fn new(placement: DockPlacement) -> (r: Self)
        ensures
            r@ == new_dock_view(placement),
    {
        let mut panel = TabPanel::new(false);
        panel.set_closable(false);
        Dock { placement, panel, open: true, resizeable: true, is_resizing: false }
    }

    pub fn left() -> (r: Self)
        ensures
            r@ == new_dock_view(DockPlacement::Left),
    {
        Dock::new(DockPlacement::Left)
    }

    pub fn bottom() -> (r: Self)
        ensures
            r@ == new_dock_view(DockPlacement::Bottom),
    {
        Dock::new(DockPlacement::Bottom)
    }

    pub fn right() -> (r: Self)
        ensures
            r@ == new_dock_view(DockPlacement::Right),
    {
        Dock::new(DockPlacement::Right)
    }

    pub fn placement(&self) -> (r: DockPlacement)
        ensures
            r == self@.placement,
    {
        self.placement
    }

    pub fn panel(&self) -> (r: &TabPanel)
        ensures
            r@ == self@.panel,
    {
        &self.panel
    }

    /// Puts `panels` in the dock's tab panel, the first one active.
    pub fn set_panels(&mut self, panels: Vec<u64>)
        ensures
            final(self)@ == (DockView {
                panel: TabPanelView { panels: panels@, active_ix: 0, ..old(self)@.panel },
                ..old(self)@
            }),
    {
        self.panel.replace_panels(panels);
    }

    pub fn resizeable(self, resizeable: bool) -> (r: Self)
        ensures
            r@ == (DockView { resizeable, ..self@ }),
    {
        Dock { resizeable, ..self }
    }

    pub fn is_open(&self) -> (r: bool)
        ensures
            r == self@.open,
    {
        self.open
    }

    pub fn toggle_open(&mut self)
        ensures
            final(self)@ == (DockView { open: !old(self)@.open, ..old(self)@ }),
    {
        self.open = !self.open;
    }

    pub fn set_open(&mut self, open: bool)
        ensures
            final(self)@ == (DockView { open, ..old(self)@ }),
    {
        self.open = open;
    }

    /// A drag of the resize handle began.
    pub fn start_resizing(&mut self)
        ensures
            final(self)@ == (DockView { resizing: true, ..old(self)@ }),
    {
        self.is_resizing = true;
    }

    /// Whether a mouse move resizes the dock: only during a drag.
    pub fn is_resizing(&self) -> (r: bool)
        ensures
            r == self@.resizing,
    {
        self.is_resizing
    }

    pub fn done_resizing(&mut self)
        ensures
            final(self)@ == (DockView { resizing: false, ..old(self)@ }),
    {
        self.is_resizing = false;
    }
}

/// What a dock area holds.
pub ghost struct DockAreaView {
    pub version: Option<usize>,
    /// The layout of the centre.
    pub center: DockItem,
    /// The tab panels that carry the buttons of the left, right and bottom
    /// docks.
    pub toggle_button_tab_panels: (Option<u64>, Option<u64>, Option<u64>),
    pub left: Option<DockView>,
    pub bottom: Option<DockView>,
    pub right: Option<DockView>,
    pub zoomed: Option<u64>,
    pub locked: bool,
}

impl DockAreaView {
    /// The area with the dock at `placement`, if any, opened or closed.
    pub open spec fn toggled(self, placement: DockPlacement) -> DockAreaView {
        let flip = |d: Option<DockView>| match d {
            Some(d) => Some(DockView { open: !d.open, ..d }),
            None => None,
        };
        match placement {
            DockPlacement::Left => DockAreaView { left: flip(self.left), ..self },
            DockPlacement::Bottom => DockAreaView { bottom: flip(self.bottom), ..self },
            DockPlacement::Right => DockAreaView { right: flip(self.right), ..self },
        }
    }

    /// The dock at `placement`, if there is one.
    pub open spec fn dock_at(self, placement: DockPlacement) -> Option<DockView> {
        match placement {
            DockPlacement::Left => self.left,
            DockPlacement::Bottom => self.bottom,
            DockPlacement::Right => self.right,
        }
    }
}

pub open spec fn dock_view(d: Option<Dock>) -> Option<DockView> {
    match d {
        Some(d) => Some(d@),
        None => None,
    }
}

/// The state of a dock area.
pub struct DockArea {
    version: Option<usize>,
    items: DockItem,
    left_toggle_button_tab_panel_id: Option<u64>,
    right_toggle_button_tab_panel_id: Option<u64>,
    bottom_toggle_button_tab_panel_id: Option<u64>,
    left_dock: Option<Dock>,
    bottom_dock: Option<Dock>,
    right_dock: Option<Dock>,
    zoomed: Option<u64>,
    is_locked: bool,
}

impl View for DockArea {
    type V = DockAreaView;

    closed spec fn view(&self) -> DockAreaView {
        DockAreaView {
            version: self.version,
            center: self.items,
            toggle_button_tab_panels: (
                self.left_toggle_button_tab_panel_id,
                self.right_toggle_button_tab_panel_id,
                self.bottom_toggle_button_tab_panel_id,
            ),
            left: dock_view(self.left_dock),
            bottom: dock_view(self.bottom_dock),
            right: dock_view(self.right_dock),
            zoomed: self.zoomed,
            locked: self.is_locked,
        }
    }
}

impl DockArea {
    /// An unlocked area without docks, zoom or version, whose centre is an
    /// empty horizontal stack.
    pub fn new() -> (r: Self)
        ensures
            r@.version is None,
            r@.center matches DockItem::Split { axis, items } && axis == Axis::Horizontal && items@.len() == 0,
            r@.toggle_button_tab_panels == (None::<u64>, None::<u64>, None::<u64>),
            r@.left is None,
            r@.bottom is None,
            r@.right is None,
            r@.zoomed is None,
            !r@.locked,
    {
        DockArea {
            version: None,
            items: DockItem::split(Axis::Horizontal, Vec::new()),
            left_toggle_button_tab_panel_id: None,
            right_toggle_button_tab_panel_id: None,
            bottom_toggle_button_tab_panel_id: None,
            left_dock: None,
            bottom_dock: None,
            right_dock: None,
            zoomed: None,
            is_locked: false,
        }
    }

    /// Sets the layout of the centre.
    pub fn set_root(&mut self, item: DockItem)
        ensures
            final(self)@ == (DockAreaView { center: item, ..old(self)@ }),
    {
        self.items = item;
    }

    /// The layout of the centre.
    pub fn items(&self) -> (r: &DockItem)
        ensures
            *r == self@.center,
    {
        &self.items
    }

    /// Chooses the tab panels that carry the dock buttons: the top-left
    /// and top-right tab panels of the centre, and the bottom dock's tab
    /// panel (`bottom_dock_panel`, where there is a bottom dock).
    pub fn update_toggle_button_tab_panels(&mut self, bottom_dock_panel: Option<u64>)
        ensures
            final(self)@ == (DockAreaView {
                toggle_button_tab_panels: (
                    old(self)@.center.spec_left_top(),
                    old(self)@.center.spec_right_top(),
                    if old(self)@.bottom is Some { bottom_dock_panel } else { None },
                ),
                ..old(self)@
            }),
    {
        let bottom = if self.bottom_dock.is_some() { bottom_dock_panel } else { None };
        let (left, right, bottom) = toggle_button_tab_panels(&self.items, bottom);
        self.left_toggle_button_tab_panel_id = left;
        self.right_toggle_button_tab_panel_id = right;
        self.bottom_toggle_button_tab_panel_id = bottom;
    }

    /// The tab panel that carries the button of the dock at `placement`.
    pub fn toggle_button_tab_panel(&self, placement: DockPlacement) -> (r: Option<u64>)
        ensures
            r == match placement {
                DockPlacement::Left => self@.toggle_button_tab_panels.0,
                DockPlacement::Right => self@.toggle_button_tab_panels.1,
                DockPlacement::Bottom => self@.toggle_button_tab_panels.2,
            },
    {
        match placement {
            DockPlacement::Left => self.left_toggle_button_tab_panel_id,
            DockPlacement::Right => self.right_toggle_button_tab_panel_id,
            DockPlacement::Bottom => self.bottom_toggle_button_tab_panel_id,
        }
    }

    /// The version of the default layout, to tell a saved layout that no
    /// longer fits.
    pub fn set_version(&mut self, version: usize)
        ensures
            final(self)@ == (DockAreaView { version: Some(version), ..old(self)@ }),
    {
        self.version = Some(version);
    }

    pub fn version(&self) -> (r: Option<usize>)
        ensures
            r == self@.version,
    {
        self.version
    }

    pub fn set_left_dock(&mut self, dock: Dock)
        ensures
            final(self)@ == (DockAreaView { left: Some(dock@), ..old(self)@ }),
    {
        self.left_dock = Some(dock);
    }

    pub fn set_bottom_dock(&mut self, dock: Dock)
        ensures
            final(self)@ == (DockAreaView { bottom: Some(dock@), ..old(self)@ }),
    {
        self.bottom_dock = Some(dock);
    }

    pub fn set_right_dock(&mut self, dock: Dock)
        ensures
            final(self)@ == (DockAreaView { right: Some(dock@), ..old(self)@ }),
    {
        self.right_dock = Some(dock);
    }

    /// Locks the layout of panels; resizing stays allowed.
    pub fn set_locked(&mut self, locked: bool)
        ensures
            final(self)@ == (DockAreaView { locked, ..old(self)@ }),
    {
        self.is_locked = locked;
    }

    pub fn is_locked(&self) -> (r: bool)
        ensures
            r == self@.locked,
    {
        self.is_locked
    }

    pub fn has_dock(&self, placement: DockPlacement) -> (r: bool)
        ensures
            r == self@.dock_at(placement) is Some,
    {
        match placement {
            DockPlacement::Left => self.left_dock.is_some(),
            DockPlacement::Bottom => self.bottom_dock.is_some(),
            DockPlacement::Right => self.right_dock.is_some(),
        }
    }

    /// Whether the dock at `placement` is there and open.
    pub fn is_dock_open(&self, placement: DockPlacement) -> (r: bool)
        ensures
            r == (self@.dock_at(placement) matches Some(d) && d.open),
    {
        let dock = match placement {
            DockPlacement::Left => &self.left_dock,
            DockPlacement::Bottom => &self.bottom_dock,
            DockPlacement::Right => &self.right_dock,
        };
        match dock {
            Some(d) => d.is_open(),
            None => false,
        }
    }

    /// Opens or closes the dock at `placement`, if there is one.
    pub fn toggle_dock(&mut self, placement: DockPlacement)
        ensures
            final(self)@ == old(self)@.toggled(placement),
    {
        match placement {
            DockPlacement::Left => {
                if let Some(d) = &mut self.left_dock {
                    d.toggle_open();
                }
            },
            DockPlacement::Bottom => {
                if let Some(d) = &mut self.bottom_dock {
                    d.toggle_open();
                }
            },
            DockPlacement::Right => {
                if let Some(d) = &mut self.right_dock {
                    d.toggle_open();
                }
            },
        }
    }

    /// Shows only the panel `id`, zoomed over the area.
    pub fn set_zoomed_in(&mut self, id: u64)
        ensures
            final(self)@ == (DockAreaView { zoomed: Some(id), ..old(self)@ }),
    {
        self.zoomed = Some(id);
    }

    pub fn set_zoomed_out(&mut self)
        ensures
            final(self)@ == (DockAreaView { zoomed: None, ..old(self)@ }),
    {
        self.zoomed = None;
    }
}

/// Toggling a dock twice leaves the area as it was.
pub proof fn lemma_toggle_twice(a: DockAreaView, placement: DockPlacement)
    ensures
        a.toggled(placement).toggled(placement) == a,
{
}

} // verus!
