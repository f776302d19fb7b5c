//! Menus and lists navigated by keyboard: the entries of a popup menu, and
//! moving the selection of a menu, a list and a picker, which wraps around
//! at the ends.

use vstd::prelude::*;

verus! {

/// An entry of a popup menu. What an item does when chosen is kept by the
/// caller, by the entry's index.
#[derive(Debug, Clone, PartialEq, Eq)]
pub enum MenuEntry {
    Separator,
    Item { label: String, has_icon: bool },
    Submenu { label: String, has_icon: bool },
}

/// The kind of a menu entry.
#[derive(Debug, Clone, Copy, PartialEq, Eq, Structural)]
pub enum EntryKind {
    Separator,
    Item,
    Submenu,
}

/// What a menu entry holds: its kind, label and whether it shows an icon.
pub ghost struct EntryView {
    pub kind: EntryKind,
    pub label: Seq<char>,
    pub has_icon: bool,
}

impl EntryView {
    pub open spec fn kind(self) -> EntryKind {
        self.kind
    }

    pub open spec fn separator() -> EntryView {
        EntryView { kind: EntryKind::Separator, label: Seq::empty(), has_icon: false }
    }

    pub open spec fn item(label: Seq<char>, has_icon: bool) -> EntryView {
        EntryView { kind: EntryKind::Item, label, has_icon }
    }

    pub open spec fn submenu(label: Seq<char>, has_icon: bool) -> EntryView {
        EntryView { kind: EntryKind::Submenu, label, has_icon }
    }
}

impl View for MenuEntry {
    type V = EntryView;

    open spec fn view(&self) -> EntryView {
        match self {
            MenuEntry::Separator => EntryView::separator(),
            MenuEntry::Item { label, has_icon } => EntryView::item(label@, *has_icon),
            MenuEntry::Submenu { label, has_icon } => EntryView::submenu(label@, *has_icon),
        }
    }
}

impl MenuEntry {
    pub open spec fn kind(&self) -> EntryKind {
        match self {
            MenuEntry::Separator => EntryKind::Separator,
            MenuEntry::Item { .. } => EntryKind::Item,
            MenuEntry::Submenu { .. } => EntryKind::Submenu,
        }
    }

    pub open spec fn spec_has_icon(&self) -> bool {
        match self {
            MenuEntry::Separator => false,
            MenuEntry::Item { has_icon, .. } => *has_icon,
            MenuEntry::Submenu { has_icon, .. } => *has_icon,
        }
    }

    /// Every entry but a separator can be clicked.
    pub fn is_clickable(&self) -> (r: bool)
        ensures
            r == (self.kind() != EntryKind::Separator),
    {
        !matches!(self, MenuEntry::Separator)
    }

    pub fn is_separator(&self) -> (r: bool)
        ensures
            r == (self.kind() == EntryKind::Separator),
    {
        matches!(self, MenuEntry::Separator)
    }

    pub fn has_icon(&self) -> (r: bool)
        ensures
            r == (self.kind() == EntryKind::Item && self.spec_has_icon()),
    {
        match self {
            MenuEntry::Item { has_icon, .. } => *has_icon,
            _ => false,
        }
    }
}

/// How many entries of `s` can be clicked.
pub open spec fn clickable_count(s: Seq<EntryKind>) -> nat
    decreases s.len(),
{
    if s.len() == 0 {
        0
    } else {
        clickable_count(s.drop_last()) + if s.last() != EntryKind::Separator { 1nat } else { 0nat }
    }
}

/// The selection after moving down a menu of `count` clickable entries:
/// the first entry where none is selected, wrapping from the last to the
/// first.
pub open spec fn menu_next(selected: Option<usize>, count: usize) -> Option<usize> {
    if count == 0 {
        selected
    } else {
        match selected {
            Some(i) => Some(if i == count - 1 { 0 } else { (i + 1) as usize }),
            None => Some(0),
        }
    }
}

/// The selection after moving up a menu of `count` clickable entries: the
/// last entry where none is selected; from the last entry it goes to the
/// first.
pub open spec fn menu_prev(selected: Option<usize>, count: usize) -> Option<usize> {
    if count == 0 {
        selected
    } else {
        match selected {
            Some(i) => Some(if i == count - 1 { 0 } else { (i - 1) as usize }),
            None => Some((count - 1) as usize),
        }
    }
}

/// What a popup menu holds.
pub ghost struct PopupMenuView {
    pub entries: Seq<EntryView>,
    pub has_icon: bool,
    pub selected_index: Option<usize>,
    pub hovered_index: Option<usize>,
}

impl PopupMenuView {
    pub open spec fn kinds(self) -> Seq<EntryKind> {
        self.entries.map_values(|e: EntryView| e.kind)
    }

    /// The menu after adding a separator (see `PopupMenu::separator`).
    pub open spec fn separated(self) -> PopupMenuView {
        if self.entries.len() == 0 || self.entries.last().kind() == EntryKind::Separator {
            self
        } else {
            self.pushed(EntryView::separator())
        }
    }

    /// The menu with one more entry.
    pub open spec fn pushed(self, e: EntryView) -> PopupMenuView {
        PopupMenuView { entries: self.entries.push(e), ..self }
    }
}

pub struct PopupMenu {
    entries: Vec<MenuEntry>,
    has_icon: bool,
    selected_index: Option<usize>,
    hovered_index: Option<usize>,
}

impl View for PopupMenu {
    type V = PopupMenuView;

    closed spec fn view(&self) -> PopupMenuView {
        PopupMenuView {
            entries: self.entries@.map_values(|e: MenuEntry| e@),
            has_icon: self.has_icon,
            selected_index: self.selected_index,
            hovered_index: self.hovered_index,
        }
    }
}

impl PopupMenu {
    /// An empty menu with nothing selected.
    pub fn new() -> (r: Self)
        ensures
            r@ == (PopupMenuView {
                entries: Seq::empty(),
                has_icon: false,
                selected_index: None,
                hovered_index: None,
            }),
    {
        let r = PopupMenu { entries: Vec::new(), has_icon: false, selected_index: None, hovered_index: None };
        assert(r@.entries =~= Seq::<EntryView>::empty());
        r
    }

    fn push_entry(&mut self, e: MenuEntry)
        ensures
            final(self)@ == old(self)@.pushed(e@),
    {
        let ghost before = self.entries@;
        self.entries.push(e);
        assert(self.entries@.map_values(|e: MenuEntry| e@) =~= before.map_values(|e: MenuEntry| e@).push(e@));
    }

    pub fn entries(&self) -> (r: &Vec<MenuEntry>)
        ensures
            r@.map_values(|e: MenuEntry| e@) == self@.entries,
    {
        &self.entries
    }

    pub fn selected_index(&self) -> (r: Option<usize>)
        ensures
            r == self@.selected_index,
    {
        self.selected_index
    }

    /// Whether some item shows an icon, so that all leave room for one.
    pub fn has_icon(&self) -> (r: bool)
        ensures
            r == self@.has_icon,
    {
        self.has_icon
    }

    fn add_menu_item(&mut self, label: String, has_icon: bool)
        ensures
            final(self)@ == (PopupMenuView {
                has_icon: old(self)@.has_icon || has_icon,
                ..old(self)@.pushed(EntryView::item(label@, has_icon))
            }),
    {
        if has_icon {
            self.has_icon = true;
        }
        self.push_entry(MenuEntry::Item { label, has_icon });
    }

    /// Adds an item.
    pub fn menu(self, label: String) -> (r: Self)
        ensures
            r@ == (PopupMenuView {
                has_icon: self@.has_icon,
                ..self@.pushed(EntryView::item(label@, false))
            }),
    {
        let mut s = self;
        s.add_menu_item(label, false);
        s
    }

    /// Adds an item with an icon.
    pub fn menu_with_icon(self, label: String) -> (r: Self)
        ensures
            r@ == (PopupMenuView { has_icon: true, ..self@.pushed(EntryView::item(label@, true)) }),
    {
        let mut s = self;
        s.add_menu_item(label, true);
        s
    }

    /// Adds an item that shows a check mark where `checked`.
    pub fn menu_with_check(self, label: String, checked: bool) -> (r: Self)
        ensures
            r@ == (PopupMenuView {
                has_icon: self@.has_icon || checked,
                ..self@.pushed(EntryView::item(label@, checked))
            }),
    {
        let mut s = self;
        s.add_menu_item(label, checked);
        s
    }

    /// Adds an item that opens a link.
    pub fn link(self, label: String) -> (r: Self)
        ensures
            r@ == self@.pushed(EntryView::item(label@, false)),
    {
        let mut s = self;
        s.push_entry(MenuEntry::Item { label, has_icon: false });
        s
    }

    /// Adds an item with an icon that opens a link; the menu's room for
    /// icons is left as it was.
    pub fn link_with_icon(self, label: String) -> (r: Self)
        ensures
            r@ == self@.pushed(EntryView::item(label@, true)),
    {
        let mut s = self;
        s.push_entry(MenuEntry::Item { label, has_icon: true });
        s
    }

    /// Adds a separator, but never first nor right after another one.
    pub fn separator(self) -> (r: Self)
        ensures
            r@ == self@.separated(),
    {
        let mut s = self;
        if s.entries.len() == 0 {
            return s;
        }
        if s.entries[s.entries.len() - 1].is_separator() {
            return s;
        }
        s.push_entry(MenuEntry::Separator);
        s
    }

    /// Adds an entry that opens a submenu.
    pub fn submenu(self, label: String) -> (r: Self)
        ensures
            r@ == self@.pushed(EntryView::submenu(label@, false)),
    {
        self.submenu_with_icon(false, label)
    }

    /// Adds an entry that opens a submenu, with an icon where `has_icon`.
    pub fn submenu_with_icon(self, has_icon: bool, label: String) -> (r: Self)
        ensures
            r@ == self@.pushed(EntryView::submenu(label@, has_icon)),
    {
        let mut s = self;
        s.push_entry(MenuEntry::Submenu { label, has_icon });
        s
    }

    /// How many entries can be clicked.
    pub fn clickable_count(&self) -> (r: usize)
        ensures
            r == clickable_count(self@.kinds()),
    {
        let mut n: usize = 0;
        let mut i: usize = 0;
        assert(self@.kinds().take(0) =~= Seq::<EntryKind>::empty());
        while i < self.entries.len()
            invariant
                i <= self.entries@.len(),
                n <= i,
                n == clickable_count(self@.kinds().take(i as int)),
            decreases self.entries.len() - i,
        {
            assert(self@.kinds().take(i + 1).drop_last() =~= self@.kinds().take(i as int));
            if self.entries[i].is_clickable() {
                n += 1;
            }
            i += 1;
        }
        assert(self@.kinds().take(self.entries@.len() as int) =~= self@.kinds());
        n
    }

    /// Moves the selection down, wrapping around.
    pub fn select_next(&mut self)
        requires
            old(self)@.selected_index matches Some(i) ==> i < usize::MAX,
        ensures
            final(self)@ == (PopupMenuView {
                selected_index: menu_next(old(self)@.selected_index, clickable_count(old(self)@.kinds()) as usize),
                ..old(self)@
            }),
    {
        let count = self.clickable_count();
        if count > 0 {
            let ix = match self.selected_index {
                Some(index) => if index == count - 1 {
                    0
                } else {
                    index + 1
                },
                None => 0,
            };
            self.selected_index = Some(ix);
        }
    }

    /// Moves the selection up; from the last entry it goes to the first.
    pub fn select_prev(&mut self)
        requires
            old(self)@.selected_index matches Some(i) ==> (i > 0 || i == clickable_count(old(self)@.kinds()) - 1
                || clickable_count(old(self)@.kinds()) == 0),
        ensures
            final(self)@ == (PopupMenuView {
                selected_index: menu_prev(old(self)@.selected_index, clickable_count(old(self)@.kinds()) as usize),
                ..old(self)@
            }),
    {
        let count = self.clickable_count();
        if count > 0 {
            let ix = match self.selected_index {
                Some(index) => if index == count - 1 {
                    0
                } else {
                    index - 1
                },
                None => count - 1,
            };
            self.selected_index = Some(ix);
        }
    }

    /// The index of the item to run on confirming: the selected entry,
    /// where it is an item. The menu is then dismissed.
    pub fn confirm(&self) -> (r: Option<usize>)
        ensures
            r == match self@.selected_index {
                Some(i) => if i < self@.entries.len() && self@.entries[i as int].kind() == EntryKind::Item {
                    Some(i)
                } else {
                    None
                },
                None => None,
            },
    {
        match self.selected_index {
            Some(index) => {
                if index < self.entries.len() {
                    match &self.entries[index] {
                        MenuEntry::Item { .. } => Some(index),
                        _ => None,
                    }
                } else {
                    None
                }
            },
            None => None,
        }
    }

    /// Selects the clicked entry and confirms it.
    pub fn on_click(&mut self, ix: usize) -> (r: Option<usize>)
        ensures
            final(self)@ == (PopupMenuView { selected_index: Some(ix), ..old(self)@ }),
            r == if ix < old(self)@.entries.len() && old(self)@.entries[ix as int].kind() == EntryKind::Item {
                Some(ix)
            } else {
                None
            },
    {
        self.selected_index = Some(ix);
        self.confirm()
    }

    pub fn set_hovered(&mut self, ix: Option<usize>)
        ensures
            final(self)@ == (PopupMenuView { hovered_index: ix, ..old(self)@ }),
    {
        self.hovered_index = ix;
    }

    /// The hovered entry, where it opens a submenu.
    pub fn active_submenu(&self) -> (r: Option<usize>)
        ensures
            r == match self@.hovered_index {
                Some(i) => if i < self@.entries.len() && self@.entries[i as int].kind() == EntryKind::Submenu {
                    Some(i)
                } else {
                    None
                },
                None => None,
            },
    {
        match self.hovered_index {
            Some(ix) => {
                if ix < self.entries.len() {
                    match &self.entries[ix] {
                        MenuEntry::Submenu { .. } => Some(ix),
                        _ => None,
                    }
                } else {
                    None
                }
            },
            None => None,
        }
    }

    /// Whether the menu closes on dismissal: not while a submenu is open.
    pub fn dismisses(&self) -> (r: bool)
        ensures
            r == (self.active_submenu_spec() is None),
    {
        self.active_submenu().is_none()
    }

    pub open spec fn active_submenu_spec(&self) -> Option<usize> {
        match self@.hovered_index {
            Some(i) => if i < self@.entries.len() && self@.entries[i as int].kind() == EntryKind::Submenu {
                Some(i)
            } else {
                None
            },
            None => None,
        }
    }
}

/// Entries `i - 1` and `i` are both separators.
pub open spec fn separators_meet(entries: Seq<EntryView>, i: int) -> bool {
    entries[i - 1].kind() == EntryKind::Separator && entries[i].kind() == EntryKind::Separator
}

/// No separator comes first, and none follows another separator.
pub open spec fn well_separated(entries: Seq<EntryView>) -> bool {
    &&& entries.len() > 0 ==> entries[0].kind() != EntryKind::Separator
    &&& forall|i: int| 0 < i < entries.len() ==> !#[trigger] separators_meet(entries, i)
}

/// Adding a separator, or any other entry, keeps the separators apart and
/// never first.
pub proof fn lemma_separator_placement(v: PopupMenuView, e: EntryView)
    requires
        well_separated(v.entries),
    ensures
        well_separated(
            (if v.entries.len() == 0 || v.entries.last().kind() == EntryKind::Separator {
                v
            } else {
                v.pushed(EntryView::separator())
            }).entries,
        ),
        e.kind() != EntryKind::Separator ==> well_separated(v.pushed(e).entries),
{
    let n = v.entries.len() as int;
    let p = v.entries.push(EntryView::separator());
    if n > 0 && v.entries.last().kind() != EntryKind::Separator {
        assert forall|i: int| 0 < i < p.len() implies !#[trigger] separators_meet(p, i) by {
            if i < n {
                assert(separators_meet(p, i) == separators_meet(v.entries, i));
            }
        }
    }
    let q = v.entries.push(e);
    if e.kind() != EntryKind::Separator {
        assert forall|i: int| 0 < i < q.len() implies !#[trigger] separators_meet(q, i) by {
            if i < n {
                assert(separators_meet(q, i) == separators_meet(v.entries, i));
            }
        }
    }
}

/// The selection of a list after moving up: from the first entry (or none)
/// it wraps to the last.
pub open spec fn list_prev(selected: Option<usize>, count: usize) -> usize {
    let i = match selected {
        Some(i) => i,
        None => 0,
    };
    if i > 0 {
        (i - 1) as usize
    } else {
        (count - 1) as usize
    }
}

/// The selection of a list after moving down: from the last entry it wraps
/// to the first; with none selected it moves from the first.
pub open spec fn list_next(selected: Option<usize>, count: usize) -> usize {
    let i = match selected {
        Some(i) => i,
        None => 0,
    };
    if i < count - 1 {
        (i + 1) as usize
    } else {
        0
    }
}

/// Moves a list's selection up.
pub fn list_select_prev(selected: Option<usize>, count: usize) -> (r: Option<usize>)
    requires
        (match selected {
            Some(i) => i,
            None => 0,
        }) == 0 ==> count > 0,
    ensures
        r == Some(list_prev(selected, count)),
{
    let selected_index = match selected {
        Some(i) => i,
        None => 0,
    };
    if selected_index > 0 {
        Some(selected_index - 1)
    } else {
        Some(count - 1)
    }
}

/// Moves a list's selection down.
pub fn list_select_next(selected: Option<usize>, count: usize) -> (r: Option<usize>)
    requires
        count > 0,
    ensures
        r == Some(list_next(selected, count)),
{
    let selected_index = match selected {
        Some(i) => i,
        None => 0,
    };
    if selected_index < count - 1 {
        Some(selected_index + 1)
    } else {
        Some(0)
    }
}

/// The index after `index` among `count` matches, the last wrapping to the
/// first.
pub open spec fn picker_next(index: usize, count: usize) -> usize {
    if index == count - 1 {
        0
    } else {
        (index + 1) as usize
    }
}

/// The index before `index` among `count` matches, the first wrapping to
/// the last.
pub open spec fn picker_prev(index: usize, count: usize) -> usize {
    if index == 0 {
        (count - 1) as usize
    } else {
        (index - 1) as usize
    }
}

/// The picker's selection after moving down among `count` matches, wrapping
/// from the last to the first; `None` where there is no match.
pub fn picker_select_next(index: usize, count: usize) -> (r: Option<usize>)
    requires
        count > 0 ==> index < usize::MAX,
    ensures
        r == if count > 0 { Some(picker_next(index, count)) } else { None },
{
    if count > 0 {
        Some(if index == count - 1 {
            0
        } else {
            index + 1
        })
    } else {
        None
    }
}

/// The picker's selection after moving up among `count` matches, wrapping
/// from the first to the last; `None` where there is no match.
pub fn picker_select_prev(index: usize, count: usize) -> (r: Option<usize>)
    ensures
        r == if count > 0 { Some(picker_prev(index, count)) } else { None },
{
    if count > 0 {
        Some(if index == 0 {
            count - 1
        } else {
            index - 1
        })
    } else {
        None
    }
}

/// The first match, where there is any.
pub fn picker_select_first(count: usize) -> (r: Option<usize>)
    ensures
        r == if count > 0 { Some(0usize) } else { None },
{
    if count > 0 {
        Some(0)
    } else {
        None
    }
}

/// The last match, where there is any.
pub fn picker_select_last(count: usize) -> (r: Option<usize>)
    ensures
        r == if count > 0 { Some((count - 1) as usize) } else { None },
{
    if count > 0 {
        Some(count - 1)
    } else {
        None
    }
}

/// Moving down then up in a picker comes back where it started, and so
/// does moving up then down; both stay among the matches, and away from the
/// ends they step by one.
pub proof fn lemma_picker_next_prev(index: usize, count: usize)
    requires
        index < count,
    ensures
        picker_prev(picker_next(index, count), count) == index,
        picker_next(picker_prev(index, count), count) == index,
        picker_next(index, count) < count,
        picker_prev(index, count) < count,
        index + 1 < count ==> picker_next(index, count) == index + 1,
        index > 0 ==> picker_prev(index, count) == index - 1,
{
}

/// Moving up a list steps back one entry, wrapping from the first entry
/// (or from no selection) to the last; moving up and moving down undo each
/// other.
pub proof fn lemma_list_prev_steps_back(selected: Option<usize>, count: usize)
    requires
        count > 0,
        selected matches Some(i) ==> i < count,
    ensures
        list_prev(selected, count) < count,
        selected matches Some(i) ==> (i > 0 ==> list_prev(selected, count) == i - 1),
        selected matches Some(i) ==> (i == 0 ==> list_prev(selected, count) == count - 1),
        selected is None ==> list_prev(selected, count) == count - 1,
        selected matches Some(i) ==> list_next(Some(list_prev(selected, count)), count) == i,
        selected matches Some(i) ==> list_prev(Some(list_next(selected, count)), count) == i,
{
}

} // verus!
