use ui::dock_item::{toggle_button_tab_panels, DockItem};
use ui::dock::{stack_axis, stack_axis_code, Axis, DockPlacement, PanelEvent, PanelStyle, Placement, Split};
use ui::icon::IconName;
use ui::menu::PopupMenu;
use ui::dock_area::{Dock, DockArea};
use ui::stack_panel::{split_stacks, StackPanel};
use ui::tab_panel::{dock_toggle_icon, split_plan, DropOutcome, SplitPlan, TabPanel, TabState};
use ui::tiles::{TileItem, TilePanel, Tiles};
use ui::tree_node::Node;

fn names(n: usize) -> Vec<String> {
    vec!["Story".to_string(); n]
}

#[test]
fn placements() {
    assert!(DockPlacement::Left.is_left());
    assert!(DockPlacement::Bottom.is_bottom());
    assert!(DockPlacement::Right.is_right());
    assert_eq!(DockPlacement::Bottom.axis(), Axis::Vertical);
    assert!(Split::Left.is_horizontal());
    assert!(Split::Bottom.is_vertical());
    assert_eq!(Placement::Top.axis(), Axis::Vertical);
    assert_eq!(stack_axis(stack_axis_code(Axis::Vertical)), Axis::Vertical);
    assert_eq!(stack_axis(7), Axis::Vertical);
}

#[test]
fn tab_panel_adds_each_panel_once() {
    let mut t = TabPanel::new(true);
    t.add_panel(10, "Story");
    t.add_panel(20, "Story");
    t.add_panel(10, "Story");
    assert_eq!(t.panels(), &vec![10, 20]);
    assert_eq!(t.active_ix(), 1);
    assert_eq!(t.active_panel(), Some(20));
}

#[test]
fn tab_panel_hidden_panels() {
    let mut t = TabPanel::new(true);
    t.add_panel(1, "Story");
    t.add_panel(2, "Story");
    assert_eq!(t.set_panel_visible(2, false), Some(true));
    assert_eq!(t.active_panel(), Some(1));
    assert_eq!(t.visible_panels(), vec![1]);
    assert_eq!(t.set_panel_visible(1, false), Some(false));
    assert_eq!(t.active_panel(), None);
    assert_eq!(t.set_panel_visible(2, true), Some(true));
    let mut loose = TabPanel::new(false);
    loose.add_panel(1, "Story");
    assert_eq!(loose.set_panel_visible(1, false), None);
    assert!(loose.is_panel_visible(1));
}

#[test]
fn tab_panel_remove_moves_active() {
    let mut t = TabPanel::new(true);
    t.add_panel(1, "Story");
    t.add_panel(2, "Story");
    t.add_panel(3, "Story");
    assert!(!t.remove_panel(3));
    assert_eq!(t.active_ix(), 1);
    assert!(!t.remove_panel(1));
    assert_eq!(t.panels(), &vec![2]);
    assert_eq!(t.active_ix(), 0);
    assert!(t.remove_panel(2));
    t.insert_panel_at(5, 0);
    assert_eq!(t.panels(), &vec![5]);
}

#[test]
fn tab_panel_locking_and_zoom() {
    let mut t = TabPanel::new(true);
    t.add_panel(1, "Story");
    assert!(t.is_locked(None));
    assert!(!t.is_locked(Some(false)));
    assert!(!t.draggable(Some(false), Some(true)));
    t.add_panel(2, "Story");
    assert!(t.draggable(Some(false), Some(true)));
    assert_eq!(t.toggle_zoom(true), Some(PanelEvent::ZoomIn));
    assert!(t.is_locked(Some(false)));
    assert_eq!(t.toggle_zoom(true), Some(PanelEvent::ZoomOut));
    assert_eq!(t.toggle_zoom(false), None);
    assert!(t.closable(Some(true)));
    assert!(!t.closable(None));
    assert!(t.drop_ignored(true, None));
    assert!(!t.drop_ignored(true, Some(0)));
}

#[test]
fn split_plans() {
    assert_eq!(split_plan(Axis::Vertical, Placement::Top, 3), SplitPlan::InsertIntoStack);
    assert_eq!(split_plan(Axis::Horizontal, Placement::Top, 1), SplitPlan::ReuseStack);
    assert_eq!(split_plan(Axis::Horizontal, Placement::Bottom, 2), SplitPlan::NewStack);
}

#[test]
fn stack_panel_inserts() {
    let mut s = StackPanel::new(Axis::Horizontal);
    assert_eq!(s.add_panel(1), Some(0));
    assert_eq!(s.add_panel(2), Some(1));
    assert_eq!(s.add_panel(1), None);
    assert_eq!(s.insert_panel_at(3, 0, Placement::Left), Some(0));
    assert_eq!(s.insert_panel_at(4, 0, Placement::Right), Some(1));
    assert_eq!(s.insert_panel_before(5, 99), Some(4));
    assert_eq!(s.panels(), &vec![3, 4, 1, 2, 5]);
    assert_eq!(s.index_of_panel(2), Some(3));
    assert_eq!(s.remove_panel(4), Some(1));
    assert_eq!(s.remove_panel(4), None);
    assert_eq!(s.replace_panel(1, 9), Some(1));
    assert_eq!(s.panels(), &vec![3, 9, 2, 5]);
    assert!(!s.is_last_panel(None));
    assert!(!s.should_remove_self());
}

#[test]
fn tiles_drawing_order() {
    let mut tiles = Tiles::new();
    tiles.add_item(TileItem::new(1).z_index(2));
    tiles.add_item(TileItem::new(2));
    tiles.add_item(TileItem::new(3).z_index(2));
    tiles.add_item(TileItem::new(4).z_index(1));
    assert_eq!(tiles.drawing_order(), vec![1, 3, 0, 2]);
    let sorted: Vec<u64> = tiles.sorted_panels().iter().map(|t| t.panel).collect();
    assert_eq!(sorted, vec![2, 4, 1, 3]);
    assert_eq!(tiles.bring_to_front(Some(1)), Some((1, 3)));
    assert_eq!(tiles.index_of(2), Some(3));
    // The tile brought forward takes the highest z-index and is drawn last.
    assert_eq!(tiles.items()[3].z_index, 2);
    let sorted: Vec<u64> = tiles.sorted_panels().iter().map(|t| t.panel).collect();
    assert_eq!(sorted, vec![4, 1, 3, 2]);
    assert_eq!(tiles.bring_to_front(Some(9)), None);
    assert!(tiles.remove(2));
    assert!(!tiles.remove(2));
}

#[test]
fn tree_node_tabs() {
    let mut node = Node::leaf(1u32);
    node.append_tab(2);
    node.insert_tab(0, 3);
    assert_eq!(node.tabs(), Some(&vec![3, 1, 2]));
    assert_eq!(node.remove_tab(1), Some(1));
    assert_eq!(node.tabs_count(), 2);
    node.retain_tabs(|t: &u32| *t > 2);
    assert_eq!(node.tabs(), Some(&vec![3]));
    node.retain_tabs(|t: &u32| *t > 5);
    assert!(node.is_empty());
    let mut parent = Node::leaf_with(vec![7u32]);
    let old = parent.split(Split::Top);
    assert!(parent.is_vertical());
    assert!(old.is_leaf());
}

#[test]
fn dock_area_docks() {
    let mut area = DockArea::new();
    assert!(!area.has_dock(DockPlacement::Left));
    let mut dock = Dock::left();
    dock.set_panels(vec![1, 2]);
    area.set_left_dock(dock);
    assert!(area.is_dock_open(DockPlacement::Left));
    area.toggle_dock(DockPlacement::Left);
    assert!(!area.is_dock_open(DockPlacement::Left));
    area.toggle_dock(DockPlacement::Right);
    assert!(!area.is_dock_open(DockPlacement::Right));
    area.set_locked(true);
    assert!(area.is_locked());
    area.set_version(3);
    assert_eq!(area.version(), Some(3));
}

#[test]
fn tab_bar_tabs() {
    let mut t = TabPanel::new(true);
    t.add_panel(1, "Story");
    t.add_panel(2, "Story");
    t.add_panel(3, "Story");
    t.set_active_ix(1);
    t.set_panel_visible(3, false);
    assert_eq!(
        t.tab_states(),
        vec![
            TabState { ix: 0, panel: 1, selected: false, disabled: false },
            TabState { ix: 1, panel: 2, selected: true, disabled: false },
        ]
    );
    t.set_collapsed(true);
    assert_eq!(t.tab_states()[1], TabState { ix: 1, panel: 2, selected: false, disabled: true });
    assert!(!t.shows_plain_title(PanelStyle::Default));
}

#[test]
fn dock_toggle_buttons() {
    assert_eq!(dock_toggle_icon(DockPlacement::Left, true), IconName::PanelLeft);
    assert_eq!(dock_toggle_icon(DockPlacement::Bottom, false), IconName::PanelBottomOpen);
    let mut t = TabPanel::new(true);
    t.add_panel(1, "Story");
    assert!(t.shows_plain_title(PanelStyle::Default));
    assert!(!t.shows_plain_title(PanelStyle::TabBar));
    assert!(t.shows_dock_toggle(true, true, Some(7), 7));
    assert!(!t.shows_dock_toggle(true, true, Some(8), 7));
    assert!(!t.shows_dock_toggle(false, true, Some(7), 7));
}

#[test]
fn toolbar_menu_entries() {
    let mut t = TabPanel::new(true);
    t.add_panel(1, "Story");
    let menu = t.toolbar_menu(PopupMenu::new().menu("Custom".to_string()), true, true);
    assert_eq!(menu.entries().len(), 5);
    assert_eq!(menu.clickable_count(), 3);
    let empty = t.toolbar_menu(PopupMenu::new(), true, false);
    assert_eq!(empty.entries().len(), 1);
}

#[test]
fn drops_on_tab_panel() {
    let mut t = TabPanel::new(true);
    t.add_panel(1, "Story");
    assert_eq!(t.drop_panel(1, "Story", None, true, true), (DropOutcome::Ignored, false));
    assert_eq!(t.drop_panel(2, "Story", None, false, false), (DropOutcome::Placed, false));
    assert_eq!(t.panels(), &vec![1, 2]);
    assert_eq!(t.active_ix(), 0);
    assert_eq!(t.drop_panel(2, "Story", Some(0), true, true), (DropOutcome::Placed, false));
    assert_eq!(t.panels(), &vec![2, 1]);
    assert_eq!(t.active_ix(), 0);
    t.set_will_split(Some(Placement::Right));
    assert_eq!(t.drop_panel(1, "Story", None, true, true), (DropOutcome::Split(Placement::Right), false));
    assert_eq!(t.panels(), &vec![2]);
}

#[test]
fn splits_across_stacks() {
    let mut parent = StackPanel::new(Axis::Horizontal);
    parent.add_panel(10);
    parent.add_panel(20);
    assert!(split_stacks(&mut parent, 10, 30, 99, Placement::Right).is_none());
    assert_eq!(parent.panels(), &vec![10, 30, 20]);
    let created = split_stacks(&mut parent, 20, 40, 99, Placement::Top).unwrap();
    assert_eq!(created.panels(), &vec![40, 20]);
    assert_eq!(created.axis(), Axis::Vertical);
    assert_eq!(parent.panels(), &vec![10, 30, 99]);
    let mut lone = StackPanel::new(Axis::Horizontal);
    lone.add_panel(5);
    assert!(split_stacks(&mut lone, 5, 6, 99, Placement::Bottom).is_none());
    assert_eq!(lone.panels(), &vec![5, 6]);
    assert_eq!(lone.axis(), Axis::Vertical);
}

#[test]
fn tree_node_filter_map() {
    let node = Node::leaf_with(vec![1u32, 2, 3, 4]);
    let odd = node.filter_map_tabs(|t: &u32| if *t % 2 == 1 { Some(*t * 10) } else { None });
    assert_eq!(odd.tabs(), Some(&vec![10u32, 30]));
    let none = node.filter_map_tabs(|_t: &u32| None::<u32>);
    assert!(none.is_empty());
    let split: Node<u32> = Node::Horizontal;
    assert!(split.filter_map_tabs(|t: &u32| Some(*t)).is_horizontal());
}

#[test]
fn tree_node_map_and_filter() {
    let node = Node::leaf_with(vec![1u32, 2, 3]);
    let doubled = node.map_tabs(|t: &u32| *t * 2);
    assert_eq!(doubled.tabs(), Some(&vec![2u32, 4, 6]));
    let evens = node.filter_tabs(|t: &u32| *t % 2 == 0);
    assert_eq!(evens.tabs(), Some(&vec![2u32]));
    assert!(node.filter_tabs(|_t: &u32| false).is_empty());
    let empty: Node<u32> = Node::leaf_with(vec![]);
    assert!(empty.map_tabs(|t: &u32| *t).is_empty());
    let split: Node<u32> = Node::Vertical;
    assert!(split.map_tabs(|t: &u32| *t).is_vertical());
}

#[test]
fn tree_node_tabs_in_place() {
    let mut node = Node::leaf(5u32);
    if let Some(tabs) = node.tabs_mut() {
        tabs.push(6);
    }
    assert_eq!(node.tabs(), Some(&vec![5u32, 6]));
    let mut split: Node<u32> = Node::Horizontal;
    assert!(split.tabs_mut().is_none());
}

#[test]
fn dock_item_corners() {
    // A horizontal stack: [tabs 1 | vertical stack [tabs 2 / tabs 3]]
    let right = DockItem::split(
        Axis::Vertical,
        vec![DockItem::tabs(2, vec![20, 21], &names(2), None), DockItem::tab(3, 30, "Story")],
    );
    let center = DockItem::split(Axis::Horizontal, vec![DockItem::tabs(1, vec![10], &names(1), Some(0)), right]);
    assert_eq!(center.left_top_tab_panel(), Some(1));
    assert_eq!(center.right_top_tab_panel(), Some(2));
    assert!(center.contains_entity_id(3));
    assert!(!center.contains_entity_id(4));
    assert_eq!(center.find_panel(21), Some(21));
    assert_eq!(center.find_panel(99), None);
    assert_eq!(toggle_button_tab_panels(&center, Some(7)), (Some(1), Some(2), Some(7)));
    let empty = DockItem::split(Axis::Horizontal, vec![]);
    assert_eq!(empty.left_top_tab_panel(), None);
    assert_eq!(empty.right_top_tab_panel(), None);
    assert_eq!(toggle_button_tab_panels(&empty, None), (None, None, None));
}

#[test]
fn dock_item_vertical_right_top() {
    let stack = DockItem::split(Axis::Vertical, vec![DockItem::tab(5, 50, "Story"), DockItem::tab(6, 60, "Story")]);
    assert_eq!(stack.right_top_tab_panel(), Some(5));
    let stack = DockItem::split(Axis::Horizontal, vec![DockItem::tab(5, 50, "Story"), DockItem::tab(6, 60, "Story")]);
    assert_eq!(stack.right_top_tab_panel(), Some(6));
}

#[test]
fn tile_panel_insertion() {
    let mut canvas = TilePanel::new();
    canvas.add_panel(1);
    canvas.add_panel(2);
    canvas.add_panel(1);
    assert_eq!(canvas.panels(), &vec![1u64, 2]);
    canvas.insert_panel_at(3, 0, Placement::Left);
    assert_eq!(canvas.panels(), &vec![3u64, 1, 2]);
    canvas.insert_panel_at(4, 0, Placement::Right);
    assert_eq!(canvas.panels(), &vec![3u64, 4, 1, 2]);
    canvas.insert_panel_before(5, 99);
    assert_eq!(canvas.panels(), &vec![3u64, 4, 1, 2, 5]);
    canvas.add_panel_at(6, Placement::Bottom);
    assert_eq!(canvas.panels_len(), 6);
    assert_eq!(canvas.index_of_panel(1), Some(2));
    assert!(canvas.remove_panel(1));
    assert!(!canvas.remove_panel(1));
    assert_eq!(canvas.index_of_panel(1), None);
    assert_eq!(canvas.panels(), &vec![3u64, 4, 2, 5, 6]);
}

#[test]
fn tiles_pointer_interaction() {
    let mut tiles = Tiles::new();
    tiles.add_item(TileItem::new(10));
    tiles.add_item(TileItem::new(11));
    tiles.add_item(TileItem::new(12));
    // Pressing the drag bar of the first tile brings it to the front.
    tiles.start_dragging(Some(0));
    assert_eq!(tiles.dragging_index(), Some(2));
    assert_eq!(tiles.items()[2].panel, 10);
    // While dragging, pressing the canvas does not reorder.
    assert!(!tiles.on_mouse_down(Some(0)));
    assert_eq!(tiles.items()[0].panel, 11);
    assert!(tiles.on_mouse_up());
    assert_eq!(tiles.dragging_index(), None);
    assert!(!tiles.on_mouse_up());
    // Idle: pressing a tile brings it to the front.
    assert!(tiles.on_mouse_down(Some(0)));
    assert_eq!(tiles.items()[2].panel, 11);
    // Resizing the middle tile, which now holds panel 10.
    assert_eq!(tiles.items()[1].panel, 10);
    tiles.start_resizing(Some(1));
    assert_eq!(tiles.resizing_index(), Some(2));
    assert_eq!(tiles.items()[2].panel, 10);
    assert!(tiles.on_mouse_up());
    assert_eq!(tiles.resizing_index(), None);
}

#[test]
fn dock_area_toggle_button_owners() {
    let mut area = DockArea::new();
    area.update_toggle_button_tab_panels(Some(9));
    assert_eq!(area.toggle_button_tab_panel(DockPlacement::Left), None);
    assert_eq!(area.toggle_button_tab_panel(DockPlacement::Bottom), None);
    let center = DockItem::split(
        Axis::Horizontal,
        vec![DockItem::tab(1, 10, "Story"), DockItem::split(Axis::Vertical, vec![DockItem::tab(2, 20, "Story"), DockItem::tab(3, 30, "Story")])],
    );
    area.set_root(center);
    area.set_bottom_dock(Dock::bottom());
    area.update_toggle_button_tab_panels(Some(9));
    assert_eq!(area.toggle_button_tab_panel(DockPlacement::Left), Some(1));
    assert_eq!(area.toggle_button_tab_panel(DockPlacement::Right), Some(2));
    assert_eq!(area.toggle_button_tab_panel(DockPlacement::Bottom), Some(9));
    assert!(area.items().contains_entity_id(3));
}

#[test]
fn dock_item_tab_panel_drops_repeats() {
    let item = DockItem::tabs(4, vec![7, 8, 7], &names(3), Some(1));
    match item {
        DockItem::Tabs { panels, active_ix, view, .. } => {
            assert_eq!(panels, vec![7, 8, 7]);
            assert_eq!(active_ix, 1);
            assert_eq!(view.panels(), &vec![7, 8]);
            assert_eq!(view.active_ix(), 1);
        },
        DockItem::Split { .. } => panic!("expected tabs"),
    }
}
