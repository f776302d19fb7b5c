use ui::dock::Axis;
use ui::saved_layout::{RestoredItem, SavedInfo, SavedItem};

fn panel(name: &str) -> SavedItem {
    SavedItem { panel_name: name.to_string(), children: vec![], info: SavedInfo::Panel }
}

fn tabs(children: Vec<SavedItem>, active_index: usize) -> SavedItem {
    SavedItem { panel_name: "TabPanel".to_string(), children, info: SavedInfo::Tabs { active_index } }
}

fn names(item: &RestoredItem) -> (Vec<String>, usize) {
    match item {
        RestoredItem::Tabs { panels, active_ix } => (panels.clone(), *active_ix),
        RestoredItem::Split { .. } => panic!("expected tabs"),
    }
}

#[test]
fn saved_layout_rebuilds() {
    let saved = SavedItem {
        panel_name: "StackPanel".to_string(),
        children: vec![tabs(vec![panel("A"), panel("B")], 1), tabs(vec![panel("C")], 0)],
        info: SavedInfo::Stack { axis: 1 },
    };
    assert!(saved.is_restorable());
    match saved.to_item() {
        RestoredItem::Split { axis, items } => {
            assert_eq!(axis, Axis::Vertical);
            assert_eq!(items.len(), 2);
            assert_eq!(names(&items[0]), (vec!["A".to_string(), "B".to_string()], 1));
            assert_eq!(names(&items[1]), (vec!["C".to_string()], 0));
        },
        RestoredItem::Tabs { .. } => panic!("expected a stack"),
    }
}

#[test]
fn saved_tabs_flatten_their_children() {
    let saved = tabs(vec![tabs(vec![panel("A")], 0), tabs(vec![panel("B"), panel("C")], 1)], 2);
    assert!(saved.is_restorable());
    assert_eq!(names(&saved.to_item()), (vec!["A".to_string(), "B".to_string(), "C".to_string()], 2));
    let stack_in_tabs = tabs(
        vec![panel("A"), SavedItem { panel_name: "StackPanel".to_string(), children: vec![], info: SavedInfo::Stack { axis: 0 } }],
        0,
    );
    assert!(!stack_in_tabs.is_restorable());
}

#[test]
fn layout_dump_reads_back() {
    let layout = RestoredItem::Split {
        axis: Axis::Horizontal,
        items: vec![
            RestoredItem::Tabs { panels: vec!["A".to_string(), "B".to_string()], active_ix: 1 },
            RestoredItem::Tabs { panels: vec!["C".to_string()], active_ix: 0 },
        ],
    };
    let saved = layout.dump();
    assert_eq!(saved.panel_name, "StackPanel");
    assert_eq!(saved.children[0].children[1].panel_name, "B");
    match saved.to_item() {
        RestoredItem::Split { axis, items } => {
            assert_eq!(axis, Axis::Horizontal);
            assert_eq!(names(&items[0]), (vec!["A".to_string(), "B".to_string()], 1));
            assert_eq!(names(&items[1]), (vec!["C".to_string()], 0));
        },
        RestoredItem::Tabs { .. } => panic!("expected a stack"),
    }
}
