use ui::anchor::AnchorCorner;
use ui::blink::BlinkCursor;
use ui::charts::{Chart, ChartKind};
use ui::dropdown::{Dropdown, DropdownEvent};
use ui::menu::{
    list_select_next, list_select_prev, picker_select_first, picker_select_last, picker_select_next,
    picker_select_prev, PopupMenu,
};

#[test]
fn menu_separators() {
    let menu = PopupMenu::new().separator().menu("a".to_string()).separator().separator().menu("b".to_string());
    assert_eq!(menu.entries().len(), 3);
    assert_eq!(menu.clickable_count(), 2);
    assert!(!menu.has_icon());
    let menu = menu.menu_with_check("c".to_string(), true);
    assert!(menu.has_icon());
    let menu = PopupMenu::new().link_with_icon("l".to_string());
    assert!(!menu.has_icon());
}

#[test]
fn menu_selection_wraps() {
    let mut menu = PopupMenu::new().menu("a".to_string()).separator().menu("b".to_string()).submenu("c".to_string());
    menu.select_next();
    assert_eq!(menu.selected_index(), Some(0));
    menu.select_next();
    menu.select_next();
    assert_eq!(menu.selected_index(), Some(2));
    menu.select_next();
    assert_eq!(menu.selected_index(), Some(0));
    let mut menu2 = PopupMenu::new().menu("a".to_string()).menu("b".to_string());
    menu2.select_prev();
    assert_eq!(menu2.selected_index(), Some(1));
    menu2.select_prev();
    assert_eq!(menu2.selected_index(), Some(0));
}

#[test]
fn menu_confirm_and_submenu() {
    let mut menu = PopupMenu::new().menu("a".to_string()).separator().submenu("s".to_string());
    assert_eq!(menu.on_click(0), Some(0));
    assert_eq!(menu.on_click(1), None);
    assert_eq!(menu.on_click(2), None);
    menu.set_hovered(Some(2));
    assert_eq!(menu.active_submenu(), Some(2));
    assert!(!menu.dismisses());
    menu.set_hovered(Some(0));
    assert!(menu.dismisses());
}

#[test]
fn list_and_picker_navigation() {
    assert_eq!(list_select_prev(None, 3), Some(2));
    assert_eq!(list_select_prev(Some(2), 3), Some(1));
    assert_eq!(list_select_next(Some(2), 3), Some(0));
    assert_eq!(list_select_next(None, 3), Some(1));
    assert_eq!(picker_select_next(2, 3), Some(0));
    assert_eq!(picker_select_prev(0, 3), Some(2));
    assert_eq!(picker_select_next(0, 0), None);
    assert_eq!(picker_select_first(4), Some(0));
    assert_eq!(picker_select_last(4), Some(3));
    assert_eq!(picker_select_last(0), None);
}

#[test]
fn dropdown_selection() {
    let items = vec!["apple".to_string(), "pear".to_string()];
    let mut d = Dropdown::new(items, Some(1));
    assert_eq!(d.selected_value(), Some(&"pear".to_string()));
    assert!(!d.is_open());
    assert!(!d.enter());
    assert!(d.is_open());
    let DropdownEvent::Confirm(v) = d.confirm(Some(0));
    assert_eq!(v, Some("apple".to_string()));
    assert!(!d.is_open());
    d.clean();
    assert_eq!(d.selected_value(), None);
    assert_eq!(d.display_title(), None);
    d.set_selected_index(Some(5));
    assert_eq!(d.display_title(), Some((None, String::new())));
    d.toggle_menu();
    assert!(d.up());
    d.escape();
    assert!(!d.up());
}

#[test]
fn blink_cursor_epochs() {
    let mut c = BlinkCursor::new();
    assert!(!c.visible());
    let next = c.start();
    assert_eq!(next, Some(1));
    assert!(c.visible());
    let resume = c.pause();
    assert_eq!(resume, 2);
    assert!(c.visible());
    assert_eq!(c.blink(1), None);
    assert_eq!(c.resume(2), Some(3));
    c.stop();
    assert_eq!(c.blink(3), None);
}

#[test]
fn bar_chart_renders_svg() {
    let json = r#"{"width":300,"height":200,"series_list":[{"name":"a","data":[1.0,2.0]}],"x_axis_data":["x","y"]}"#;
    let chart = Chart::new(ChartKind::Bar, 300, 200, json).unwrap();
    assert!(chart.svg.starts_with("<svg"));
    assert_eq!(chart.width, 300);
    assert!(ChartKind::Pie.to_svg("not json").is_err());
}

#[test]
fn anchor_trigger_corners() {
    assert_eq!(AnchorCorner::TopLeft.trigger_corner(), AnchorCorner::BottomLeft);
    assert_eq!(AnchorCorner::TopRight.trigger_corner(), AnchorCorner::BottomRight);
    assert_eq!(AnchorCorner::BottomLeft.trigger_corner(), AnchorCorner::TopLeft);
    assert_eq!(AnchorCorner::BottomRight.trigger_corner(), AnchorCorner::TopRight);
    let c = AnchorCorner::BottomRight;
    assert_eq!(c.trigger_corner().trigger_corner(), c);
    assert!(AnchorCorner::TopRight.is_top());
    assert!(!AnchorCorner::TopRight.is_left());
    assert!(AnchorCorner::BottomLeft.is_left());
}

#[test]
fn dropdown_select_by_value() {
    let mut d = Dropdown::string_list(vec!["a".to_string(), "b".to_string(), "b".to_string()], None);
    d.set_selected_value(&"b".to_string());
    assert_eq!(d.selected_index(), Some(1));
    d.set_selected_value(&"z".to_string());
    assert_eq!(d.selected_index(), None);
    let d = d.title_prefix("Fruit: ".to_string());
    let mut d = d;
    d.set_selected_index(Some(0));
    assert_eq!(d.display_title(), Some((Some("Fruit: ".to_string()), "a".to_string())));
}
