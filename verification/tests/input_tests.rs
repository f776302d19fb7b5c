use ui::input::{AcceptAll, TextInput};
use ui::pattern::Pattern;

fn input_with(text: &str) -> TextInput<AcceptAll> {
    let mut input = TextInput::new();
    input.set_text(text);
    input
}

#[test]
fn new_input_is_empty() {
    let input = TextInput::new();
    assert_eq!(input.text(), "");
    assert_eq!(input.selected_range(), 0..0);
    assert!(!input.disabled());
    assert!(input.is_single_line());
}

#[test]
fn set_text_puts_cursor_at_start() {
    let input = input_with("hello");
    assert_eq!(input.text(), "hello");
    assert_eq!(input.selected_range(), 0..0);
}

#[test]
fn disabled_input_refuses_typing_but_takes_set_text() {
    let mut input = input_with("abc");
    input.set_disabled(true);
    assert!(!input.replace_text_in_range(None, "q"));
    assert_eq!(input.text(), "abc");
    input.set_text("xyz");
    assert_eq!(input.text(), "xyz");
    assert_eq!(input.selected_range(), 0..0);
    // Setting the text is not recorded: there is nothing to undo.
    input.undo();
    assert_eq!(input.text(), "xyz");
}

#[test]
fn replace_places_cursor_after_new_text() {
    let mut input = input_with("hello world");
    assert!(input.replace_text_in_range(Some(6..11), "there"));
    assert_eq!(input.text(), "hello there");
    assert_eq!(input.selected_range(), 11..11);
}

#[test]
fn replace_converts_utf16_offsets() {
    // "é" is one UTF-16 unit and two bytes; "😀" is two units and four bytes.
    let mut input = input_with("é😀x");
    assert_eq!(input.range_from_utf16(&(1..3)), 2..6);
    assert_eq!(input.range_to_utf16(&(2..6)), 1..3);
    assert!(input.replace_text_in_range(Some(1..3), "y"));
    assert_eq!(input.text(), "éyx");
}

#[test]
fn undo_restores_and_redo_reapplies() {
    let mut input = input_with("abc");
    input.move_to(3);
    assert!(input.replace_text_in_range(None, "d"));
    assert_eq!(input.text(), "abcd");
    input.undo();
    assert_eq!(input.text(), "abc");
    input.redo();
    assert_eq!(input.text(), "abcd");
}

#[test]
fn undo_with_empty_history_does_nothing() {
    let mut input = input_with("abc");
    input.undo();
    assert_eq!(input.text(), "abc");
    input.redo();
    assert_eq!(input.text(), "abc");
}

#[test]
fn pattern_rejects_text() {
    let pattern = Pattern::new("^[0-9]*$").unwrap();
    let mut input = TextInput::new().pattern(pattern);
    assert!(input.replace_text_in_range(None, "12"));
    assert!(!input.replace_text_in_range(None, "a"));
    assert_eq!(input.text(), "12");
}

#[test]
fn invalid_pattern_is_refused() {
    assert!(Pattern::new("(").is_none());
    assert_eq!(Pattern::new("a+").unwrap().source(), "a+");
}

#[test]
fn left_and_right_step_over_grapheme_clusters() {
    // "e" + combining acute accent form one cluster of three bytes.
    let mut input = input_with("ae\u{301}b");
    input.move_to(4);
    input.left();
    assert_eq!(input.selected_range(), 1..1);
    input.right();
    assert_eq!(input.selected_range(), 4..4);
    assert_eq!(input.previous_boundary(4), 1);
    assert_eq!(input.next_boundary(1), 4);
    assert_eq!(input.next_boundary(5), 5);
}

#[test]
fn left_collapses_selection_to_its_start() {
    let mut input = input_with("hello");
    input.move_to(1);
    input.select_to(4);
    input.left();
    assert_eq!(input.selected_range(), 1..1);
}

#[test]
fn select_to_flips_past_anchor() {
    let mut input = input_with("hello");
    input.move_to(3);
    input.select_to(1);
    assert_eq!(input.selected_range(), 1..3);
    assert!(input.selection_reversed());
    assert_eq!(input.cursor_offset(), 1);
}

#[test]
fn select_all_selects_whole_text() {
    let mut input = input_with("héllo");
    input.select_all();
    assert_eq!(input.selected_range(), 0..6);
}

#[test]
fn backspace_deletes_previous_cluster() {
    let mut input = input_with("ab");
    input.move_to(2);
    input.backspace();
    assert_eq!(input.text(), "a");
    assert_eq!(input.selected_range(), 1..1);
}

#[test]
fn delete_removes_next_cluster() {
    let mut input = input_with("ab");
    input.move_to(0);
    input.delete();
    assert_eq!(input.text(), "b");
}

#[test]
fn backspace_removes_selection() {
    let mut input = input_with("hello");
    input.move_to(1);
    input.select_to(4);
    input.backspace();
    assert_eq!(input.text(), "ho");
}

#[test]
fn copy_and_cut_selection() {
    let mut input = input_with("hello");
    assert_eq!(input.copy(), None);
    input.move_to(1);
    input.select_to(3);
    assert_eq!(input.copy(), Some("el".to_string()));
    assert_eq!(input.cut(), Some("el".to_string()));
    assert_eq!(input.text(), "hlo");
}

#[test]
fn paste_drops_line_breaks_in_single_line() {
    let mut input = input_with("");
    input.paste(Some("a\nb".to_string()));
    assert_eq!(input.text(), "ab");
    let mut area = TextInput::new().multi_line();
    area.paste(Some("a\nb".to_string()));
    assert_eq!(area.text(), "a\nb");
    area.paste(None);
    assert_eq!(area.text(), "a\nb");
}

#[test]
fn home_and_end_in_text_area() {
    let mut area = TextInput::new().multi_line();
    area.set_text("ab\ncd\nef");
    area.move_to(4);
    area.home();
    assert_eq!(area.selected_range(), 3..3);
    area.move_to(4);
    area.end();
    assert_eq!(area.selected_range(), 5..5);
}

#[test]
fn up_and_down_in_text_area() {
    let mut area = TextInput::new().multi_line();
    area.set_text("ab\ncd\nef");
    area.move_to(4);
    area.up();
    assert_eq!(area.selected_range(), 2..2);
    area.move_to(4);
    area.down();
    assert_eq!(area.selected_range(), 6..6);
}

#[test]
fn home_in_single_line_goes_to_start() {
    let mut input = input_with("abc");
    input.move_to(2);
    input.home();
    assert_eq!(input.selected_range(), 0..0);
    input.end();
    assert_eq!(input.selected_range(), 3..3);
}

#[test]
fn delete_to_line_ends() {
    let mut area = TextInput::new().multi_line();
    area.set_text("ab\ncd\nef");
    area.move_to(4);
    area.delete_to_beginning_of_line();
    assert_eq!(area.text(), "ab\nd\nef");
    area.move_to(3);
    area.delete_to_end_of_line();
    assert_eq!(area.text(), "ab\n\nef");
}

#[test]
fn enter_inserts_line_break_in_text_area() {
    let mut area = TextInput::new().multi_line();
    area.set_text("ab");
    area.move_to(1);
    area.enter();
    assert_eq!(area.text(), "a\nb");
    let mut input = input_with("ab");
    input.move_to(1);
    input.enter();
    assert_eq!(input.text(), "ab");
}

#[test]
fn double_click_selects_word() {
    let mut input = input_with("hello big_world!");
    input.on_mouse_down(8, true, 2, false);
    assert_eq!(input.selected_range(), 6..15);
    assert_eq!(input.selected_word_range(), Some(6..15));
    input.on_mouse_up();
    assert_eq!(input.selected_word_range(), None);
}

#[test]
fn shift_click_extends_selection() {
    let mut input = input_with("hello");
    input.move_to(1);
    input.on_mouse_down(4, true, 1, true);
    assert_eq!(input.selected_range(), 1..4);
    input.on_drag_move(5, true, true);
    assert_eq!(input.selected_range(), 1..5);
    input.on_mouse_up();
    input.on_drag_move(2, true, true);
    assert_eq!(input.selected_range(), 1..5);
}

#[test]
fn marked_text_from_input_method() {
    let mut input = input_with("ab");
    input.move_to(1);
    assert!(input.replace_and_mark_text_in_range(None, "xy", None));
    assert_eq!(input.text(), "axyb");
    assert_eq!(input.marked_range(), Some(1..3));
    assert_eq!(input.marked_text_range(), Some(1..3));
    assert!(input.replace_text_in_range(None, "z"));
    assert_eq!(input.text(), "azb");
    assert_eq!(input.marked_range(), None);
}

#[test]
fn text_for_range_reports_adjusted_range() {
    let input = input_with("é😀x");
    let mut adjusted = None;
    let text = input.text_for_range(1..2, &mut adjusted);
    // UTF-16 offset 2 falls inside the emoji, so the range grows to cover it.
    assert_eq!(text, Some("😀".to_string()));
    assert_eq!(adjusted, Some(1..3));
}

#[test]
fn clean_empties_input() {
    let mut input = input_with("abc");
    input.clean();
    assert_eq!(input.text(), "");
    input.undo();
    assert_eq!(input.text(), "abc");
}

#[test]
fn focus_and_blur_drive_the_cursor() {
    let mut input = input_with("hello");
    assert!(!input.show_cursor(true));
    assert_eq!(input.on_focus(), Some(1));
    assert!(input.show_cursor(true));
    assert!(!input.show_cursor(false));
    input.select_all();
    assert_eq!(input.selected_range(), 0..5);
    let resume = input.on_key_down_for_blink_cursor();
    assert_eq!(resume, 2);
    assert!(input.show_cursor(true));
    input.on_blur();
    assert_eq!(input.selected_range(), 5..5);
}

#[test]
fn clear_button_shows_for_cleanable_text() {
    let mut input = TextInput::new().cleanable();
    assert!(!input.shows_clear_button());
    input.set_text("a");
    assert!(input.shows_clear_button());
    input.set_loading(true);
    assert!(!input.shows_clear_button());
    let mut area = TextInput::new().cleanable().multi_line();
    area.set_text("a");
    assert!(!area.shows_clear_button());
    assert!(!input_with("a").shows_clear_button());
}

#[test]
fn try_enter_refuses_a_rejected_line_break_in_empty_text() {
    let digits = Pattern::new("^[0-9]*$").unwrap();
    let mut area = TextInput::new().multi_line().pattern(digits);
    assert!(!area.is_valid_input("\n"));
    assert!(area.is_valid_input("12"));
    assert!(area.is_valid_input(""));
    assert!(!area.try_enter());
    assert_eq!(area.text(), "");
    let mut open = TextInput::new().multi_line();
    assert!(open.try_enter());
    assert_eq!(open.text(), "\n");
    let mut single = input_with("x");
    assert!(single.try_enter());
    assert_eq!(single.text(), "x");
}
