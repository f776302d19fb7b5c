use ui::history::{Change, History, GROUP_INTERVAL, MAX_UNDO};

#[test]
fn change_new_has_version_zero() {
    let c = Change::new(0..1, "a", 0..2, "bc");
    assert_eq!(c.version(), 0);
    assert_eq!(c.old_text, "a");
    assert_eq!(c.new_text, "bc");
    assert_eq!(c.new_range, 0..2);
}

#[test]
fn changes_close_in_time_share_a_group() {
    let mut h = History::new();
    h.record(0..0, "", 0..1, "a", 1000);
    h.record(1..1, "", 1..2, "b", 10);
    h.record(2..2, "", 2..3, "c", 1000);
    assert_eq!(h.version, 2);
    let top = h.undo().unwrap();
    assert_eq!(top.len(), 1);
    assert_eq!(top[0].new_text, "c");
    let next = h.undo().unwrap();
    assert_eq!(next.len(), 2);
    assert_eq!(next[0].new_text, "b");
    assert_eq!(next[1].new_text, "a");
    assert!(h.undo().is_none());
}

#[test]
fn redo_brings_back_undone_group() {
    let mut h = History::new();
    h.record(0..0, "", 0..1, "a", 1000);
    h.record(1..1, "", 1..2, "b", 1000);
    let undone = h.undo().unwrap();
    assert_eq!(undone[0].new_text, "b");
    let redone = h.redo().unwrap();
    assert_eq!(redone.len(), 1);
    assert_eq!(redone[0].new_text, "b");
    assert!(h.redo().is_none());
}

#[test]
fn elapsed_exactly_interval_keeps_group() {
    let mut h = History::new();
    h.record(0..0, "", 0..1, "a", GROUP_INTERVAL as u128);
    assert_eq!(h.version, 0);
    h.record(0..0, "", 0..1, "a", GROUP_INTERVAL as u128 + 1);
    assert_eq!(h.version, 1);
}

#[test]
fn undo_stack_is_bounded() {
    let mut h = History::new();
    for i in 0..(MAX_UNDO + 5) {
        h.record(i..i, "", i..i + 1, "x", 1000);
    }
    let mut count = 0;
    while let Some(group) = h.undo() {
        count += group.len();
    }
    assert_eq!(count, MAX_UNDO);
}

#[test]
fn ignore_flag() {
    let mut h = History::new();
    assert!(!h.ignore());
    h.set_ignore(true);
    assert!(h.ignore());
}

#[test]
fn push_records_a_change() {
    let mut h = History::new();
    h.push(0..0, "", 0..1, "a");
    let group = h.undo().unwrap();
    assert_eq!(group.len(), 1);
    assert_eq!(group[0].new_text, "a");
}
