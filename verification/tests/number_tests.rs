use ui::number::{
    format_integer, parse_integer, ClickType, NumberInput, NumberInputConfig, ScrollWheelDirection, Step,
    SteppableNumber, ValidationPayload,
};

#[test]
fn parses_like_str_parse() {
    assert_eq!(parse_integer("42", false), Some((false, 42)));
    assert_eq!(parse_integer("+42", false), Some((false, 42)));
    assert_eq!(parse_integer("-42", true), Some((true, 42)));
    assert_eq!(parse_integer("-42", false), None);
    assert_eq!(parse_integer("", true), None);
    assert_eq!(parse_integer("+", true), None);
    assert_eq!(parse_integer("4a", true), None);
    assert_eq!(parse_integer("007", false), Some((false, 7)));
}

#[test]
fn from_string_matches_std() {
    for s in ["0", "255", "256", "-1", "+7", "", "1.5", " 1", "-0"] {
        assert_eq!(u8::from_string(s), s.parse::<u8>().ok(), "{}", s);
        assert_eq!(i8::from_string(s), s.parse::<i8>().ok(), "{}", s);
    }
    assert_eq!(i8::from_string("-128"), Some(-128));
    assert_eq!(i8::from_string("-129"), None);
    assert_eq!(i128::from_string("-170141183460469231731687303715884105728"), Some(i128::MIN));
    assert_eq!(u128::from_string("340282366920938463463374607431768211456"), None);
    assert!(u16::is_valid_number_string("65535"));
    assert!(!u16::is_valid_number_string("65536"));
}

#[test]
fn to_text_matches_to_string() {
    for v in [0i64, 7, -7, 1234567, i64::MIN, i64::MAX] {
        assert_eq!(v.to_text(), v.to_string());
    }
    assert_eq!(u128::MAX.to_text(), u128::MAX.to_string());
    assert_eq!(format_integer(true, 5), "-5");
}

#[test]
fn can_add_reports_remainder() {
    assert!(matches!(250u8.can_add(5), ValidationPayload::Valid));
    match 250u8.can_add(6) {
        ValidationPayload::Invalid { remainder } => assert_eq!(remainder, 5),
        ValidationPayload::Valid => panic!("expected overflow"),
    }
    match 3u8.can_subtract(4) {
        ValidationPayload::Invalid { remainder } => assert_eq!(remainder, 3),
        ValidationPayload::Valid => panic!("expected underflow"),
    }
    match (-120i8).can_subtract(10) {
        ValidationPayload::Invalid { remainder } => assert_eq!(remainder, 8),
        ValidationPayload::Valid => panic!("expected underflow"),
    }
}

#[test]
fn increment_stops_at_max() {
    let config = NumberInputConfig::new().initial_value(8u32).step(3).max(10);
    let mut n = NumberInput::new(config);
    assert_eq!(n.value(), 8);
    n.increment(Step::Normal);
    assert_eq!(n.value(), 10);
    n.decrement(Step::Normal);
    assert_eq!(n.value(), 7);
}

#[test]
fn decrement_stops_at_min_and_type_bound() {
    let config = NumberInputConfig::new().initial_value(2u8).step(5).min(1);
    let mut n = NumberInput::new(config);
    n.decrement(Step::Normal);
    assert_eq!(n.value(), 1);
    let config = NumberInputConfig::new().initial_value(250u8).big_step(10);
    let mut n = NumberInput::new(config);
    n.increment(Step::Big);
    assert_eq!(n.value(), 255);
}

#[test]
fn change_event_updates_value() {
    let mut n = NumberInput::new(NumberInputConfig::new().initial_value(5i32));
    n.on_change("-12");
    assert_eq!(n.value(), -12);
    n.on_change("abc");
    assert_eq!(n.value(), -12);
    n.on_cleaned();
    assert_eq!(n.value(), 5);
}

#[test]
fn scroll_steps_only_with_focus() {
    let mut n = NumberInput::new(NumberInputConfig::new().initial_value(5i32).big_step(10));
    n.on_scroll(ScrollWheelDirection::Up);
    assert_eq!(n.value(), 5);
    n.on_focus();
    n.on_scroll(ScrollWheelDirection::BigUp);
    assert_eq!(n.value(), 15);
    n.on_scroll(ScrollWheelDirection::Down);
    assert_eq!(n.value(), 14);
    n.on_blur();
    n.click_decrement(Some(ClickType::Big));
    assert_eq!(n.value(), 4);
    n.click_increment(None);
    assert_eq!(n.value(), 4);
}

#[test]
fn pointer_events_pick_the_step() {
    assert!(ClickType::from_event(false) == Some(ClickType::Normal));
    assert!(ClickType::from_event(true) == Some(ClickType::Big));
    assert!(ScrollWheelDirection::from_event(true, false, false) == Some(ScrollWheelDirection::Up));
    assert!(ScrollWheelDirection::from_event(true, false, true) == Some(ScrollWheelDirection::BigUp));
    assert!(ScrollWheelDirection::from_event(false, true, false) == Some(ScrollWheelDirection::Down));
    assert!(ScrollWheelDirection::from_event(false, true, true) == Some(ScrollWheelDirection::BigDown));
    assert!(ScrollWheelDirection::from_event(false, false, true).is_none());
}
