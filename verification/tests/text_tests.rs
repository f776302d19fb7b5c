use ui::colors::{parse_hex_string, to_hex_string, HexColorError, Rgba8};
use ui::icon::IconName;
use ui::keys::{key_shortcut, Keystroke};
use ui::widgets::{Accordion, Button, Checkbox, Disableable, Label, OtpInput, OtpKey, ScrollbarAxis};

fn keystroke(control: bool, alt: bool, platform: bool, shift: bool, key: &str) -> Keystroke {
    Keystroke { control, alt, platform, shift, key: key.to_string() }
}

#[test]
fn test_key_shortcut() {
    assert_eq!(key_shortcut(keystroke(false, false, false, false, "a")), "A");
    assert_eq!(key_shortcut(keystroke(true, false, false, false, "a")), "Ctrl+A");
    assert_eq!(key_shortcut(keystroke(true, true, false, false, "a")), "Ctrl+Alt+A");
    assert_eq!(key_shortcut(keystroke(true, true, false, true, "a")), "Ctrl+Alt+Shift+A");
    assert_eq!(key_shortcut(keystroke(true, true, true, true, "a")), "Ctrl+Alt+Win+Shift+A");
    assert_eq!(key_shortcut(keystroke(true, false, false, true, "backspace")), "Ctrl+Shift+Backspace");
}

#[test]
fn key_shortcut_of_empty_key() {
    assert_eq!(key_shortcut(keystroke(false, true, false, false, "")), "Alt+");
    assert_eq!(key_shortcut(keystroke(false, false, false, false, "1")), "1");
}

#[test]
fn test_to_hex_string() {
    assert_eq!(to_hex_string(0xf8, 0xfa, 0xfc, None), "#F8FAFC");
    assert_eq!(to_hex_string(0xfe, 0xf2, 0xf2, None), "#FEF2F2");
    assert_eq!(to_hex_string(0x04, 0x13, 0xfc, Some(0xaa)), "#0413FCAA");
}

#[test]
fn test_from_hex_string() {
    assert_eq!(parse_hex_string("#F8FAFC"), Ok(Rgba8 { r: 0xf8, g: 0xfa, b: 0xfc, a: 255 }));
    assert_eq!(parse_hex_string("#FEF2F2"), Ok(Rgba8 { r: 0xfe, g: 0xf2, b: 0xf2, a: 255 }));
    assert_eq!(parse_hex_string("#0413FCAA"), Ok(Rgba8 { r: 0x04, g: 0x13, b: 0xfc, a: 0xaa }));
}

#[test]
fn hex_string_errors() {
    assert_eq!(parse_hex_string("#FFF"), Err(HexColorError::InvalidLength));
    assert_eq!(parse_hex_string("#GG0000"), Err(HexColorError::InvalidDigit));
    assert_eq!(parse_hex_string("##ff0000"), Ok(Rgba8 { r: 255, g: 0, b: 0, a: 255 }));
    assert_eq!(parse_hex_string("+f+f+f"), Ok(Rgba8 { r: 15, g: 15, b: 15, a: 255 }));
    assert_eq!(parse_hex_string("-f0000"), Err(HexColorError::InvalidDigit));
}

#[test]
fn hex_round_trip() {
    let s = to_hex_string(1, 2, 3, Some(4));
    assert_eq!(parse_hex_string(&s), Ok(Rgba8 { r: 1, g: 2, b: 3, a: 4 }));
}

#[test]
fn icon_paths() {
    assert_eq!(IconName::ChevronDown.path(), "icons/chevron-down.svg");
    assert_eq!(IconName::MapIcon.path(), "icons/map.svg");
    assert_eq!(IconName::Settings2.path(), "icons/settings-2.svg");
}

#[test]
fn label_display_text() {
    let label = Label::new("a\nb".to_string());
    assert_eq!(label.display_text(), "a\nb");
    let single = Label { multiple_lines: false, ..Label::new("a\nb".to_string()) };
    assert_eq!(single.display_text(), "a␤b");
    let masked = Label::new("héllo".to_string()).masked(true);
    assert_eq!(masked.display_text(), "•••••");
}

#[test]
fn scrollbar_axes() {
    assert!(ScrollbarAxis::Both.has_vertical());
    assert!(ScrollbarAxis::Both.has_horizontal());
    assert!(!ScrollbarAxis::Vertical.has_horizontal());
    assert_eq!(ScrollbarAxis::Both.all(), vec![ScrollbarAxis::Vertical, ScrollbarAxis::Horizontal]);
    assert_eq!(ScrollbarAxis::Horizontal.all(), vec![ScrollbarAxis::Horizontal]);
}

#[test]
fn otp_input_keys() {
    let mut otp = OtpInput::new(3);
    assert_eq!(otp.on_key_down("x"), OtpKey::Ignored);
    assert_eq!(otp.on_key_down("1"), OtpKey::Handled { complete: false });
    assert_eq!(otp.on_key_down("2"), OtpKey::Handled { complete: false });
    assert_eq!(otp.on_key_down("3"), OtpKey::Handled { complete: true });
    assert_eq!(otp.on_key_down("4"), OtpKey::Ignored);
    assert_eq!(otp.value(), "123");
    assert_eq!(otp.on_key_down("backspace"), OtpKey::Handled { complete: false });
    assert_eq!(otp.value(), "12");
}

#[test]
fn otp_cell_groups() {
    let otp = OtpInput::new(6).groups(2);
    assert_eq!(otp.cell_groups(), vec![0, 0, 0, 1, 1, 1]);
    let otp = OtpInput::new(6).groups(3);
    assert_eq!(otp.cell_groups(), vec![0, 0, 1, 1, 2, 2]);
}

#[test]
fn clicks_on_small_widgets() {
    assert!(Button::new().clickable());
    assert!(!Button::new().loading(true).clickable());
    assert!(!Button::new().disabled(true).clickable());
    assert!(Button::new().selected(true).clickable());
    assert_eq!(Checkbox::new().click(), Some(true));
    assert_eq!(Checkbox::new().checked(true).click(), Some(false));
    assert_eq!(Checkbox::new().disabled(true).click(), None);
    assert!(Accordion::new().toggle_click());
    assert!(!Accordion::new().expanded(true).toggle_click());
}
