use a_fast_clipboard::hotkey::{parse_hotkey, MOD_CONTROL, MOD_SHIFT};
use a_fast_clipboard::recorder::{
    punctuation_key_label, recorded_hotkey_spec, recorded_key_label, slint_special_key_label,
};
use slint::platform::Key;
use slint::SharedString;

fn sent(key: Key) -> String {
    SharedString::from(key).to_string()
}

#[test]
fn special_keys_have_labels() {
    for (key, character, label) in [
        (Key::Backspace, '\u{0008}', "Backspace"),
        (Key::Tab, '\u{0009}', "Tab"),
        (Key::Return, '\u{000a}', "Enter"),
        (Key::Escape, '\u{001b}', "Esc"),
        (Key::Backtab, '\u{0019}', "Tab"),
        (Key::Delete, '\u{007f}', "Delete"),
        (Key::CapsLock, '\u{0014}', "CapsLock"),
        (Key::Space, '\u{0020}', "Space"),
        (Key::UpArrow, '\u{F700}', "Up"),
        (Key::DownArrow, '\u{F701}', "Down"),
        (Key::LeftArrow, '\u{F702}', "Left"),
        (Key::RightArrow, '\u{F703}', "Right"),
        (Key::F1, '\u{F704}', "F1"),
        (Key::F2, '\u{F705}', "F2"),
        (Key::F3, '\u{F706}', "F3"),
        (Key::F4, '\u{F707}', "F4"),
        (Key::F5, '\u{F708}', "F5"),
        (Key::F6, '\u{F709}', "F6"),
        (Key::F7, '\u{F70A}', "F7"),
        (Key::F8, '\u{F70B}', "F8"),
        (Key::F9, '\u{F70C}', "F9"),
        (Key::F10, '\u{F70D}', "F10"),
        (Key::F11, '\u{F70E}', "F11"),
        (Key::F12, '\u{F70F}', "F12"),
        (Key::F13, '\u{F710}', "F13"),
        (Key::F14, '\u{F711}', "F14"),
        (Key::F15, '\u{F712}', "F15"),
        (Key::F16, '\u{F713}', "F16"),
        (Key::F17, '\u{F714}', "F17"),
        (Key::F18, '\u{F715}', "F18"),
        (Key::F19, '\u{F716}', "F19"),
        (Key::F20, '\u{F717}', "F20"),
        (Key::F21, '\u{F718}', "F21"),
        (Key::F22, '\u{F719}', "F22"),
        (Key::F23, '\u{F71A}', "F23"),
        (Key::F24, '\u{F71B}', "F24"),
        (Key::Insert, '\u{F727}', "Insert"),
        (Key::Home, '\u{F729}', "Home"),
        (Key::End, '\u{F72B}', "End"),
        (Key::PageUp, '\u{F72C}', "PageUp"),
        (Key::PageDown, '\u{F72D}', "PageDown"),
        (Key::ScrollLock, '\u{F72F}', "ScrollLock"),
        (Key::Pause, '\u{F730}', "Pause"),
        (Key::SysReq, '\u{F731}', "PrintScreen"),
        (Key::Stop, '\u{F734}', "BrowserStop"),
        (Key::Menu, '\u{F735}', "Menu"),
        (Key::Back, '\u{F748}', "BrowserBack"),
        (Key::Semicolon, ';', "Semicolon"),
        (Key::Colon, ':', "Semicolon"),
        (Key::Equals, '=', "Equals"),
        (Key::Plus, '+', "Equals"),
        (Key::Comma, ',', "Comma"),
        (Key::LessThan, '<', "Comma"),
        (Key::HyphenMinus, '-', "Hyphen"),
        (Key::Underscore, '_', "Hyphen"),
        (Key::Period, '.', "Period"),
        (Key::GreaterThan, '>', "Period"),
        (Key::Slash, '/', "Slash"),
        (Key::QuestionMark, '?', "Slash"),
        (Key::BackQuote, '`', "BackQuote"),
        (Key::Tilde, '~', "BackQuote"),
        (Key::OpenBracket, '[', "OpenBracket"),
        (Key::OpenCurlyBracket, '{', "OpenBracket"),
        (Key::BackSlash, '\\', "Backslash"),
        (Key::Pipe, '|', "Backslash"),
        (Key::CloseBracket, ']', "CloseBracket"),
        (Key::CloseCurlyBracket, '}', "CloseBracket"),
        (Key::Quote, '\'', "Quote"),
        (Key::DoubleQuote, '"', "Quote"),
    ] {
        assert_eq!(sent(key), character.to_string());
        assert_eq!(slint_special_key_label(&sent(key)), Some(label));
    }
    assert_eq!(slint_special_key_label("a"), None);
    assert_eq!(slint_special_key_label(""), None);
}

#[test]
fn modifier_keys_have_no_label() {
    assert_eq!(recorded_key_label(&sent(Key::Control)), None);
    assert_eq!(recorded_key_label(&sent(Key::Shift)), None);
}

#[test]
fn white_space_keys_are_trimmed_away() {
    assert_eq!(recorded_key_label(" "), None);
    assert_eq!(recorded_key_label("\t"), None);
    assert_eq!(recorded_key_label("\n"), None);
    assert_eq!(recorded_key_label(""), None);
}

#[test]
fn letters_digits_and_punctuation() {
    assert_eq!(recorded_key_label("v"), Some("V".to_string()));
    assert_eq!(recorded_key_label("7"), Some("7".to_string()));
    assert_eq!(recorded_key_label(" x "), Some("X".to_string()));
    assert_eq!(recorded_key_label("ab"), None);
    assert_eq!(recorded_key_label("é"), None);
    assert_eq!(punctuation_key_label('|'), Some("Backslash"));
    assert_eq!(punctuation_key_label('a'), None);
}

#[test]
fn recorded_hotkeys() {
    assert_eq!(
        recorded_hotkey_spec("v", true, false, true, false),
        Some("Ctrl+Alt+V".to_string())
    );
    assert_eq!(
        recorded_hotkey_spec(&sent(Key::F5), true, true, true, true),
        Some("Ctrl+Shift+Alt+Win+F5".to_string())
    );
    assert_eq!(recorded_hotkey_spec("v", false, false, false, false), None);
    assert_eq!(recorded_hotkey_spec("", true, false, false, false), None);
}

#[test]
fn recorded_hotkey_is_read_as_recorded() {
    let spec = recorded_hotkey_spec("?", true, true, false, false).unwrap();
    assert_eq!(spec, "Ctrl+Shift+Slash");
    let hotkey = parse_hotkey(&spec).ok().unwrap();
    assert_eq!(hotkey.modifiers, MOD_CONTROL | MOD_SHIFT);
    assert_eq!(hotkey.vk, 0xBF);
    assert_eq!(hotkey.label, spec);
}

#[test]
fn pause_is_recorded_but_is_no_hotkey() {
    let spec = recorded_hotkey_spec(&sent(Key::Pause), true, false, false, false).unwrap();
    assert_eq!(spec, "Ctrl+Pause");
    assert_eq!(
        parse_hotkey(&spec).err().unwrap().message(),
        "unknown key 'Pause'"
    );
}
