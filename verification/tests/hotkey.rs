use a_fast_clipboard::hotkey::{
    compact_key_name, named_vk, parse_hotkey, parse_key, parse_numpad_vk, parse_raw_vk,
    punctuation_vk, MOD_ALT, MOD_CONTROL, MOD_SHIFT, MOD_WIN,
};

fn chars(text: &str) -> Vec<char> {
    text.chars().collect()
}

fn read(spec: &str) -> (u32, u32, String) {
    match parse_hotkey(spec) {
        Ok(hotkey) => (hotkey.modifiers, hotkey.vk, hotkey.label),
        Err(error) => panic!("{spec}: {}", error.message()),
    }
}

fn refuse(spec: &str) -> String {
    match parse_hotkey(spec) {
        Ok(hotkey) => panic!("{spec} is read as {}", hotkey.label),
        Err(error) => error.message(),
    }
}

#[test]
fn default_hotkey_is_read() {
    assert_eq!(
        read("Ctrl+Alt+V"),
        (MOD_CONTROL | MOD_ALT, 0x56, "Ctrl+Alt+V".to_string())
    );
}

#[test]
fn modifiers_have_several_names() {
    assert_eq!(read("control+a").0, MOD_CONTROL);
    assert_eq!(read("CTRL+a").0, MOD_CONTROL);
    assert_eq!(read("shift + a").0, MOD_SHIFT);
    for name in ["win", "windows", "Meta", "SUPER"] {
        assert_eq!(read(&format!("{name}+v")), (MOD_WIN, 0x56, "Win+V".to_string()));
    }
}

#[test]
fn parts_are_trimmed_and_empty_ones_left_out() {
    assert_eq!(read(" ++ ctrl + + b +"), (MOD_CONTROL, 0x42, "Ctrl+B".to_string()));
}

#[test]
fn repeated_modifier_stays_in_the_label() {
    assert_eq!(read("ctrl+ctrl+1"), (MOD_CONTROL, 0x31, "Ctrl+Ctrl+1".to_string()));
}

#[test]
fn hotkey_errors() {
    assert_eq!(refuse("ctrl+alt"), "missing a key");
    assert_eq!(refuse(""), "missing a key");
    assert_eq!(refuse("a+b"), "only one non-modifier key is supported");
    assert_eq!(refuse("Ctrl+Nope"), "unknown key 'Nope'");
    assert_eq!(refuse("nope+b"), "unknown key 'nope'");
    assert_eq!(refuse("a+nope"), "only one non-modifier key is supported");
}

#[test]
fn raw_codes_in_both_forms() {
    assert_eq!(read("VK242"), read("VK_0xF2"));
    assert_eq!(read("VK242"), (0, 0xF2, "VK_0xF2".to_string()));
    assert_eq!(read("vk:7").1, 7);
    assert_eq!(read("vk__12").1, 12);
    assert_eq!(read("vk_:12").1, 12);
    assert_eq!(read("vk 0x0a"), (0, 10, "VK_0x0A".to_string()));
}

#[test]
fn raw_codes_out_of_range() {
    assert_eq!(refuse("vk0"), "unknown key 'vk0'");
    assert_eq!(refuse("vk255"), "unknown key 'vk255'");
    assert_eq!(refuse("vk_0x1FF"), "unknown key 'vk_0x1FF'");
    assert_eq!(parse_raw_vk(&chars("vk")), None);
    assert_eq!(parse_raw_vk(&chars("vk4294967296")), None);
    assert_eq!(parse_raw_vk(&chars("vk-1")), None);
    assert_eq!(parse_raw_vk(&chars("vk254")), Some((254, "VK_0xFE".to_string())));
    assert_eq!(parse_raw_vk(&chars("vk+5")), Some((5, "VK_0x05".to_string())));
}

#[test]
fn function_keys() {
    assert_eq!(read("f1"), (0, 0x70, "F1".to_string()));
    assert_eq!(read("F24"), (0, 0x87, "F24".to_string()));
    assert_eq!(read("f-12"), (0, 0x7B, "F12".to_string()));
    assert_eq!(refuse("f25"), "unknown key 'f25'");
    assert_eq!(refuse("f0"), "unknown key 'f0'");
    assert_eq!(read("f"), (0, 0x46, "F".to_string()));
}

#[test]
fn named_keys() {
    assert_eq!(named_vk(&chars("pgdn")), Some((0x22, "PageDown")));
    assert_eq!(named_vk(&chars("snapshot")), Some((0x2C, "PrintScreen")));
    assert_eq!(named_vk(&chars("previoustrack")), Some((0xB1, "MediaPrev")));
    assert_eq!(named_vk(&chars("doublequote")), Some((0xDE, "Quote")));
    assert_eq!(named_vk(&chars("numpad7")), Some((0x67, "Numpad7")));
    assert_eq!(named_vk(&chars("pause")), None);
    assert_eq!(read("Page Up"), (0, 0x21, "PageUp".to_string()));
    assert_eq!(read("media_play-pause"), (0, 0xB3, "MediaPlayPause".to_string()));
}

#[test]
fn numeric_pad() {
    assert_eq!(parse_numpad_vk(&chars("num0")), Some((0x60, "Numpad0")));
    assert_eq!(parse_numpad_vk(&chars("numpadplus")), Some((0x6B, "NumpadAdd")));
    assert_eq!(parse_numpad_vk(&chars("numslash")), Some((0x6F, "NumpadDivide")));
    assert_eq!(parse_numpad_vk(&chars("numpad")), None);
    assert_eq!(parse_numpad_vk(&chars("pad1")), None);
}

#[test]
fn single_characters() {
    assert_eq!(parse_key(&chars("z")), Some((0x5A, "Z".to_string())));
    assert_eq!(parse_key(&chars("9")), Some((0x39, "9".to_string())));
    assert_eq!(parse_key(&chars("~")), Some((0xC0, "BackQuote".to_string())));
    assert_eq!(parse_key(&chars("é")), None);
    assert_eq!(parse_key(&chars("zz")), None);
    assert_eq!(parse_key(&chars("")), None);
    assert_eq!(punctuation_vk('}'), Some((0xDD, "CloseBracket")));
    assert_eq!(punctuation_vk('a'), None);
}

#[test]
fn compact_names() {
    assert_eq!(compact_key_name(&chars("page_up - x")), chars("pageupx"));
}

#[test]
fn labels_are_texts_of_their_hotkeys() {
    for spec in [
        "ctrl+shift+pgup",
        "alt+f13",
        "win+vk99",
        "meta+num5",
        "control+?",
        "shift+spacebar",
        "q",
    ] {
        let first = read(spec);
        assert_eq!(read(&first.2), first);
    }
}

#[test]
fn codes_and_labels_of_named_keys() {
    let names = [
        "spacebar", "space", "pgup", "pageup", "prtsc", "sysreq", "app", "menu", "plus", "equal",
        "num5", "numpad5", "numstar", "star", "nexttrack", "mute",
    ];
    let found: Vec<_> = names.iter().filter_map(|name| named_vk(&chars(name))).collect();
    assert_eq!(found.len(), 15);
    for (v1, l1) in &found {
        assert_eq!(named_vk(&chars(&l1.to_ascii_lowercase())), Some((*v1, *l1)));
        for (v2, l2) in &found {
            assert_eq!(v1 == v2, l1 == l2);
        }
    }
}
