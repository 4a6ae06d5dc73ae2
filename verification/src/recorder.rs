//! Recording a hotkey: from the key event of the user interface to the text
//! of a hotkey.

use crate::hotkey;
use crate::hotkey::{punctuation_vk, Modifier};
use crate::text;
use crate::text::{chars_of, is_ascii_alphanumeric, join, same_text, to_upper_char, trim};
use slint::platform::Key;
use slint::platform::Key::{
    Backspace, Tab, Return, Escape, Backtab, Delete, CapsLock, Space, UpArrow, DownArrow,
    LeftArrow, RightArrow, F1, F2, F3, F4, F5, F6, F7, F8, F9, F10, F11, F12, F13, F14, F15,
    F16, F17, F18, F19, F20, F21, F22, F23, F24, Insert, Home, End, PageUp, PageDown,
    ScrollLock, Pause, SysReq, Stop, Menu, Back, Semicolon, Colon, Equals, Plus, Comma,
    LessThan, HyphenMinus, Underscore, Period, GreaterThan, Slash, QuestionMark, BackQuote,
    Tilde, OpenBracket, OpenCurlyBracket, BackSlash, Pipe, CloseBracket, CloseCurlyBracket,
    Quote, DoubleQuote,
};
use slint::SharedString;
use vstd::prelude::*;

verus! {

/// How many keys have a label of their own.
pub const SPECIAL_KEYS: usize = 69;

/// The character that the user interface sends for the special key of the
/// given number.
#[verifier::opaque]
pub open spec fn special_key_char(index: int) -> char {
    if index == 0 {
        '\u{0008}'
    } else if index == 1 {
        '\u{0009}'
    } else if index == 2 {
        '\u{000a}'
    } else if index == 3 {
        '\u{001b}'
    } else if index == 4 {
        '\u{0019}'
    } else if index == 5 {
        '\u{007f}'
    } else if index == 6 {
        '\u{0014}'
    } else if index == 7 {
        '\u{0020}'
    } else if index == 8 {
        '\u{F700}'
    } else if index == 9 {
        '\u{F701}'
    } else if index == 10 {
        '\u{F702}'
    } else if index == 11 {
        '\u{F703}'
    } else if index == 12 {
        '\u{F704}'
    } else if index == 13 {
        '\u{F705}'
    } else if index == 14 {
        '\u{F706}'
    } else if index == 15 {
        '\u{F707}'
    } else if index == 16 {
        '\u{F708}'
    } else if index == 17 {
        '\u{F709}'
    } else if index == 18 {
        '\u{F70A}'
    } else if index == 19 {
        '\u{F70B}'
    } else if index == 20 {
        '\u{F70C}'
    } else if index == 21 {
        '\u{F70D}'
    } else if index == 22 {
        '\u{F70E}'
    } else if index == 23 {
        '\u{F70F}'
    } else if index == 24 {
        '\u{F710}'
    } else if index == 25 {
        '\u{F711}'
    } else if index == 26 {
        '\u{F712}'
    } else if index == 27 {
        '\u{F713}'
    } else if index == 28 {
        '\u{F714}'
    } else if index == 29 {
        '\u{F715}'
    } else if index == 30 {
        '\u{F716}'
    } else if index == 31 {
        '\u{F717}'
    } else if index == 32 {
        '\u{F718}'
    } else if index == 33 {
        '\u{F719}'
    } else if index == 34 {
        '\u{F71A}'
    } else if index == 35 {
        '\u{F71B}'
    } else if index == 36 {
        '\u{F727}'
    } else if index == 37 {
        '\u{F729}'
    } else if index == 38 {
        '\u{F72B}'
    } else if index == 39 {
        '\u{F72C}'
    } else if index == 40 {
        '\u{F72D}'
    } else if index == 41 {
        '\u{F72F}'
    } else if index == 42 {
        '\u{F730}'
    } else if index == 43 {
        '\u{F731}'
    } else if index == 44 {
        '\u{F734}'
    } else if index == 45 {
        '\u{F735}'
    } else if index == 46 {
        '\u{F748}'
    } else if index == 47 {
        ';'
    } else if index == 48 {
        ':'
    } else if index == 49 {
        '='
    } else if index == 50 {
        '+'
    } else if index == 51 {
        ','
    } else if index == 52 {
        '<'
    } else if index == 53 {
        '-'
    } else if index == 54 {
        '_'
    } else if index == 55 {
        '.'
    } else if index == 56 {
        '>'
    } else if index == 57 {
        '/'
    } else if index == 58 {
        '?'
    } else if index == 59 {
        '`'
    } else if index == 60 {
        '~'
    } else if index == 61 {
        '['
    } else if index == 62 {
        '{'
    } else if index == 63 {
        '\\'
    } else if index == 64 {
        '|'
    } else if index == 65 {
        ']'
    } else if index == 66 {
        '}'
    } else if index == 67 {
        '\''
    } else {
        '"'
    }
}

/// The label of the special key of the given number.
#[verifier::opaque]
pub open spec fn special_key_name(index: int) -> Seq<char> {
    if index == 0 {
        "Backspace"@
    } else if index == 1 {
        "Tab"@
    } else if index == 2 {
        "Enter"@
    } else if index == 3 {
        "Esc"@
    } else if index == 4 {
        "Tab"@
    } else if index == 5 {
        "Delete"@
    } else if index == 6 {
        "CapsLock"@
    } else if index == 7 {
        "Space"@
    } else if index == 8 {
        "Up"@
    } else if index == 9 {
        "Down"@
    } else if index == 10 {
        "Left"@
    } else if index == 11 {
        "Right"@
    } else if index == 12 {
        "F1"@
    } else if index == 13 {
        "F2"@
    } else if index == 14 {
        "F3"@
    } else if index == 15 {
        "F4"@
    } else if index == 16 {
        "F5"@
    } else if index == 17 {
        "F6"@
    } else if index == 18 {
        "F7"@
    } else if index == 19 {
        "F8"@
    } else if index == 20 {
        "F9"@
    } else if index == 21 {
        "F10"@
    } else if index == 22 {
        "F11"@
    } else if index == 23 {
        "F12"@
    } else if index == 24 {
        "F13"@
    } else if index == 25 {
        "F14"@
    } else if index == 26 {
        "F15"@
    } else if index == 27 {
        "F16"@
    } else if index == 28 {
        "F17"@
    } else if index == 29 {
        "F18"@
    } else if index == 30 {
        "F19"@
    } else if index == 31 {
        "F20"@
    } else if index == 32 {
        "F21"@
    } else if index == 33 {
        "F22"@
    } else if index == 34 {
        "F23"@
    } else if index == 35 {
        "F24"@
    } else if index == 36 {
        "Insert"@
    } else if index == 37 {
        "Home"@
    } else if index == 38 {
        "End"@
    } else if index == 39 {
        "PageUp"@
    } else if index == 40 {
        "PageDown"@
    } else if index == 41 {
        "ScrollLock"@
    } else if index == 42 {
        "Pause"@
    } else if index == 43 {
        "PrintScreen"@
    } else if index == 44 {
        "BrowserStop"@
    } else if index == 45 {
        "Menu"@
    } else if index == 46 {
        "BrowserBack"@
    } else if index == 47 {
        "Semicolon"@
    } else if index == 48 {
        "Semicolon"@
    } else if index == 49 {
        "Equals"@
    } else if index == 50 {
        "Equals"@
    } else if index == 51 {
        "Comma"@
    } else if index == 52 {
        "Comma"@
    } else if index == 53 {
        "Hyphen"@
    } else if index == 54 {
        "Hyphen"@
    } else if index == 55 {
        "Period"@
    } else if index == 56 {
        "Period"@
    } else if index == 57 {
        "Slash"@
    } else if index == 58 {
        "Slash"@
    } else if index == 59 {
        "BackQuote"@
    } else if index == 60 {
        "BackQuote"@
    } else if index == 61 {
        "OpenBracket"@
    } else if index == 62 {
        "OpenBracket"@
    } else if index == 63 {
        "Backslash"@
    } else if index == 64 {
        "Backslash"@
    } else if index == 65 {
        "CloseBracket"@
    } else if index == 66 {
        "CloseBracket"@
    } else if index == 67 {
        "Quote"@
    } else {
        "Quote"@
    }
}

/// `SharedString::from(slint::platform::Key)`: the text of a key is the one
/// character that stands for it in key events. The numbers follow the list of
/// keys below.
#[verifier::external_body]
fn special_key_text(index: usize) -> (r: String)
    requires
        index < SPECIAL_KEYS,
    ensures
        r@ == seq![special_key_char(index as int)],
{
    let keys: [Key; SPECIAL_KEYS] = [
        Backspace, Tab, Return, Escape, Backtab, Delete, CapsLock, Space, UpArrow, DownArrow, LeftArrow,
        RightArrow, F1, F2, F3, F4, F5, F6, F7, F8, F9, F10, F11, F12, F13, F14, F15, F16, F17, F18, F19, F20,
        F21, F22, F23, F24, Insert, Home, End, PageUp, PageDown, ScrollLock, Pause, SysReq, Stop, Menu, Back,
        Semicolon, Colon, Equals, Plus, Comma, LessThan, HyphenMinus, Underscore, Period, GreaterThan, Slash,
        QuestionMark, BackQuote, Tilde, OpenBracket, OpenCurlyBracket, BackSlash, Pipe, CloseBracket,
        CloseCurlyBracket, Quote, DoubleQuote,
    ];
    let text: SharedString = keys[index].into();
    text.to_string()
}

fn special_key_label(index: usize) -> (r: &'static str)
    requires
        index < SPECIAL_KEYS,
    ensures
        r@ == special_key_name(index as int),
{
    proof {
        reveal(special_key_name);
    }
    if index == 0 {
        "Backspace"
    } else if index == 1 {
        "Tab"
    } else if index == 2 {
        "Enter"
    } else if index == 3 {
        "Esc"
    } else if index == 4 {
        "Tab"
    } else if index == 5 {
        "Delete"
    } else if index == 6 {
        "CapsLock"
    } else if index == 7 {
        "Space"
    } else if index == 8 {
        "Up"
    } else if index == 9 {
        "Down"
    } else if index == 10 {
        "Left"
    } else if index == 11 {
        "Right"
    } else if index == 12 {
        "F1"
    } else if index == 13 {
        "F2"
    } else if index == 14 {
        "F3"
    } else if index == 15 {
        "F4"
    } else if index == 16 {
        "F5"
    } else if index == 17 {
        "F6"
    } else if index == 18 {
        "F7"
    } else if index == 19 {
        "F8"
    } else if index == 20 {
        "F9"
    } else if index == 21 {
        "F10"
    } else if index == 22 {
        "F11"
    } else if index == 23 {
        "F12"
    } else if index == 24 {
        "F13"
    } else if index == 25 {
        "F14"
    } else if index == 26 {
        "F15"
    } else if index == 27 {
        "F16"
    } else if index == 28 {
        "F17"
    } else if index == 29 {
        "F18"
    } else if index == 30 {
        "F19"
    } else if index == 31 {
        "F20"
    } else if index == 32 {
        "F21"
    } else if index == 33 {
        "F22"
    } else if index == 34 {
        "F23"
    } else if index == 35 {
        "F24"
    } else if index == 36 {
        "Insert"
    } else if index == 37 {
        "Home"
    } else if index == 38 {
        "End"
    } else if index == 39 {
        "PageUp"
    } else if index == 40 {
        "PageDown"
    } else if index == 41 {
        "ScrollLock"
    } else if index == 42 {
        "Pause"
    } else if index == 43 {
        "PrintScreen"
    } else if index == 44 {
        "BrowserStop"
    } else if index == 45 {
        "Menu"
    } else if index == 46 {
        "BrowserBack"
    } else if index == 47 {
        "Semicolon"
    } else if index == 48 {
        "Semicolon"
    } else if index == 49 {
        "Equals"
    } else if index == 50 {
        "Equals"
    } else if index == 51 {
        "Comma"
    } else if index == 52 {
        "Comma"
    } else if index == 53 {
        "Hyphen"
    } else if index == 54 {
        "Hyphen"
    } else if index == 55 {
        "Period"
    } else if index == 56 {
        "Period"
    } else if index == 57 {
        "Slash"
    } else if index == 58 {
        "Slash"
    } else if index == 59 {
        "BackQuote"
    } else if index == 60 {
        "BackQuote"
    } else if index == 61 {
        "OpenBracket"
    } else if index == 62 {
        "OpenBracket"
    } else if index == 63 {
        "Backslash"
    } else if index == 64 {
        "Backslash"
    } else if index == 65 {
        "CloseBracket"
    } else if index == 66 {
        "CloseBracket"
    } else if index == 67 {
        "Quote"
    } else {
        "Quote"
    }
}

/// The label of the first special key from number `from` on whose text is
/// `key`.
pub open spec fn special_label_from(key: Seq<char>, from: int) -> Option<Seq<char>>
    decreases SPECIAL_KEYS - from,
{
    if from >= SPECIAL_KEYS {
        None
    } else if key == seq![special_key_char(from)] {
        Some(special_key_name(from))
    } else {
        special_label_from(key, from + 1)
    }
}

/// A label that a lookup returned, as characters.
pub open spec fn label_view(found: Option<&'static str>) -> Option<Seq<char>> {
    match found {
        Some(label) => Some(label@),
        None => None,
    }
}

/// The label of the special key whose text is `key`.
pub fn slint_special_key_label(key: &str) -> (r: Option<&'static str>)
    ensures
        label_view(r) == special_label_from(key@, 0),
{
    let mut i: usize = 0;
    while i < SPECIAL_KEYS
        invariant
            i <= SPECIAL_KEYS,
            special_label_from(key@, 0) == special_label_from(key@, i as int),
        decreases SPECIAL_KEYS - i,
    {
        if same_text(special_key_text(i).as_str(), key) {
            return Some(special_key_label(i));
        }
        i = i + 1;
    }
    None
}

/// The label of a punctuation key.
pub open spec fn punctuation_label(ch: char) -> Option<Seq<char>> {
    match hotkey::punctuation_key(ch) {
        Some((_, label)) => Some(label),
        None => None,
    }
}

/// The label of a punctuation key.
pub fn punctuation_key_label(ch: char) -> (r: Option<&'static str>)
    ensures
        label_view(r) == punctuation_label(ch),
{
    match punctuation_vk(ch) {
        Some((_, label)) => Some(label),
        None => None,
    }
}

/// The label of a recorded key: that of a special key, else the letter or
/// digit in upper case, else that of a punctuation key.
pub open spec fn recorded_label(key: Seq<char>) -> Option<Seq<char>> {
    let text = text::trimmed(key);
    if text.len() == 0 {
        None
    } else {
        match special_label_from(text, 0) {
            Some(label) => Some(label),
            None => if text.len() != 1 {
                None
            } else if text::is_alphanumeric(text[0]) {
                Some(seq![text::upper_char(text[0])])
            } else {
                punctuation_label(text[0])
            },
        }
    }
}

/// The label of a recorded key.
pub fn recorded_key_label(key: &str) -> (r: Option<String>)
    ensures
        text::text_view(r) == recorded_label(key@),
{
    let text = trim(key);
    if text.as_str().is_empty() {
        return None;
    }
    if let Some(label) = slint_special_key_label(text.as_str()) {
        return Some(label.to_owned());
    }
    let chars = chars_of(text.as_str());
    if chars.len() != 1 {
        return None;
    }
    let ch = chars[0];
    if is_ascii_alphanumeric(ch) {
        let mut label = String::new();
        label.push(to_upper_char(ch));
        assert(label@ =~= seq![text::upper_char(ch)]);
        return Some(label);
    }
    match punctuation_key_label(ch) {
        Some(label) => Some(label.to_owned()),
        None => None,
    }
}

/// The labels of the modifiers that are held, in the order of a hotkey text.
pub open spec fn held_labels(control: bool, shift: bool, alt: bool, meta: bool) -> Seq<Seq<char>> {
    let none = Seq::<Seq<char>>::empty();
    (if control {
        seq![Modifier::Ctrl.label()]
    } else {
        none
    }) + (if shift {
        seq![Modifier::Shift.label()]
    } else {
        none
    }) + (if alt {
        seq![Modifier::Alt.label()]
    } else {
        none
    }) + (if meta {
        seq![Modifier::Win.label()]
    } else {
        none
    })
}

/// The hotkey text of a recorded key press; none for a key without a label or
/// without a modifier.
pub open spec fn recorded_spec(
    key: Seq<char>,
    control: bool,
    shift: bool,
    alt: bool,
    meta: bool,
) -> Option<Seq<char>> {
    match recorded_label(key) {
        Some(label) => if control || shift || alt || meta {
            Some(text::joined(held_labels(control, shift, alt, meta).push(label), "+"@))
        } else {
            None
        },
        None => None,
    }
}

/// The hotkey text of a recorded key press.
pub fn recorded_hotkey_spec(key: &str, control: bool, shift: bool, alt: bool, meta: bool) -> (r:
    Option<String>)
    ensures
        text::text_view(r) == recorded_spec(key@, control, shift, alt, meta),
{
    let label = match recorded_key_label(key) {
        Some(label) => label,
        None => return None,
    };
    if !(control || shift || alt || meta) {
        return None;
    }
    let mut parts: Vec<String> = Vec::new();
    if control {
        parts.push(Modifier::Ctrl.name().to_owned());
    }
    if shift {
        parts.push(Modifier::Shift.name().to_owned());
    }
    if alt {
        parts.push(Modifier::Alt.name().to_owned());
    }
    if meta {
        parts.push(Modifier::Win.name().to_owned());
    }
    parts.push(label);
    assert(text::views(parts@) =~= held_labels(control, shift, alt, meta).push(label@));
    Some(join(&parts, "+"))
}

} // verus!
