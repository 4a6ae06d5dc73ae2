//! Hotkeys written as text, such as `Ctrl+Alt+V` or `Shift+VK_0xF2`.
//!
//! A hotkey is a list of parts between plus signs: any number of modifiers
//! and one key. A key is a letter, a digit, a punctuation character, a name, or
//! a raw virtual-key code.

use crate::number;
use crate::number::{parse_unsigned_chars, push_decimal, push_upper_hex};
use crate::text;
use crate::text::{
    is_text, join, lower_chars, rest_after, split_text, strip_chars,
    strip_front_chars, text_of, to_upper_char, Strip,
};
use vstd::prelude::*;

verus! {

pub const MOD_ALT: u32 = 0x0001;

pub const MOD_CONTROL: u32 = 0x0002;

pub const MOD_SHIFT: u32 = 0x0004;

pub const MOD_WIN: u32 = 0x0008;

/// The virtual-key code of the first function key.
pub const VK_F1: u32 = 0x70;

/// A hotkey that was read: the modifier flags, the virtual-key code of the key,
/// and the text that names it.
pub struct ParsedHotkey {
    pub modifiers: u32,
    pub vk: u32,
    pub label: String,
}

/// A hotkey, its label as characters.
pub struct HotkeyView {
    pub modifiers: u32,
    pub vk: u32,
    pub label: Seq<char>,
}

impl View for ParsedHotkey {
    type V = HotkeyView;

    open spec fn view(&self) -> HotkeyView {
        HotkeyView { modifiers: self.modifiers, vk: self.vk, label: self.label@ }
    }
}

/// Why a text is no hotkey.
#[derive(Debug)]
pub enum HotkeyError {
    /// There is a second part that is no modifier.
    SecondKey,
    /// The first part that is no modifier names no key.
    UnknownKey(String),
    /// Every part is a modifier.
    MissingKey,
}

/// Why a text is no hotkey, the unknown key as characters.
pub enum HotkeyFault {
    SecondKey,
    UnknownKey(Seq<char>),
    MissingKey,
}

impl View for HotkeyError {
    type V = HotkeyFault;

    open spec fn view(&self) -> HotkeyFault {
        match self {
            HotkeyError::SecondKey => HotkeyFault::SecondKey,
            HotkeyError::UnknownKey(key) => HotkeyFault::UnknownKey(key@),
            HotkeyError::MissingKey => HotkeyFault::MissingKey,
        }
    }
}

impl HotkeyFault {
    /// The message that is shown for the fault.
    pub open spec fn text(self) -> Seq<char> {
        match self {
            HotkeyFault::SecondKey => "only one non-modifier key is supported"@,
            HotkeyFault::UnknownKey(key) => "unknown key '"@ + key + "'"@,
            HotkeyFault::MissingKey => "missing a key"@,
        }
    }
}

impl HotkeyError {
    /// The message that is shown for the error.
    pub fn message(&self) -> (r: String)
        ensures
            r@ == self@.text(),
    {
        match self {
            HotkeyError::SecondKey => "only one non-modifier key is supported".to_owned(),
            HotkeyError::UnknownKey(key) => {
                let mut out = "unknown key '".to_owned();
                out.append(key.as_str());
                out.append("'");
                out
            },
            HotkeyError::MissingKey => "missing a key".to_owned(),
        }
    }
}

// ---------------------------------------------------------------------------
// Modifiers
// ---------------------------------------------------------------------------

#[derive(Clone, Copy, PartialEq, Eq, Structural)]
pub enum Modifier {
    Alt,
    Ctrl,
    Shift,
    Win,
}

impl Modifier {
    /// The name that stands in a label.
    pub open spec fn label(self) -> Seq<char> {
        match self {
            Modifier::Alt => "Alt"@,
            Modifier::Ctrl => "Ctrl"@,
            Modifier::Shift => "Shift"@,
            Modifier::Win => "Win"@,
        }
    }

    pub fn name(self) -> (r: &'static str)
        ensures
            r@ == self.label(),
    {
        match self {
            Modifier::Alt => "Alt",
            Modifier::Ctrl => "Ctrl",
            Modifier::Shift => "Shift",
            Modifier::Win => "Win",
        }
    }
}

/// The modifier that a lower-case part names.
pub open spec fn modifier_named(part: Seq<char>) -> Option<Modifier> {
    if part == "ctrl"@ || part == "control"@ {
        Some(Modifier::Ctrl)
    } else if part == "shift"@ {
        Some(Modifier::Shift)
    } else if part == "alt"@ {
        Some(Modifier::Alt)
    } else if part == "win"@ || part == "windows"@ || part == "meta"@ || part == "super"@ {
        Some(Modifier::Win)
    } else {
        None
    }
}

fn find_modifier(part: &Vec<char>) -> (r: Option<Modifier>)
    ensures
        r == modifier_named(part@),
{
    if is_text(part, "ctrl") || is_text(part, "control") {
        Some(Modifier::Ctrl)
    } else if is_text(part, "shift") {
        Some(Modifier::Shift)
    } else if is_text(part, "alt") {
        Some(Modifier::Alt)
    } else if is_text(part, "win") || is_text(part, "windows") || is_text(part, "meta") || is_text(
        part,
        "super",
    ) {
        Some(Modifier::Win)
    } else {
        None
    }
}

// ---------------------------------------------------------------------------
// Keys
// ---------------------------------------------------------------------------

/// The code and the label of a punctuation key.
pub open spec fn punctuation_key(ch: char) -> Option<(u32, Seq<char>)> {
    match ch {
        ';' | ':' => Some((0xBAu32, "Semicolon"@)),
        '=' | '+' => Some((0xBBu32, "Equals"@)),
        ',' | '<' => Some((0xBCu32, "Comma"@)),
        '-' | '_' => Some((0xBDu32, "Hyphen"@)),
        '.' | '>' => Some((0xBEu32, "Period"@)),
        '/' | '?' => Some((0xBFu32, "Slash"@)),
        '`' | '~' => Some((0xC0u32, "BackQuote"@)),
        '[' | '{' => Some((0xDBu32, "OpenBracket"@)),
        '\\' | '|' => Some((0xDCu32, "Backslash"@)),
        ']' | '}' => Some((0xDDu32, "CloseBracket"@)),
        '\'' | '"' => Some((0xDEu32, "Quote"@)),
        _ => None,
    }
}

/// What a key lookup returned, the label as characters.
pub open spec fn key_view(found: Option<(u32, &'static str)>) -> Option<(u32, Seq<char>)> {
    match found {
        Some((vk, label)) => Some((vk, label@)),
        None => None,
    }
}

/// What a key lookup returned, the label as characters.
pub open spec fn owned_key_view(found: Option<(u32, String)>) -> Option<(u32, Seq<char>)> {
    match found {
        Some((vk, label)) => Some((vk, label@)),
        None => None,
    }
}

/// The code and the label of a punctuation key.
pub fn punctuation_vk(ch: char) -> (r: Option<(u32, &'static str)>)
    ensures
        key_view(r) == punctuation_key(ch),
{
    match ch {
        ';' | ':' => Some((0xBA, "Semicolon")),
        '=' | '+' => Some((0xBB, "Equals")),
        ',' | '<' => Some((0xBC, "Comma")),
        '-' | '_' => Some((0xBD, "Hyphen")),
        '.' | '>' => Some((0xBE, "Period")),
        '/' | '?' => Some((0xBF, "Slash")),
        '`' | '~' => Some((0xC0, "BackQuote")),
        '[' | '{' => Some((0xDB, "OpenBracket")),
        '\\' | '|' => Some((0xDC, "Backslash")),
        ']' | '}' => Some((0xDD, "CloseBracket")),
        '\'' | '"' => Some((0xDE, "Quote")),
        _ => None,
    }
}

/// What follows `numpad` or `num`.
pub open spec fn numpad_suffix(value: Seq<char>) -> Option<Seq<char>> {
    match text::after_prefix(value, "numpad"@) {
        Some(rest) => Some(rest),
        None => text::after_prefix(value, "num"@),
    }
}

/// The key of the numeric pad with the given short name.
pub open spec fn numpad_key_named(key: Seq<char>) -> Option<(u32, Seq<char>)> {
    if key == "0"@ {
        Some((0x60u32, "Numpad0"@))
    } else if key == "1"@ {
        Some((0x61u32, "Numpad1"@))
    } else if key == "2"@ {
        Some((0x62u32, "Numpad2"@))
    } else if key == "3"@ {
        Some((0x63u32, "Numpad3"@))
    } else if key == "4"@ {
        Some((0x64u32, "Numpad4"@))
    } else if key == "5"@ {
        Some((0x65u32, "Numpad5"@))
    } else if key == "6"@ {
        Some((0x66u32, "Numpad6"@))
    } else if key == "7"@ {
        Some((0x67u32, "Numpad7"@))
    } else if key == "8"@ {
        Some((0x68u32, "Numpad8"@))
    } else if key == "9"@ {
        Some((0x69u32, "Numpad9"@))
    } else if key == "multiply"@ || key == "star"@ {
        Some((0x6Au32, "NumpadMultiply"@))
    } else if key == "add"@ || key == "plus"@ {
        Some((0x6Bu32, "NumpadAdd"@))
    } else if key == "separator"@ {
        Some((0x6Cu32, "NumpadSeparator"@))
    } else if key == "subtract"@ || key == "minus"@ {
        Some((0x6Du32, "NumpadSubtract"@))
    } else if key == "decimal"@ || key == "period"@ {
        Some((0x6Eu32, "NumpadDecimal"@))
    } else if key == "divide"@ || key == "slash"@ {
        Some((0x6Fu32, "NumpadDivide"@))
    } else {
        None
    }
}

/// The key of the numeric pad that a name such as `numpad5` means.
pub open spec fn numpad_key(value: Seq<char>) -> Option<(u32, Seq<char>)> {
    match numpad_suffix(value) {
        Some(key) => numpad_key_named(key),
        None => None,
    }
}

/// The key of the numeric pad that a name such as `numpad5` means.
pub fn parse_numpad_vk(value: &Vec<char>) -> (r: Option<(u32, &'static str)>)
    ensures
        key_view(r) == numpad_key(value@),
{
    let key = match rest_after(value, "numpad") {
        Some(rest) => rest,
        None => match rest_after(value, "num") {
            Some(rest) => rest,
            None => return None,
        },
    };
    if is_text(&key, "0") {
        Some((0x60, "Numpad0"))
    } else if is_text(&key, "1") {
        Some((0x61, "Numpad1"))
    } else if is_text(&key, "2") {
        Some((0x62, "Numpad2"))
    } else if is_text(&key, "3") {
        Some((0x63, "Numpad3"))
    } else if is_text(&key, "4") {
        Some((0x64, "Numpad4"))
    } else if is_text(&key, "5") {
        Some((0x65, "Numpad5"))
    } else if is_text(&key, "6") {
        Some((0x66, "Numpad6"))
    } else if is_text(&key, "7") {
        Some((0x67, "Numpad7"))
    } else if is_text(&key, "8") {
        Some((0x68, "Numpad8"))
    } else if is_text(&key, "9") {
        Some((0x69, "Numpad9"))
    } else if is_text(&key, "multiply") || is_text(&key, "star") {
        Some((0x6A, "NumpadMultiply"))
    } else if is_text(&key, "add") || is_text(&key, "plus") {
        Some((0x6B, "NumpadAdd"))
    } else if is_text(&key, "separator") {
        Some((0x6C, "NumpadSeparator"))
    } else if is_text(&key, "subtract") || is_text(&key, "minus") {
        Some((0x6D, "NumpadSubtract"))
    } else if is_text(&key, "decimal") || is_text(&key, "period") {
        Some((0x6E, "NumpadDecimal"))
    } else if is_text(&key, "divide") || is_text(&key, "slash") {
        Some((0x6F, "NumpadDivide"))
    } else {
        None
    }
}

/// The key that a lower-case name without separators means.
#[verifier::opaque]
pub open spec fn named_key(value: Seq<char>) -> Option<(u32, Seq<char>)> {
    if value == "space"@ || value == "spacebar"@ {
        Some((0x20u32, "Space"@))
    } else if value == "tab"@ || value == "backtab"@ {
        Some((0x09u32, "Tab"@))
    } else if value == "enter"@ || value == "return"@ {
        Some((0x0Du32, "Enter"@))
    } else if value == "esc"@ || value == "escape"@ {
        Some((0x1Bu32, "Esc"@))
    } else if value == "backspace"@ || value == "bksp"@ {
        Some((0x08u32, "Backspace"@))
    } else if value == "capslock"@ {
        Some((0x14u32, "CapsLock"@))
    } else if value == "pageup"@ || value == "pgup"@ {
        Some((0x21u32, "PageUp"@))
    } else if value == "pagedown"@ || value == "pgdn"@ {
        Some((0x22u32, "PageDown"@))
    } else if value == "end"@ {
        Some((0x23u32, "End"@))
    } else if value == "home"@ {
        Some((0x24u32, "Home"@))
    } else if value == "left"@ || value == "leftarrow"@ {
        Some((0x25u32, "Left"@))
    } else if value == "up"@ || value == "uparrow"@ {
        Some((0x26u32, "Up"@))
    } else if value == "right"@ || value == "rightarrow"@ {
        Some((0x27u32, "Right"@))
    } else if value == "down"@ || value == "downarrow"@ {
        Some((0x28u32, "Down"@))
    } else if value == "printscreen"@ || value == "prtsc"@ || value == "snapshot"@
        || value == "sysreq"@ {
        Some((0x2Cu32, "PrintScreen"@))
    } else if value == "insert"@ || value == "ins"@ {
        Some((0x2Du32, "Insert"@))
    } else if value == "delete"@ || value == "del"@ {
        Some((0x2Eu32, "Delete"@))
    } else if value == "apps"@ || value == "app"@ || value == "menu"@ || value == "contextmenu"@ {
        Some((0x5Du32, "Menu"@))
    } else if value == "sleep"@ {
        Some((0x5Fu32, "Sleep"@))
    } else if value == "numlock"@ {
        Some((0x90u32, "NumLock"@))
    } else if value == "scrolllock"@ {
        Some((0x91u32, "ScrollLock"@))
    } else if value == "browserback"@ || value == "back"@ {
        Some((0xA6u32, "BrowserBack"@))
    } else if value == "browserforward"@ || value == "forward"@ {
        Some((0xA7u32, "BrowserForward"@))
    } else if value == "browserrefresh"@ || value == "refresh"@ {
        Some((0xA8u32, "BrowserRefresh"@))
    } else if value == "browserstop"@ || value == "stop"@ {
        Some((0xA9u32, "BrowserStop"@))
    } else if value == "browsersearch"@ || value == "search"@ {
        Some((0xAAu32, "BrowserSearch"@))
    } else if value == "browserfavorites"@ || value == "favorites"@ {
        Some((0xABu32, "BrowserFavorites"@))
    } else if value == "browserhome"@ {
        Some((0xACu32, "BrowserHome"@))
    } else if value == "volumemute"@ || value == "mute"@ {
        Some((0xADu32, "VolumeMute"@))
    } else if value == "volumedown"@ {
        Some((0xAEu32, "VolumeDown"@))
    } else if value == "volumeup"@ {
        Some((0xAFu32, "VolumeUp"@))
    } else if value == "medianext"@ || value == "nexttrack"@ {
        Some((0xB0u32, "MediaNext"@))
    } else if value == "mediaprev"@ || value == "prevtrack"@ || value == "previoustrack"@ {
        Some((0xB1u32, "MediaPrev"@))
    } else if value == "mediastop"@ {
        Some((0xB2u32, "MediaStop"@))
    } else if value == "mediaplaypause"@ || value == "playpause"@ {
        Some((0xB3u32, "MediaPlayPause"@))
    } else if value == "launchmail"@ || value == "mail"@ {
        Some((0xB4u32, "LaunchMail"@))
    } else if value == "launchmedia"@ || value == "mediaselect"@ {
        Some((0xB5u32, "LaunchMedia"@))
    } else if value == "launchapp1"@ || value == "app1"@ {
        Some((0xB6u32, "LaunchApp1"@))
    } else if value == "launchapp2"@ || value == "app2"@ {
        Some((0xB7u32, "LaunchApp2"@))
    } else if value == "semicolon"@ || value == "colon"@ {
        Some((0xBAu32, "Semicolon"@))
    } else if value == "equals"@ || value == "equal"@ || value == "plus"@ {
        Some((0xBBu32, "Equals"@))
    } else if value == "comma"@ || value == "lessthan"@ {
        Some((0xBCu32, "Comma"@))
    } else if value == "hyphen"@ || value == "hyphenminus"@ || value == "minus"@
        || value == "underscore"@ {
        Some((0xBDu32, "Hyphen"@))
    } else if value == "period"@ || value == "greaterthan"@ {
        Some((0xBEu32, "Period"@))
    } else if value == "slash"@ || value == "questionmark"@ {
        Some((0xBFu32, "Slash"@))
    } else if value == "backquote"@ || value == "grave"@ || value == "tilde"@ {
        Some((0xC0u32, "BackQuote"@))
    } else if value == "openbracket"@ || value == "leftbracket"@ || value == "opencurlybracket"@ {
        Some((0xDBu32, "OpenBracket"@))
    } else if value == "backslash"@ || value == "pipe"@ {
        Some((0xDCu32, "Backslash"@))
    } else if value == "closebracket"@ || value == "rightbracket"@
        || value == "closecurlybracket"@ {
        Some((0xDDu32, "CloseBracket"@))
    } else if value == "quote"@ || value == "apostrophe"@ || value == "doublequote"@ {
        Some((0xDEu32, "Quote"@))
    } else {
        numpad_key(value)
    }
}

/// The key that a lower-case name without separators means.
pub fn named_vk(value: &Vec<char>) -> (r: Option<(u32, &'static str)>)
    ensures
        key_view(r) == named_key(value@),
{
    proof {
        reveal(named_key);
    }
    if is_text(value, "space") || is_text(value, "spacebar") {
        Some((0x20, "Space"))
    } else if is_text(value, "tab") || is_text(value, "backtab") {
        Some((0x09, "Tab"))
    } else if is_text(value, "enter") || is_text(value, "return") {
        Some((0x0D, "Enter"))
    } else if is_text(value, "esc") || is_text(value, "escape") {
        Some((0x1B, "Esc"))
    } else if is_text(value, "backspace") || is_text(value, "bksp") {
        Some((0x08, "Backspace"))
    } else if is_text(value, "capslock") {
        Some((0x14, "CapsLock"))
    } else if is_text(value, "pageup") || is_text(value, "pgup") {
        Some((0x21, "PageUp"))
    } else if is_text(value, "pagedown") || is_text(value, "pgdn") {
        Some((0x22, "PageDown"))
    } else if is_text(value, "end") {
        Some((0x23, "End"))
    } else if is_text(value, "home") {
        Some((0x24, "Home"))
    } else if is_text(value, "left") || is_text(value, "leftarrow") {
        Some((0x25, "Left"))
    } else if is_text(value, "up") || is_text(value, "uparrow") {
        Some((0x26, "Up"))
    } else if is_text(value, "right") || is_text(value, "rightarrow") {
        Some((0x27, "Right"))
    } else if is_text(value, "down") || is_text(value, "downarrow") {
        Some((0x28, "Down"))
    } else if is_text(value, "printscreen") || is_text(value, "prtsc")
        || is_text(value, "snapshot") || is_text(value, "sysreq") {
        Some((0x2C, "PrintScreen"))
    } else if is_text(value, "insert") || is_text(value, "ins") {
        Some((0x2D, "Insert"))
    } else if is_text(value, "delete") || is_text(value, "del") {
        Some((0x2E, "Delete"))
    } else if is_text(value, "apps") || is_text(value, "app") || is_text(value, "menu")
        || is_text(value, "contextmenu") {
        Some((0x5D, "Menu"))
    } else if is_text(value, "sleep") {
        Some((0x5F, "Sleep"))
    } else if is_text(value, "numlock") {
        Some((0x90, "NumLock"))
    } else if is_text(value, "scrolllock") {
        Some((0x91, "ScrollLock"))
    } else if is_text(value, "browserback") || is_text(value, "back") {
        Some((0xA6, "BrowserBack"))
    } else if is_text(value, "browserforward") || is_text(value, "forward") {
        Some((0xA7, "BrowserForward"))
    } else if is_text(value, "browserrefresh") || is_text(value, "refresh") {
        Some((0xA8, "BrowserRefresh"))
    } else if is_text(value, "browserstop") || is_text(value, "stop") {
        Some((0xA9, "BrowserStop"))
    } else if is_text(value, "browsersearch") || is_text(value, "search") {
        Some((0xAA, "BrowserSearch"))
    } else if is_text(value, "browserfavorites") || is_text(value, "favorites") {
        Some((0xAB, "BrowserFavorites"))
    } else if is_text(value, "browserhome") {
        Some((0xAC, "BrowserHome"))
    } else if is_text(value, "volumemute") || is_text(value, "mute") {
        Some((0xAD, "VolumeMute"))
    } else if is_text(value, "volumedown") {
        Some((0xAE, "VolumeDown"))
    } else if is_text(value, "volumeup") {
        Some((0xAF, "VolumeUp"))
    } else if is_text(value, "medianext") || is_text(value, "nexttrack") {
        Some((0xB0, "MediaNext"))
    } else if is_text(value, "mediaprev") || is_text(value, "prevtrack")
        || is_text(value, "previoustrack") {
        Some((0xB1, "MediaPrev"))
    } else if is_text(value, "mediastop") {
        Some((0xB2, "MediaStop"))
    } else if is_text(value, "mediaplaypause") || is_text(value, "playpause") {
        Some((0xB3, "MediaPlayPause"))
    } else if is_text(value, "launchmail") || is_text(value, "mail") {
        Some((0xB4, "LaunchMail"))
    } else if is_text(value, "launchmedia") || is_text(value, "mediaselect") {
        Some((0xB5, "LaunchMedia"))
    } else if is_text(value, "launchapp1") || is_text(value, "app1") {
        Some((0xB6, "LaunchApp1"))
    } else if is_text(value, "launchapp2") || is_text(value, "app2") {
        Some((0xB7, "LaunchApp2"))
    } else if is_text(value, "semicolon") || is_text(value, "colon") {
        Some((0xBA, "Semicolon"))
    } else if is_text(value, "equals") || is_text(value, "equal") || is_text(value, "plus") {
        Some((0xBB, "Equals"))
    } else if is_text(value, "comma") || is_text(value, "lessthan") {
        Some((0xBC, "Comma"))
    } else if is_text(value, "hyphen") || is_text(value, "hyphenminus")
        || is_text(value, "minus") || is_text(value, "underscore") {
        Some((0xBD, "Hyphen"))
    } else if is_text(value, "period") || is_text(value, "greaterthan") {
        Some((0xBE, "Period"))
    } else if is_text(value, "slash") || is_text(value, "questionmark") {
        Some((0xBF, "Slash"))
    } else if is_text(value, "backquote") || is_text(value, "grave") || is_text(value, "tilde") {
        Some((0xC0, "BackQuote"))
    } else if is_text(value, "openbracket") || is_text(value, "leftbracket")
        || is_text(value, "opencurlybracket") {
        Some((0xDB, "OpenBracket"))
    } else if is_text(value, "backslash") || is_text(value, "pipe") {
        Some((0xDC, "Backslash"))
    } else if is_text(value, "closebracket") || is_text(value, "rightbracket")
        || is_text(value, "closecurlybracket") {
        Some((0xDD, "CloseBracket"))
    } else if is_text(value, "quote") || is_text(value, "apostrophe")
        || is_text(value, "doublequote") {
        Some((0xDE, "Quote"))
    } else {
        parse_numpad_vk(value)
    }
}

/// A character that key names may be spaced with.
pub open spec fn is_separator(c: char) -> bool {
    c == ' ' || c == '_' || c == '-'
}

/// A key name without spaces, underscores and hyphens.
pub open spec fn compacted(value: Seq<char>) -> Seq<char> {
    value.filter(|c: char| !is_separator(c))
}

/// A key name without spaces, underscores and hyphens.
pub fn compact_key_name(value: &Vec<char>) -> (r: Vec<char>)
    ensures
        r@ == compacted(value@),
{
    let mut out: Vec<char> = Vec::new();
    let mut i: usize = 0;
    assert(value@.take(0) =~= Seq::<char>::empty());
    proof {
        reveal_with_fuel(Seq::filter, 1);
    }
    while i < value.len()
        invariant
            i <= value@.len(),
            out@ == compacted(value@.take(i as int)),
        decreases value@.len() - i,
    {
        let c = value[i];
        proof {
            reveal_with_fuel(Seq::filter, 1);
            assert(value@.take(i + 1).drop_last() =~= value@.take(i as int));
        }
        if c != ' ' && c != '_' && c != '-' {
            out.push(c);
        }
        i = i + 1;
    }
    assert(value@.take(i as int) =~= value@);
    out
}

/// What follows `vk_`, `vk:` or `vk`.
pub open spec fn raw_suffix(value: Seq<char>) -> Option<Seq<char>> {
    match text::after_prefix(value, "vk_"@) {
        Some(rest) => Some(rest),
        None => match text::after_prefix(value, "vk:"@) {
            Some(rest) => Some(rest),
            None => text::after_prefix(value, "vk"@),
        },
    }
}

/// The digits of a raw code, without the underscores and colons before them.
pub open spec fn raw_digits(raw: Seq<char>) -> Seq<char> {
    text::strip_front(text::strip_front(text::trimmed(raw), Strip::Only('_')), Strip::Only(':'))
}

/// The number that the digits of a raw code write, hexadecimal behind `0x`.
pub open spec fn raw_number(digits: Seq<char>) -> Option<int> {
    match text::after_prefix(digits, "0x"@) {
        Some(hex) => number::unsigned_value(hex, 16, u32::MAX as int),
        None => number::unsigned_value(digits, 10, u32::MAX as int),
    }
}

/// The label of a raw virtual-key code.
pub open spec fn raw_label(vk: int) -> Seq<char> {
    "VK_0x"@ + number::upper_hex_byte(vk)
}

/// The raw virtual-key code that a text such as `vk242` or `vk_0xf2` means.
pub open spec fn raw_key(value: Seq<char>) -> Option<(u32, Seq<char>)> {
    match raw_suffix(text::lowered(text::trimmed(value))) {
        Some(raw) => match raw_number(raw_digits(raw)) {
            Some(vk) if 1 <= vk <= 0xFE => Some((vk as u32, raw_label(vk))),
            _ => None,
        },
        None => None,
    }
}

/// The raw virtual-key code that a text such as `vk242` or `vk_0xf2` means.
pub fn parse_raw_vk(value: &Vec<char>) -> (r: Option<(u32, String)>)
    ensures
        owned_key_view(r) == raw_key(value@),
{
    let normalized = lower_chars(&strip_chars(value, Strip::White));
    let raw = match rest_after(&normalized, "vk_") {
        Some(rest) => rest,
        None => match rest_after(&normalized, "vk:") {
            Some(rest) => rest,
            None => match rest_after(&normalized, "vk") {
                Some(rest) => rest,
                None => return None,
            },
        },
    };
    let digits = strip_front_chars(
        &strip_front_chars(&strip_chars(&raw, Strip::White), Strip::Only('_')),
        Strip::Only(':'),
    );
    let number = match rest_after(&digits, "0x") {
        Some(hex) => parse_unsigned_chars(&hex, 16, 0xffff_ffff),
        None => parse_unsigned_chars(&digits, 10, 0xffff_ffff),
    };
    match number {
        Some(vk) => {
            if 1 <= vk && vk <= 0xFE {
                let mut label = "VK_0x".to_owned();
                push_upper_hex(&mut label, vk as u8);
                Some((vk as u32, label))
            } else {
                None
            }
        },
        None => None,
    }
}

/// The function key that a name such as `f5` means.
pub open spec fn function_key(compact: Seq<char>) -> Option<(u32, Seq<char>)> {
    if compact.len() > 0 && compact[0] == 'f' {
        match number::unsigned_value(compact.drop_first(), 10, u32::MAX as int) {
            Some(number) if 1 <= number <= 24 => Some(
                ((VK_F1 + number - 1) as u32, seq!['F'] + number::decimal(number as nat)),
            ),
            _ => None,
        }
    } else {
        None
    }
}

fn parse_function_key(compact: &Vec<char>) -> (r: Option<(u32, String)>)
    ensures
        owned_key_view(r) == function_key(compact@),
{
    if compact.len() > 0 && compact[0] == 'f' {
        let digits = crate::text::sub_chars(compact, 1, compact.len());
        assert(digits@ =~= compact@.drop_first());
        match parse_unsigned_chars(&digits, 10, 0xffff_ffff) {
            Some(number) => {
                if 1 <= number && number <= 24 {
                    let mut label = String::new();
                    label.push('F');
                    push_decimal(&mut label, number);
                    assert(label@ =~= seq!['F'] + number::decimal(number as nat));
                    Some((VK_F1 + (number as u32) - 1, label))
                } else {
                    None
                }
            },
            None => None,
        }
    } else {
        None
    }
}

/// The key of a single letter, digit or punctuation character.
pub open spec fn character_key(value: Seq<char>) -> Option<(u32, Seq<char>)> {
    if value.len() != 1 {
        None
    } else if text::is_alphanumeric(value[0]) {
        Some((text::upper_char(value[0]) as u32, seq![text::upper_char(value[0])]))
    } else {
        punctuation_key(value[0])
    }
}

/// The code and the label of the key that a lower-case part means: a raw
/// code, else a function key, else a named key, else a single character.
pub open spec fn key_named(value: Seq<char>) -> Option<(u32, Seq<char>)> {
    match raw_key(value) {
        Some(key) => Some(key),
        None => match function_key(compacted(value)) {
            Some(key) => Some(key),
            None => match named_key(compacted(value)) {
                Some(key) => Some(key),
                None => character_key(value),
            },
        },
    }
}

/// The code and the label of the key that a lower-case part means.
pub fn parse_key(value: &Vec<char>) -> (r: Option<(u32, String)>)
    ensures
        owned_key_view(r) == key_named(value@),
{
    if let Some(raw) = parse_raw_vk(value) {
        return Some(raw);
    }
    let compact = compact_key_name(value);
    if let Some(key) = parse_function_key(&compact) {
        return Some(key);
    }
    if let Some((vk, label)) = named_vk(&compact) {
        return Some((vk, label.to_owned()));
    }
    if value.len() != 1 {
        return None;
    }
    let ch = value[0];
    if crate::text::is_ascii_alphanumeric(ch) {
        let upper = to_upper_char(ch);
        let mut label = String::new();
        label.push(upper);
        assert(label@ =~= seq![upper]);
        return Some((upper as u32, label));
    }
    match punctuation_vk(ch) {
        Some((vk, label)) => Some((vk, label.to_owned())),
        None => None,
    }
}

// ---------------------------------------------------------------------------
// Hotkeys
// ---------------------------------------------------------------------------

/// The parts of a hotkey text: what stands between the plus signs, trimmed,
/// without the empty ones.
pub open spec fn hotkey_parts(spec: Seq<char>) -> Seq<Seq<char>> {
    text::split_on(spec, '+').map_values(|part: Seq<char>| text::trimmed(part)).filter(
        |part: Seq<char>| part.len() > 0,
    )
}

pub open spec fn is_modifier(part: Seq<char>) -> bool {
    modifier_named(text::lowered(part)) is Some
}

/// The parts that name a modifier, in order.
pub open spec fn modifier_parts(parts: Seq<Seq<char>>) -> Seq<Seq<char>> {
    parts.filter(|part: Seq<char>| is_modifier(part))
}

/// The parts that name no modifier, in order.
pub open spec fn key_parts(parts: Seq<Seq<char>>) -> Seq<Seq<char>> {
    parts.filter(|part: Seq<char>| !is_modifier(part))
}

/// Some part names the modifier.
pub open spec fn has_modifier(parts: Seq<Seq<char>>, modifier: Modifier) -> bool {
    exists|i: int|
        0 <= i < parts.len() && modifier_named(text::lowered(#[trigger] parts[i])) == Some(modifier)
}

/// The flags of the modifiers that the parts name.
pub open spec fn modifier_flags(parts: Seq<Seq<char>>) -> u32 {
    ((if has_modifier(parts, Modifier::Alt) {
        MOD_ALT as int
    } else {
        0
    }) + (if has_modifier(parts, Modifier::Ctrl) {
        MOD_CONTROL as int
    } else {
        0
    }) + (if has_modifier(parts, Modifier::Shift) {
        MOD_SHIFT as int
    } else {
        0
    }) + (if has_modifier(parts, Modifier::Win) {
        MOD_WIN as int
    } else {
        0
    })) as u32
}

/// The label of each modifier part, in order.
pub open spec fn modifier_labels(parts: Seq<Seq<char>>) -> Seq<Seq<char>> {
    modifier_parts(parts).map_values(
        |part: Seq<char>| modifier_named(text::lowered(part))->0.label(),
    )
}

/// The hotkey that a list of parts means.
pub open spec fn hotkey_of_parts(parts: Seq<Seq<char>>) -> Result<HotkeyView, HotkeyFault> {
    let keys = key_parts(parts);
    if keys.len() == 0 {
        Err(HotkeyFault::MissingKey)
    } else {
        match key_named(text::lowered(keys[0])) {
            None => Err(HotkeyFault::UnknownKey(keys[0])),
            Some((vk, label)) => if keys.len() > 1 {
                Err(HotkeyFault::SecondKey)
            } else {
                Ok(
                    HotkeyView {
                        modifiers: modifier_flags(parts),
                        vk,
                        label: text::joined(modifier_labels(parts).push(label), "+"@),
                    },
                )
            },
        }
    }
}

/// The hotkey that a text means.
pub open spec fn hotkey_of(spec: Seq<char>) -> Result<HotkeyView, HotkeyFault> {
    hotkey_of_parts(hotkey_parts(spec))
}

/// What a parse returned, its texts as characters.
pub open spec fn hotkey_result(r: Result<ParsedHotkey, HotkeyError>) -> Result<
    HotkeyView,
    HotkeyFault,
> {
    match r {
        Ok(hotkey) => Ok(hotkey@),
        Err(error) => Err(error@),
    }
}

/// The trimmed parts of the text that are not empty.
fn parts_of(spec: &str) -> (r: Vec<Vec<char>>)
    ensures
        text::pieces(r@) == hotkey_parts(spec@),
{
    let raw = split_text(spec, '+');
    let mut out: Vec<Vec<char>> = Vec::new();
    let mut i: usize = 0;
    let ghost all = text::split_on(spec@, '+').map_values(|part: Seq<char>| text::trimmed(part));
    let ghost keep = |part: Seq<char>| part.len() > 0;
    proof {
        reveal_with_fuel(Seq::filter, 1);
        assert(all.take(0) =~= Seq::<Seq<char>>::empty());
        assert(text::pieces(out@) =~= all.take(0).filter(keep));
    }
    while i < raw.len()
        invariant
            i <= raw@.len(),
            text::pieces(raw@) == text::split_on(spec@, '+'),
            all == text::split_on(spec@, '+').map_values(|part: Seq<char>| text::trimmed(part)),
            keep == (|part: Seq<char>| part.len() > 0),
            text::pieces(out@) == all.take(i as int).filter(keep),
        decreases raw@.len() - i,
    {
        let part = strip_chars(&raw[i], Strip::White);
        proof {
            reveal_with_fuel(Seq::filter, 1);
            assert(text::pieces(raw@)[i as int] == raw@[i as int]@);
            assert(all[i as int] == part@);
            assert(all.take(i + 1).drop_last() =~= all.take(i as int));
        }
        if part.len() > 0 {
            let ghost before = text::pieces(out@);
            let ghost piece = part@;
            out.push(part);
            assert(text::pieces(out@) =~= before.push(piece));
        }
        i = i + 1;
    }
    assert(all.take(i as int) =~= all);
    out
}

proof fn lemma_has_modifier_push(parts: Seq<Seq<char>>, part: Seq<char>, modifier: Modifier)
    ensures
        has_modifier(parts.push(part), modifier) == (has_modifier(parts, modifier)
            || modifier_named(text::lowered(part)) == Some(modifier)),
{
    let more = parts.push(part);
    assert(more[parts.len() as int] == part);
    if has_modifier(parts, modifier) {
        let i = choose|i: int|
            0 <= i < parts.len() && modifier_named(text::lowered(#[trigger] parts[i]))
                == Some(modifier);
        assert(more[i] == parts[i]);
    }
    if has_modifier(more, modifier) {
        let i = choose|i: int|
            0 <= i < more.len() && modifier_named(text::lowered(#[trigger] more[i]))
                == Some(modifier);
        if i < parts.len() {
            assert(parts[i] == more[i]);
        }
    }
}

/// The first key part stays the first one, and a second one stays.
proof fn lemma_key_parts_take(parts: Seq<Seq<char>>, k: int)
    requires
        0 <= k <= parts.len(),
    ensures
        key_parts(parts.take(k)).len() <= key_parts(parts).len(),
        key_parts(parts.take(k)).len() > 0 ==> key_parts(parts)[0] == key_parts(parts.take(k))[0],
{
    let pred = |part: Seq<char>| !is_modifier(part);
    assert(parts =~= parts.take(k) + parts.skip(k));
    Seq::filter_distributes_over_add(parts.take(k), parts.skip(k), pred);
}

/// Reads a hotkey.
pub fn parse_hotkey(spec: &str) -> (r: Result<ParsedHotkey, HotkeyError>)
    ensures
        hotkey_result(r) == hotkey_of(spec@),
{
    let parts = parts_of(spec);
    let ghost all = text::pieces(parts@);
    let mut alt = false;
    let mut ctrl = false;
    let mut shift = false;
    let mut win = false;
    let mut key: Option<(u32, String)> = None;
    let mut labels: Vec<String> = Vec::new();
    let mut i: usize = 0;
    proof {
        reveal_with_fuel(Seq::filter, 1);
        assert(all.take(0) =~= Seq::<Seq<char>>::empty());
        assert(text::views(labels@) =~= modifier_labels(all.take(0)));
    }
    while i < parts.len()
        invariant
            i <= parts@.len(),
            all == text::pieces(parts@),
            all == hotkey_parts(spec@),
            alt == has_modifier(all.take(i as int), Modifier::Alt),
            ctrl == has_modifier(all.take(i as int), Modifier::Ctrl),
            shift == has_modifier(all.take(i as int), Modifier::Shift),
            win == has_modifier(all.take(i as int), Modifier::Win),
            text::views(labels@) == modifier_labels(all.take(i as int)),
            key_parts(all.take(i as int)).len() == if key is Some {
                1nat
            } else {
                0
            },
            key is Some ==> owned_key_view(key) == key_named(
                text::lowered(key_parts(all.take(i as int))[0]),
            ),
        decreases parts@.len() - i,
    {
        let lower = lower_chars(&parts[i]);
        let ghost part = parts@[i as int]@;
        let ghost before = all.take(i as int);
        let ghost now = all.take(i + 1);
        proof {
            reveal_with_fuel(Seq::filter, 1);
            assert(all[i as int] == part);
            assert(now =~= before.push(part));
            assert(now.drop_last() =~= before);
            lemma_has_modifier_push(before, part, Modifier::Alt);
            lemma_has_modifier_push(before, part, Modifier::Ctrl);
            lemma_has_modifier_push(before, part, Modifier::Shift);
            lemma_has_modifier_push(before, part, Modifier::Win);
            lemma_key_parts_take(all, i + 1);
        }
        match find_modifier(&lower) {
            Some(modifier) => {
                match modifier {
                    Modifier::Alt => {
                        alt = true;
                    },
                    Modifier::Ctrl => {
                        ctrl = true;
                    },
                    Modifier::Shift => {
                        shift = true;
                    },
                    Modifier::Win => {
                        win = true;
                    },
                }
                let name = modifier.name().to_owned();
                let ghost done = text::views(labels@);
                let ghost label = name@;
                labels.push(name);
                proof {
                    assert(modifier_parts(now) == modifier_parts(before).push(part));
                    assert(text::views(labels@) =~= done.push(label));
                    assert(modifier_labels(now) =~= modifier_labels(before).push(label));
                    assert(key_parts(now) == key_parts(before));
                }
            },
            None => {
                proof {
                    assert(key_parts(now) == key_parts(before).push(part));
                    assert(modifier_parts(now) == modifier_parts(before));
                }
                if key.is_some() {
                    return Err(HotkeyError::SecondKey);
                }
                match parse_key(&lower) {
                    Some(found) => {
                        key = Some(found);
                    },
                    None => {
                        let name = text_of(&parts[i], 0, parts[i].len());
                        assert(name@ =~= part);
                        return Err(HotkeyError::UnknownKey(name));
                    },
                }
            },
        }
        i = i + 1;
    }
    assert(all.take(i as int) =~= all);
    match key {
        None => Err(HotkeyError::MissingKey),
        Some((vk, key_label)) => {
            let modifiers: u32 = (if alt {
                MOD_ALT
            } else {
                0
            }) + (if ctrl {
                MOD_CONTROL
            } else {
                0
            }) + (if shift {
                MOD_SHIFT
            } else {
                0
            }) + (if win {
                MOD_WIN
            } else {
                0
            });
            let ghost done = text::views(labels@);
            let ghost last = key_label@;
            labels.push(key_label);
            assert(text::views(labels@) =~= done.push(last));
            Ok(ParsedHotkey { modifiers, vk, label: join(&labels, "+") })
        },
    }
}

} // verus!
