//! What holds of hotkeys: the label of a hotkey is a text of the same hotkey,
//! and what was recorded is read as it was recorded.

use crate::hotkey;
use crate::hotkey::{HotkeyFault, HotkeyView, Modifier};
use crate::number;
use crate::recorder;
use crate::text;
use crate::text::Strip;
use vstd::prelude::*;

verus! {

// ---------------------------------------------------------------------------
// Labels of keys
// ---------------------------------------------------------------------------

/// The label of a key that names this key, and nothing else, in a hotkey.
#[verifier::opaque]
pub open spec fn is_key_label(label: Seq<char>, vk: u32) -> bool {
    &&& hotkey::key_named(text::lowered(label)) == Some((vk, label))
    &&& !hotkey::is_modifier(label)
    &&& label.len() > 0
    &&& text::trimmed(label) == label
    &&& !label.contains('+')
}

/// A key was found, and its label is a label of the key.
pub open spec fn has_label(found: Option<(u32, Seq<char>)>) -> bool {
    match found {
        Some((vk, label)) => is_key_label(label, vk),
        None => false,
    }
}

/// The small letters of a label of the table of the names are a name of its key.
pub open spec fn names_itself(label: Seq<char>, vk: u32) -> bool {
    hotkey::named_key(text::lowered(label)) == Some((vk, label)) && is_key_label(label, vk)
}

/// A label of the table, its name in small letters, and its code.
spec fn is_row(label: Seq<char>, name: Seq<char>, vk: u32) -> bool {
    text::lowered(label) == name && names_itself(label, vk)
}

/// A small letter or a digit.
spec fn is_plain(c: char) -> bool {
    'a' <= c <= 'z' || '0' <= c <= '9'
}

spec fn all_plain(s: Seq<char>) -> bool {
    forall|i: int| 0 <= i < s.len() ==> is_plain(#[trigger] s[i])
}

/// What has no white space at its ends is left as it is.
proof fn lemma_trimmed_same(s: Seq<char>)
    requires
        s.len() > 0 ==> !text::is_white(s[0]) && !text::is_white(s.last()),
    ensures
        text::trimmed(s) == s,
{
    assert(text::strip_front(s, Strip::White) == s);
    assert(text::strip_back(s, Strip::White) == s);
}

proof fn lemma_filter_all(s: Seq<char>, p: spec_fn(char) -> bool)
    requires
        forall|i: int| 0 <= i < s.len() ==> p(#[trigger] s[i]),
    ensures
        s.filter(p) == s,
    decreases s.len(),
{
    reveal(Seq::filter);
    if s.len() > 0 {
        lemma_filter_all(s.drop_last(), p);
        assert(s.drop_last().push(s.last()) =~= s);
    }
}

/// A name of small letters and digits that does not begin as a raw code is
/// looked up as it is.
proof fn lemma_plain_name(name: Seq<char>)
    requires
        name.len() > 0,
        all_plain(name),
        name.len() > 1 ==> !(name[0] == 'v' && name[1] == 'k'),
    ensures
        hotkey::raw_key(name) is None,
        hotkey::compacted(name) == name,
        text::trimmed(name) == name,
        text::lowered(name) == name,
{
    reveal_strlit("vk_");
    reveal_strlit("vk:");
    reveal_strlit("vk");
    assert(is_plain(name[0]) && is_plain(name.last()));
    lemma_trimmed_same(name);
    assert(text::lowered(name) =~= name);
    if "vk"@.is_prefix_of(name) {
        assert(name[0] == name.subrange(0, 2)[0]);
        assert(name[1] == name.subrange(0, 2)[1]);
    }
    if "vk_"@.is_prefix_of(name) {
        assert(name[0] == name.subrange(0, 3)[0]);
        assert(name[1] == name.subrange(0, 3)[1]);
    }
    if "vk:"@.is_prefix_of(name) {
        assert(name[0] == name.subrange(0, 3)[0]);
        assert(name[1] == name.subrange(0, 3)[1]);
    }
    lemma_filter_all(name, |c: char| !hotkey::is_separator(c));
}

/// A label whose small letters are in the table of the names is a label.
proof fn lemma_named_label(label: Seq<char>, name: Seq<char>, vk: u32)
    requires
        name.len() > 1,
        all_plain(name),
        name[0] != 'f',
        !(name[0] == 'v' && name[1] == 'k'),
        text::lowered(label) == name,
        hotkey::named_key(name) == Some((vk, label)),
        hotkey::modifier_named(name) is None,
    ensures
        names_itself(label, vk),
{
    reveal(is_key_label);
    lemma_plain_name(name);
    assert forall|i: int| 0 <= i < label.len() implies #[trigger] label[i] != '+'
        && !text::is_white(label[i]) by {
        assert(name[i] == text::lower_char(label[i]));
        assert(is_plain(name[i]));
    }
    lemma_trimmed_same(label);
}

/// A name has the given length, first letter, and last two letters. No two
/// names of the tables agree in all of these.
spec fn spelled(s: Seq<char>, len: nat, first: char, last_but_one: char, last: char) -> bool {
    &&& s.len() == len
    &&& s[0] == first
    &&& s[len - 2] == last_but_one
    &&& s[len - 1] == last
}

proof fn lemma_modifiers()
    ensures
        spelled("ctrl"@, 4, 'c', 'r', 'l'),
        spelled("control"@, 7, 'c', 'o', 'l'),
        spelled("shift"@, 5, 's', 'f', 't'),
        spelled("alt"@, 3, 'a', 'l', 't'),
        spelled("win"@, 3, 'w', 'i', 'n'),
        spelled("windows"@, 7, 'w', 'w', 's'),
        spelled("meta"@, 4, 'm', 't', 'a'),
        spelled("super"@, 5, 's', 'e', 'r'),
{
    reveal_strlit("ctrl");
    reveal_strlit("control");
    reveal_strlit("shift");
    reveal_strlit("alt");
    reveal_strlit("win");
    reveal_strlit("windows");
    reveal_strlit("meta");
    reveal_strlit("super");
}

/// How the names of the table are spelled.
proof fn lemma_names()
    ensures
        spelled("space"@, 5, 's', 'c', 'e'),
        spelled("spacebar"@, 8, 's', 'a', 'r'),
        spelled("tab"@, 3, 't', 'a', 'b'),
        spelled("backtab"@, 7, 'b', 'a', 'b'),
        spelled("enter"@, 5, 'e', 'e', 'r'),
        spelled("return"@, 6, 'r', 'r', 'n'),
        spelled("esc"@, 3, 'e', 's', 'c'),
        spelled("escape"@, 6, 'e', 'p', 'e'),
        spelled("backspace"@, 9, 'b', 'c', 'e'),
        spelled("bksp"@, 4, 'b', 's', 'p'),
        spelled("capslock"@, 8, 'c', 'c', 'k'),
        spelled("pageup"@, 6, 'p', 'u', 'p'),
        spelled("pgup"@, 4, 'p', 'u', 'p'),
        spelled("pagedown"@, 8, 'p', 'w', 'n'),
        spelled("pgdn"@, 4, 'p', 'd', 'n'),
        spelled("end"@, 3, 'e', 'n', 'd'),
        spelled("home"@, 4, 'h', 'm', 'e'),
        spelled("left"@, 4, 'l', 'f', 't'),
        spelled("leftarrow"@, 9, 'l', 'o', 'w'),
        spelled("up"@, 2, 'u', 'u', 'p'),
        spelled("uparrow"@, 7, 'u', 'o', 'w'),
        spelled("right"@, 5, 'r', 'h', 't'),
        spelled("rightarrow"@, 10, 'r', 'o', 'w'),
        spelled("down"@, 4, 'd', 'w', 'n'),
        spelled("downarrow"@, 9, 'd', 'o', 'w'),
        spelled("printscreen"@, 11, 'p', 'e', 'n'),
        spelled("prtsc"@, 5, 'p', 's', 'c'),
        spelled("snapshot"@, 8, 's', 'o', 't'),
        spelled("sysreq"@, 6, 's', 'e', 'q'),
        spelled("insert"@, 6, 'i', 'r', 't'),
        spelled("ins"@, 3, 'i', 'n', 's'),
        spelled("delete"@, 6, 'd', 't', 'e'),
        spelled("del"@, 3, 'd', 'e', 'l'),
        spelled("apps"@, 4, 'a', 'p', 's'),
        spelled("app"@, 3, 'a', 'p', 'p'),
        spelled("menu"@, 4, 'm', 'n', 'u'),
        spelled("contextmenu"@, 11, 'c', 'n', 'u'),
        spelled("sleep"@, 5, 's', 'e', 'p'),
        spelled("numlock"@, 7, 'n', 'c', 'k'),
        spelled("scrolllock"@, 10, 's', 'c', 'k'),
        spelled("browserback"@, 11, 'b', 'c', 'k'),
        spelled("back"@, 4, 'b', 'c', 'k'),
        spelled("browserforward"@, 14, 'b', 'r', 'd'),
        spelled("forward"@, 7, 'f', 'r', 'd'),
        spelled("browserrefresh"@, 14, 'b', 's', 'h'),
        spelled("refresh"@, 7, 'r', 's', 'h'),
        spelled("browserstop"@, 11, 'b', 'o', 'p'),
        spelled("stop"@, 4, 's', 'o', 'p'),
        spelled("browsersearch"@, 13, 'b', 'c', 'h'),
        spelled("search"@, 6, 's', 'c', 'h'),
        spelled("browserfavorites"@, 16, 'b', 'e', 's'),
        spelled("favorites"@, 9, 'f', 'e', 's'),
        spelled("browserhome"@, 11, 'b', 'm', 'e'),
        spelled("volumemute"@, 10, 'v', 't', 'e'),
        spelled("mute"@, 4, 'm', 't', 'e'),
        spelled("volumedown"@, 10, 'v', 'w', 'n'),
        spelled("volumeup"@, 8, 'v', 'u', 'p'),
        spelled("medianext"@, 9, 'm', 'x', 't'),
        spelled("nexttrack"@, 9, 'n', 'c', 'k'),
        spelled("mediaprev"@, 9, 'm', 'e', 'v'),
        spelled("prevtrack"@, 9, 'p', 'c', 'k'),
        spelled("previoustrack"@, 13, 'p', 'c', 'k'),
        spelled("mediastop"@, 9, 'm', 'o', 'p'),
        spelled("mediaplaypause"@, 14, 'm', 's', 'e'),
        spelled("playpause"@, 9, 'p', 's', 'e'),
        spelled("launchmail"@, 10, 'l', 'i', 'l'),
        spelled("mail"@, 4, 'm', 'i', 'l'),
        spelled("launchmedia"@, 11, 'l', 'i', 'a'),
        spelled("mediaselect"@, 11, 'm', 'c', 't'),
        spelled("launchapp1"@, 10, 'l', 'p', '1'),
        spelled("app1"@, 4, 'a', 'p', '1'),
        spelled("launchapp2"@, 10, 'l', 'p', '2'),
        spelled("app2"@, 4, 'a', 'p', '2'),
        spelled("semicolon"@, 9, 's', 'o', 'n'),
        spelled("colon"@, 5, 'c', 'o', 'n'),
        spelled("equals"@, 6, 'e', 'l', 's'),
        spelled("equal"@, 5, 'e', 'a', 'l'),
        spelled("plus"@, 4, 'p', 'u', 's'),
        spelled("comma"@, 5, 'c', 'm', 'a'),
        spelled("lessthan"@, 8, 'l', 'a', 'n'),
        spelled("hyphen"@, 6, 'h', 'e', 'n'),
        spelled("hyphenminus"@, 11, 'h', 'u', 's'),
        spelled("minus"@, 5, 'm', 'u', 's'),
        spelled("underscore"@, 10, 'u', 'r', 'e'),
        spelled("period"@, 6, 'p', 'o', 'd'),
        spelled("greaterthan"@, 11, 'g', 'a', 'n'),
        spelled("slash"@, 5, 's', 's', 'h'),
        spelled("questionmark"@, 12, 'q', 'r', 'k'),
        spelled("backquote"@, 9, 'b', 't', 'e'),
        spelled("grave"@, 5, 'g', 'v', 'e'),
        spelled("tilde"@, 5, 't', 'd', 'e'),
        spelled("openbracket"@, 11, 'o', 'e', 't'),
        spelled("leftbracket"@, 11, 'l', 'e', 't'),
        spelled("opencurlybracket"@, 16, 'o', 'e', 't'),
        spelled("backslash"@, 9, 'b', 's', 'h'),
        spelled("pipe"@, 4, 'p', 'p', 'e'),
        spelled("closebracket"@, 12, 'c', 'e', 't'),
        spelled("rightbracket"@, 12, 'r', 'e', 't'),
        spelled("closecurlybracket"@, 17, 'c', 'e', 't'),
        spelled("quote"@, 5, 'q', 't', 'e'),
        spelled("apostrophe"@, 10, 'a', 'h', 'e'),
        spelled("doublequote"@, 11, 'd', 't', 'e'),
{
    reveal_strlit("space");
    reveal_strlit("spacebar");
    reveal_strlit("tab");
    reveal_strlit("backtab");
    reveal_strlit("enter");
    reveal_strlit("return");
    reveal_strlit("esc");
    reveal_strlit("escape");
    reveal_strlit("backspace");
    reveal_strlit("bksp");
    reveal_strlit("capslock");
    reveal_strlit("pageup");
    reveal_strlit("pgup");
    reveal_strlit("pagedown");
    reveal_strlit("pgdn");
    reveal_strlit("end");
    reveal_strlit("home");
    reveal_strlit("left");
    reveal_strlit("leftarrow");
    reveal_strlit("up");
    reveal_strlit("uparrow");
    reveal_strlit("right");
    reveal_strlit("rightarrow");
    reveal_strlit("down");
    reveal_strlit("downarrow");
    reveal_strlit("printscreen");
    reveal_strlit("prtsc");
    reveal_strlit("snapshot");
    reveal_strlit("sysreq");
    reveal_strlit("insert");
    reveal_strlit("ins");
    reveal_strlit("delete");
    reveal_strlit("del");
    reveal_strlit("apps");
    reveal_strlit("app");
    reveal_strlit("menu");
    reveal_strlit("contextmenu");
    reveal_strlit("sleep");
    reveal_strlit("numlock");
    reveal_strlit("scrolllock");
    reveal_strlit("browserback");
    reveal_strlit("back");
    reveal_strlit("browserforward");
    reveal_strlit("forward");
    reveal_strlit("browserrefresh");
    reveal_strlit("refresh");
    reveal_strlit("browserstop");
    reveal_strlit("stop");
    reveal_strlit("browsersearch");
    reveal_strlit("search");
    reveal_strlit("browserfavorites");
    reveal_strlit("favorites");
    reveal_strlit("browserhome");
    reveal_strlit("volumemute");
    reveal_strlit("mute");
    reveal_strlit("volumedown");
    reveal_strlit("volumeup");
    reveal_strlit("medianext");
    reveal_strlit("nexttrack");
    reveal_strlit("mediaprev");
    reveal_strlit("prevtrack");
    reveal_strlit("previoustrack");
    reveal_strlit("mediastop");
    reveal_strlit("mediaplaypause");
    reveal_strlit("playpause");
    reveal_strlit("launchmail");
    reveal_strlit("mail");
    reveal_strlit("launchmedia");
    reveal_strlit("mediaselect");
    reveal_strlit("launchapp1");
    reveal_strlit("app1");
    reveal_strlit("launchapp2");
    reveal_strlit("app2");
    reveal_strlit("semicolon");
    reveal_strlit("colon");
    reveal_strlit("equals");
    reveal_strlit("equal");
    reveal_strlit("plus");
    reveal_strlit("comma");
    reveal_strlit("lessthan");
    reveal_strlit("hyphen");
    reveal_strlit("hyphenminus");
    reveal_strlit("minus");
    reveal_strlit("underscore");
    reveal_strlit("period");
    reveal_strlit("greaterthan");
    reveal_strlit("slash");
    reveal_strlit("questionmark");
    reveal_strlit("backquote");
    reveal_strlit("grave");
    reveal_strlit("tilde");
    reveal_strlit("openbracket");
    reveal_strlit("leftbracket");
    reveal_strlit("opencurlybracket");
    reveal_strlit("backslash");
    reveal_strlit("pipe");
    reveal_strlit("closebracket");
    reveal_strlit("rightbracket");
    reveal_strlit("closecurlybracket");
    reveal_strlit("quote");
    reveal_strlit("apostrophe");
    reveal_strlit("doublequote");
}

proof fn lemma_labels_1()
    ensures
        is_row("Space"@, "space"@, 0x20),
        is_row("Tab"@, "tab"@, 0x09),
        is_row("Enter"@, "enter"@, 0x0D),
        is_row("Esc"@, "esc"@, 0x1B),
        is_row("Backspace"@, "backspace"@, 0x08),
        is_row("CapsLock"@, "capslock"@, 0x14),
        is_row("PageUp"@, "pageup"@, 0x21),
        is_row("PageDown"@, "pagedown"@, 0x22),
        is_row("End"@, "end"@, 0x23),
        is_row("Home"@, "home"@, 0x24),
{
    reveal(hotkey::named_key);
    lemma_modifiers();
    lemma_names();
    reveal_strlit("Space");
    reveal_strlit("space");
    reveal_strlit("Tab");
    reveal_strlit("tab");
    reveal_strlit("Enter");
    reveal_strlit("enter");
    reveal_strlit("Esc");
    reveal_strlit("esc");
    reveal_strlit("Backspace");
    reveal_strlit("backspace");
    reveal_strlit("CapsLock");
    reveal_strlit("capslock");
    reveal_strlit("PageUp");
    reveal_strlit("pageup");
    reveal_strlit("PageDown");
    reveal_strlit("pagedown");
    reveal_strlit("End");
    reveal_strlit("end");
    reveal_strlit("Home");
    reveal_strlit("home");
    assert(text::lowered("Space"@) =~= "space"@);
    lemma_named_label("Space"@, "space"@, 0x20);
    assert(text::lowered("Tab"@) =~= "tab"@);
    lemma_named_label("Tab"@, "tab"@, 0x09);
    assert(text::lowered("Enter"@) =~= "enter"@);
    lemma_named_label("Enter"@, "enter"@, 0x0D);
    assert(text::lowered("Esc"@) =~= "esc"@);
    lemma_named_label("Esc"@, "esc"@, 0x1B);
    assert(text::lowered("Backspace"@) =~= "backspace"@);
    lemma_named_label("Backspace"@, "backspace"@, 0x08);
    assert(text::lowered("CapsLock"@) =~= "capslock"@);
    lemma_named_label("CapsLock"@, "capslock"@, 0x14);
    assert(text::lowered("PageUp"@) =~= "pageup"@);
    lemma_named_label("PageUp"@, "pageup"@, 0x21);
    assert(text::lowered("PageDown"@) =~= "pagedown"@);
    lemma_named_label("PageDown"@, "pagedown"@, 0x22);
    assert(text::lowered("End"@) =~= "end"@);
    lemma_named_label("End"@, "end"@, 0x23);
    assert(text::lowered("Home"@) =~= "home"@);
    lemma_named_label("Home"@, "home"@, 0x24);
}

proof fn lemma_labels_2()
    ensures
        is_row("Left"@, "left"@, 0x25),
        is_row("Up"@, "up"@, 0x26),
        is_row("Right"@, "right"@, 0x27),
        is_row("Down"@, "down"@, 0x28),
        is_row("PrintScreen"@, "printscreen"@, 0x2C),
        is_row("Insert"@, "insert"@, 0x2D),
        is_row("Delete"@, "delete"@, 0x2E),
        is_row("Menu"@, "menu"@, 0x5D),
        is_row("Sleep"@, "sleep"@, 0x5F),
        is_row("NumLock"@, "numlock"@, 0x90),
{
    reveal(hotkey::named_key);
    lemma_modifiers();
    lemma_names();
    reveal_strlit("Left");
    reveal_strlit("left");
    reveal_strlit("Up");
    reveal_strlit("up");
    reveal_strlit("Right");
    reveal_strlit("right");
    reveal_strlit("Down");
    reveal_strlit("down");
    reveal_strlit("PrintScreen");
    reveal_strlit("printscreen");
    reveal_strlit("Insert");
    reveal_strlit("insert");
    reveal_strlit("Delete");
    reveal_strlit("delete");
    reveal_strlit("Menu");
    reveal_strlit("menu");
    reveal_strlit("Sleep");
    reveal_strlit("sleep");
    reveal_strlit("NumLock");
    reveal_strlit("numlock");
    assert(text::lowered("Left"@) =~= "left"@);
    lemma_named_label("Left"@, "left"@, 0x25);
    assert(text::lowered("Up"@) =~= "up"@);
    lemma_named_label("Up"@, "up"@, 0x26);
    assert(text::lowered("Right"@) =~= "right"@);
    lemma_named_label("Right"@, "right"@, 0x27);
    assert(text::lowered("Down"@) =~= "down"@);
    lemma_named_label("Down"@, "down"@, 0x28);
    assert(text::lowered("PrintScreen"@) =~= "printscreen"@);
    lemma_named_label("PrintScreen"@, "printscreen"@, 0x2C);
    assert(text::lowered("Insert"@) =~= "insert"@);
    lemma_named_label("Insert"@, "insert"@, 0x2D);
    assert(text::lowered("Delete"@) =~= "delete"@);
    lemma_named_label("Delete"@, "delete"@, 0x2E);
    assert(text::lowered("Menu"@) =~= "menu"@);
    lemma_named_label("Menu"@, "menu"@, 0x5D);
    assert(text::lowered("Sleep"@) =~= "sleep"@);
    lemma_named_label("Sleep"@, "sleep"@, 0x5F);
    assert(text::lowered("NumLock"@) =~= "numlock"@);
    lemma_named_label("NumLock"@, "numlock"@, 0x90);
}

proof fn lemma_labels_3()
    ensures
        is_row("ScrollLock"@, "scrolllock"@, 0x91),
        is_row("BrowserBack"@, "browserback"@, 0xA6),
        is_row("BrowserForward"@, "browserforward"@, 0xA7),
        is_row("BrowserRefresh"@, "browserrefresh"@, 0xA8),
        is_row("BrowserStop"@, "browserstop"@, 0xA9),
        is_row("BrowserSearch"@, "browsersearch"@, 0xAA),
        is_row("BrowserFavorites"@, "browserfavorites"@, 0xAB),
        is_row("BrowserHome"@, "browserhome"@, 0xAC),
        is_row("VolumeMute"@, "volumemute"@, 0xAD),
        is_row("VolumeDown"@, "volumedown"@, 0xAE),
{
    reveal(hotkey::named_key);
    lemma_modifiers();
    lemma_names();
    reveal_strlit("ScrollLock");
    reveal_strlit("scrolllock");
    reveal_strlit("BrowserBack");
    reveal_strlit("browserback");
    reveal_strlit("BrowserForward");
    reveal_strlit("browserforward");
    reveal_strlit("BrowserRefresh");
    reveal_strlit("browserrefresh");
    reveal_strlit("BrowserStop");
    reveal_strlit("browserstop");
    reveal_strlit("BrowserSearch");
    reveal_strlit("browsersearch");
    reveal_strlit("BrowserFavorites");
    reveal_strlit("browserfavorites");
    reveal_strlit("BrowserHome");
    reveal_strlit("browserhome");
    reveal_strlit("VolumeMute");
    reveal_strlit("volumemute");
    reveal_strlit("VolumeDown");
    reveal_strlit("volumedown");
    assert(text::lowered("ScrollLock"@) =~= "scrolllock"@);
    lemma_named_label("ScrollLock"@, "scrolllock"@, 0x91);
    assert(text::lowered("BrowserBack"@) =~= "browserback"@);
    lemma_named_label("BrowserBack"@, "browserback"@, 0xA6);
    assert(text::lowered("BrowserForward"@) =~= "browserforward"@);
    lemma_named_label("BrowserForward"@, "browserforward"@, 0xA7);
    assert(text::lowered("BrowserRefresh"@) =~= "browserrefresh"@);
    lemma_named_label("BrowserRefresh"@, "browserrefresh"@, 0xA8);
    assert(text::lowered("BrowserStop"@) =~= "browserstop"@);
    lemma_named_label("BrowserStop"@, "browserstop"@, 0xA9);
    assert(text::lowered("BrowserSearch"@) =~= "browsersearch"@);
    lemma_named_label("BrowserSearch"@, "browsersearch"@, 0xAA);
    assert(text::lowered("BrowserFavorites"@) =~= "browserfavorites"@);
    lemma_named_label("BrowserFavorites"@, "browserfavorites"@, 0xAB);
    assert(text::lowered("BrowserHome"@) =~= "browserhome"@);
    lemma_named_label("BrowserHome"@, "browserhome"@, 0xAC);
    assert(text::lowered("VolumeMute"@) =~= "volumemute"@);
    lemma_named_label("VolumeMute"@, "volumemute"@, 0xAD);
    assert(text::lowered("VolumeDown"@) =~= "volumedown"@);
    lemma_named_label("VolumeDown"@, "volumedown"@, 0xAE);
}

proof fn lemma_labels_4()
    ensures
        is_row("VolumeUp"@, "volumeup"@, 0xAF),
        is_row("MediaNext"@, "medianext"@, 0xB0),
        is_row("MediaPrev"@, "mediaprev"@, 0xB1),
        is_row("MediaStop"@, "mediastop"@, 0xB2),
        is_row("MediaPlayPause"@, "mediaplaypause"@, 0xB3),
        is_row("LaunchMail"@, "launchmail"@, 0xB4),
        is_row("LaunchMedia"@, "launchmedia"@, 0xB5),
        is_row("LaunchApp1"@, "launchapp1"@, 0xB6),
        is_row("LaunchApp2"@, "launchapp2"@, 0xB7),
        is_row("Semicolon"@, "semicolon"@, 0xBA),
{
    reveal(hotkey::named_key);
    lemma_modifiers();
    lemma_names();
    reveal_strlit("VolumeUp");
    reveal_strlit("volumeup");
    reveal_strlit("MediaNext");
    reveal_strlit("medianext");
    reveal_strlit("MediaPrev");
    reveal_strlit("mediaprev");
    reveal_strlit("MediaStop");
    reveal_strlit("mediastop");
    reveal_strlit("MediaPlayPause");
    reveal_strlit("mediaplaypause");
    reveal_strlit("LaunchMail");
    reveal_strlit("launchmail");
    reveal_strlit("LaunchMedia");
    reveal_strlit("launchmedia");
    reveal_strlit("LaunchApp1");
    reveal_strlit("launchapp1");
    reveal_strlit("LaunchApp2");
    reveal_strlit("launchapp2");
    reveal_strlit("Semicolon");
    reveal_strlit("semicolon");
    assert(text::lowered("VolumeUp"@) =~= "volumeup"@);
    lemma_named_label("VolumeUp"@, "volumeup"@, 0xAF);
    assert(text::lowered("MediaNext"@) =~= "medianext"@);
    lemma_named_label("MediaNext"@, "medianext"@, 0xB0);
    assert(text::lowered("MediaPrev"@) =~= "mediaprev"@);
    lemma_named_label("MediaPrev"@, "mediaprev"@, 0xB1);
    assert(text::lowered("MediaStop"@) =~= "mediastop"@);
    lemma_named_label("MediaStop"@, "mediastop"@, 0xB2);
    assert(text::lowered("MediaPlayPause"@) =~= "mediaplaypause"@);
    lemma_named_label("MediaPlayPause"@, "mediaplaypause"@, 0xB3);
    assert(text::lowered("LaunchMail"@) =~= "launchmail"@);
    lemma_named_label("LaunchMail"@, "launchmail"@, 0xB4);
    assert(text::lowered("LaunchMedia"@) =~= "launchmedia"@);
    lemma_named_label("LaunchMedia"@, "launchmedia"@, 0xB5);
    assert(text::lowered("LaunchApp1"@) =~= "launchapp1"@);
    lemma_named_label("LaunchApp1"@, "launchapp1"@, 0xB6);
    assert(text::lowered("LaunchApp2"@) =~= "launchapp2"@);
    lemma_named_label("LaunchApp2"@, "launchapp2"@, 0xB7);
    assert(text::lowered("Semicolon"@) =~= "semicolon"@);
    lemma_named_label("Semicolon"@, "semicolon"@, 0xBA);
}

proof fn lemma_labels_5()
    ensures
        is_row("Equals"@, "equals"@, 0xBB),
        is_row("Comma"@, "comma"@, 0xBC),
        is_row("Hyphen"@, "hyphen"@, 0xBD),
        is_row("Period"@, "period"@, 0xBE),
        is_row("Slash"@, "slash"@, 0xBF),
        is_row("BackQuote"@, "backquote"@, 0xC0),
        is_row("OpenBracket"@, "openbracket"@, 0xDB),
        is_row("Backslash"@, "backslash"@, 0xDC),
        is_row("CloseBracket"@, "closebracket"@, 0xDD),
        is_row("Quote"@, "quote"@, 0xDE),
{
    reveal(hotkey::named_key);
    lemma_modifiers();
    lemma_names();
    reveal_strlit("Equals");
    reveal_strlit("equals");
    reveal_strlit("Comma");
    reveal_strlit("comma");
    reveal_strlit("Hyphen");
    reveal_strlit("hyphen");
    reveal_strlit("Period");
    reveal_strlit("period");
    reveal_strlit("Slash");
    reveal_strlit("slash");
    reveal_strlit("BackQuote");
    reveal_strlit("backquote");
    reveal_strlit("OpenBracket");
    reveal_strlit("openbracket");
    reveal_strlit("Backslash");
    reveal_strlit("backslash");
    reveal_strlit("CloseBracket");
    reveal_strlit("closebracket");
    reveal_strlit("Quote");
    reveal_strlit("quote");
    assert(text::lowered("Equals"@) =~= "equals"@);
    lemma_named_label("Equals"@, "equals"@, 0xBB);
    assert(text::lowered("Comma"@) =~= "comma"@);
    lemma_named_label("Comma"@, "comma"@, 0xBC);
    assert(text::lowered("Hyphen"@) =~= "hyphen"@);
    lemma_named_label("Hyphen"@, "hyphen"@, 0xBD);
    assert(text::lowered("Period"@) =~= "period"@);
    lemma_named_label("Period"@, "period"@, 0xBE);
    assert(text::lowered("Slash"@) =~= "slash"@);
    lemma_named_label("Slash"@, "slash"@, 0xBF);
    assert(text::lowered("BackQuote"@) =~= "backquote"@);
    lemma_named_label("BackQuote"@, "backquote"@, 0xC0);
    assert(text::lowered("OpenBracket"@) =~= "openbracket"@);
    lemma_named_label("OpenBracket"@, "openbracket"@, 0xDB);
    assert(text::lowered("Backslash"@) =~= "backslash"@);
    lemma_named_label("Backslash"@, "backslash"@, 0xDC);
    assert(text::lowered("CloseBracket"@) =~= "closebracket"@);
    lemma_named_label("CloseBracket"@, "closebracket"@, 0xDD);
    assert(text::lowered("Quote"@) =~= "quote"@);
    lemma_named_label("Quote"@, "quote"@, 0xDE);
}

/// A name that begins with `numpad` is looked up by what follows.
proof fn lemma_numpad_name(name: Seq<char>)
    requires
        "numpad"@.is_prefix_of(name),
    ensures
        hotkey::named_key(name) == hotkey::numpad_key_named(name.skip(6)),
{
    reveal(hotkey::named_key);
    reveal_strlit("numpad");
    reveal_strlit("numlock");
    reveal_strlit("nexttrack");
    lemma_names();
    assert(name[0] == name.subrange(0, 6)[0]);
    assert(name[1] == name.subrange(0, 6)[1]);
    assert(name[3] == name.subrange(0, 6)[3]);
    assert("nexttrack"@[1] == 'e');
    assert("numlock"@[3] == 'l');
}

/// How the short names of the numeric pad are spelled.
proof fn lemma_pad_names()
    ensures
        "0"@.len() == 1 && "0"@[0] == '0',
        "1"@.len() == 1 && "1"@[0] == '1',
        "2"@.len() == 1 && "2"@[0] == '2',
        "3"@.len() == 1 && "3"@[0] == '3',
        "4"@.len() == 1 && "4"@[0] == '4',
        "5"@.len() == 1 && "5"@[0] == '5',
        "6"@.len() == 1 && "6"@[0] == '6',
        "7"@.len() == 1 && "7"@[0] == '7',
        "8"@.len() == 1 && "8"@[0] == '8',
        "9"@.len() == 1 && "9"@[0] == '9',
        spelled("multiply"@, 8, 'm', 'l', 'y'),
        spelled("star"@, 4, 's', 'a', 'r'),
        spelled("add"@, 3, 'a', 'd', 'd'),
        spelled("plus"@, 4, 'p', 'u', 's'),
        spelled("separator"@, 9, 's', 'o', 'r'),
        spelled("subtract"@, 8, 's', 'c', 't'),
        spelled("minus"@, 5, 'm', 'u', 's'),
        spelled("decimal"@, 7, 'd', 'a', 'l'),
        spelled("period"@, 6, 'p', 'o', 'd'),
        spelled("divide"@, 6, 'd', 'd', 'e'),
        spelled("slash"@, 5, 's', 's', 'h'),
{
    reveal_strlit("0");
    reveal_strlit("1");
    reveal_strlit("2");
    reveal_strlit("3");
    reveal_strlit("4");
    reveal_strlit("5");
    reveal_strlit("6");
    reveal_strlit("7");
    reveal_strlit("8");
    reveal_strlit("9");
    reveal_strlit("multiply");
    reveal_strlit("star");
    reveal_strlit("add");
    reveal_strlit("plus");
    reveal_strlit("separator");
    reveal_strlit("subtract");
    reveal_strlit("minus");
    reveal_strlit("decimal");
    reveal_strlit("period");
    reveal_strlit("divide");
    reveal_strlit("slash");
}

/// A label of the numeric pad, whose short name is `key`, is a label.
proof fn lemma_pad_label(label: Seq<char>, name: Seq<char>, key: Seq<char>, vk: u32)
    requires
        name.len() > 6,
        all_plain(name),
        text::lowered(label) == name,
        "numpad"@.is_prefix_of(name),
        name.skip(6) == key,
        hotkey::numpad_key_named(key) == Some((vk, label)),
    ensures
        names_itself(label, vk),
{
    reveal_strlit("numpad");
    lemma_modifiers();
    assert(name[0] == name.subrange(0, 6)[0]);
    lemma_numpad_name(name);
    lemma_named_label(label, name, vk);
}

proof fn lemma_pad_labels_1()
    ensures
        is_row("Numpad0"@, "numpad0"@, 0x60),
        is_row("Numpad1"@, "numpad1"@, 0x61),
        is_row("Numpad2"@, "numpad2"@, 0x62),
        is_row("Numpad3"@, "numpad3"@, 0x63),
        is_row("Numpad4"@, "numpad4"@, 0x64),
        is_row("Numpad5"@, "numpad5"@, 0x65),
        is_row("Numpad6"@, "numpad6"@, 0x66),
        is_row("Numpad7"@, "numpad7"@, 0x67),
{
    reveal_strlit("numpad");
    lemma_pad_names();
    reveal_strlit("Numpad0");
    reveal_strlit("numpad0");
    reveal_strlit("0");
    reveal_strlit("Numpad1");
    reveal_strlit("numpad1");
    reveal_strlit("1");
    reveal_strlit("Numpad2");
    reveal_strlit("numpad2");
    reveal_strlit("2");
    reveal_strlit("Numpad3");
    reveal_strlit("numpad3");
    reveal_strlit("3");
    reveal_strlit("Numpad4");
    reveal_strlit("numpad4");
    reveal_strlit("4");
    reveal_strlit("Numpad5");
    reveal_strlit("numpad5");
    reveal_strlit("5");
    reveal_strlit("Numpad6");
    reveal_strlit("numpad6");
    reveal_strlit("6");
    reveal_strlit("Numpad7");
    reveal_strlit("numpad7");
    reveal_strlit("7");
    assert(text::lowered("Numpad0"@) =~= "numpad0"@);
    assert("numpad0"@.skip(6) =~= "0"@);
    lemma_pad_label("Numpad0"@, "numpad0"@, "0"@, 0x60);
    assert(text::lowered("Numpad1"@) =~= "numpad1"@);
    assert("numpad1"@.skip(6) =~= "1"@);
    lemma_pad_label("Numpad1"@, "numpad1"@, "1"@, 0x61);
    assert(text::lowered("Numpad2"@) =~= "numpad2"@);
    assert("numpad2"@.skip(6) =~= "2"@);
    lemma_pad_label("Numpad2"@, "numpad2"@, "2"@, 0x62);
    assert(text::lowered("Numpad3"@) =~= "numpad3"@);
    assert("numpad3"@.skip(6) =~= "3"@);
    lemma_pad_label("Numpad3"@, "numpad3"@, "3"@, 0x63);
    assert(text::lowered("Numpad4"@) =~= "numpad4"@);
    assert("numpad4"@.skip(6) =~= "4"@);
    lemma_pad_label("Numpad4"@, "numpad4"@, "4"@, 0x64);
    assert(text::lowered("Numpad5"@) =~= "numpad5"@);
    assert("numpad5"@.skip(6) =~= "5"@);
    lemma_pad_label("Numpad5"@, "numpad5"@, "5"@, 0x65);
    assert(text::lowered("Numpad6"@) =~= "numpad6"@);
    assert("numpad6"@.skip(6) =~= "6"@);
    lemma_pad_label("Numpad6"@, "numpad6"@, "6"@, 0x66);
    assert(text::lowered("Numpad7"@) =~= "numpad7"@);
    assert("numpad7"@.skip(6) =~= "7"@);
    lemma_pad_label("Numpad7"@, "numpad7"@, "7"@, 0x67);
}

proof fn lemma_pad_labels_2()
    ensures
        is_row("Numpad8"@, "numpad8"@, 0x68),
        is_row("Numpad9"@, "numpad9"@, 0x69),
        is_row("NumpadMultiply"@, "numpadmultiply"@, 0x6A),
        is_row("NumpadAdd"@, "numpadadd"@, 0x6B),
        is_row("NumpadSeparator"@, "numpadseparator"@, 0x6C),
        is_row("NumpadSubtract"@, "numpadsubtract"@, 0x6D),
        is_row("NumpadDecimal"@, "numpaddecimal"@, 0x6E),
        is_row("NumpadDivide"@, "numpaddivide"@, 0x6F),
{
    reveal_strlit("numpad");
    lemma_pad_names();
    reveal_strlit("Numpad8");
    reveal_strlit("numpad8");
    reveal_strlit("8");
    reveal_strlit("Numpad9");
    reveal_strlit("numpad9");
    reveal_strlit("9");
    reveal_strlit("NumpadMultiply");
    reveal_strlit("numpadmultiply");
    reveal_strlit("multiply");
    reveal_strlit("NumpadAdd");
    reveal_strlit("numpadadd");
    reveal_strlit("add");
    reveal_strlit("NumpadSeparator");
    reveal_strlit("numpadseparator");
    reveal_strlit("separator");
    reveal_strlit("NumpadSubtract");
    reveal_strlit("numpadsubtract");
    reveal_strlit("subtract");
    reveal_strlit("NumpadDecimal");
    reveal_strlit("numpaddecimal");
    reveal_strlit("decimal");
    reveal_strlit("NumpadDivide");
    reveal_strlit("numpaddivide");
    reveal_strlit("divide");
    assert(text::lowered("Numpad8"@) =~= "numpad8"@);
    assert("numpad8"@.skip(6) =~= "8"@);
    lemma_pad_label("Numpad8"@, "numpad8"@, "8"@, 0x68);
    assert(text::lowered("Numpad9"@) =~= "numpad9"@);
    assert("numpad9"@.skip(6) =~= "9"@);
    lemma_pad_label("Numpad9"@, "numpad9"@, "9"@, 0x69);
    assert(text::lowered("NumpadMultiply"@) =~= "numpadmultiply"@);
    assert("numpadmultiply"@.skip(6) =~= "multiply"@);
    lemma_pad_label("NumpadMultiply"@, "numpadmultiply"@, "multiply"@, 0x6A);
    assert(text::lowered("NumpadAdd"@) =~= "numpadadd"@);
    assert("numpadadd"@.skip(6) =~= "add"@);
    lemma_pad_label("NumpadAdd"@, "numpadadd"@, "add"@, 0x6B);
    assert(text::lowered("NumpadSeparator"@) =~= "numpadseparator"@);
    assert("numpadseparator"@.skip(6) =~= "separator"@);
    lemma_pad_label("NumpadSeparator"@, "numpadseparator"@, "separator"@, 0x6C);
    assert(text::lowered("NumpadSubtract"@) =~= "numpadsubtract"@);
    assert("numpadsubtract"@.skip(6) =~= "subtract"@);
    lemma_pad_label("NumpadSubtract"@, "numpadsubtract"@, "subtract"@, 0x6D);
    assert(text::lowered("NumpadDecimal"@) =~= "numpaddecimal"@);
    assert("numpaddecimal"@.skip(6) =~= "decimal"@);
    lemma_pad_label("NumpadDecimal"@, "numpaddecimal"@, "decimal"@, 0x6E);
    assert(text::lowered("NumpadDivide"@) =~= "numpaddivide"@);
    assert("numpaddivide"@.skip(6) =~= "divide"@);
    lemma_pad_label("NumpadDivide"@, "numpaddivide"@, "divide"@, 0x6F);
}

/// The label that the table of the names gives a key is a label of the key.
proof fn lemma_named_key_label(value: Seq<char>)
    ensures
        match hotkey::named_key(value) {
            Some((vk, label)) => names_itself(label, vk),
            None => true,
        },
{
    reveal(hotkey::named_key);
    lemma_labels_1();
    lemma_labels_2();
    lemma_labels_3();
    lemma_labels_4();
    lemma_labels_5();
    lemma_pad_labels_1();
    lemma_pad_labels_2();
}

proof fn lemma_one_label_for_a_code(a: Seq<char>, b: Seq<char>)
    ensures
        match (hotkey::named_key(a), hotkey::named_key(b)) {
            (Some((v1, l1)), Some((v2, l2))) => v1 == v2 ==> l1 == l2,
            _ => true,
        },
{
    reveal(hotkey::named_key);
}

/// In the table of the names a code has one label and a label one code, and the
/// small letters of a label are a name of its key.
pub proof fn codes_and_labels_determine_each_other(a: Seq<char>, b: Seq<char>)
    requires
        hotkey::named_key(a) is Some,
        hotkey::named_key(b) is Some,
    ensures
        match (hotkey::named_key(a), hotkey::named_key(b)) {
            (Some((v1, l1)), Some((v2, l2))) => {
                &&& v1 == v2 <==> l1 == l2
                &&& hotkey::named_key(text::lowered(l1)) == Some((v1, l1))
            },
            _ => false,
        },
{
    lemma_named_key_label(a);
    lemma_named_key_label(b);
    lemma_one_label_for_a_code(a, b);
}

/// The label of a punctuation key is a label of the key.
proof fn lemma_punctuation_label(ch: char)
    requires
        hotkey::punctuation_key(ch) is Some,
    ensures
        has_label(hotkey::punctuation_key(ch)),
{
    lemma_labels_4();
    lemma_labels_5();
}

/// A single letter or digit is not in the table of the names.
proof fn lemma_single_is_no_name(c: char)
    ensures
        hotkey::named_key(seq![c]) is None,
        hotkey::modifier_named(seq![c]) is None,
{
    reveal(hotkey::named_key);
    reveal_strlit("numpad");
    reveal_strlit("num");
    lemma_modifiers();
    lemma_names();
}

/// A letter or digit names its key, and is its label in upper case.
pub proof fn letter_or_digit_names_key(c: char)
    requires
        text::is_alphanumeric(c),
    ensures
        is_key_label(seq![text::upper_char(c)], text::upper_char(c) as u32),
{
    reveal(is_key_label);
    let label = seq![text::upper_char(c)];
    let low = text::lower_char(text::upper_char(c));
    assert(text::lowered(label) =~= seq![low]);
    lemma_plain_name(seq![low]);
    lemma_single_is_no_name(low);
    assert(seq![low].drop_first() =~= Seq::<char>::empty());
    assert(text::upper_char(low) == text::upper_char(c));
    lemma_trimmed_same(label);
}

proof fn lemma_behind_first(c: char, s: Seq<char>)
    ensures
        (seq![c] + s).drop_first() == s,
{
    assert((seq![c] + s).drop_first() =~= s);
}

/// A name that begins with `f` or `v` is not that of a modifier.
proof fn lemma_function_is_no_modifier(name: Seq<char>)
    requires
        name.len() > 0,
        name[0] == 'f' || name[0] == 'v',
    ensures
        hotkey::modifier_named(name) is None,
{
    lemma_modifiers();
}

/// The function keys F1 to F24 name their keys, and are their labels.
pub proof fn function_key_names_key(number: int)
    requires
        1 <= number <= 24,
    ensures
        is_key_label(
            seq!['F'] + number::decimal(number as nat),
            (hotkey::VK_F1 + number - 1) as u32,
        ),
        hotkey::VK_F1 == 0x70,
{
    reveal(is_key_label);
    let digits = number::decimal(number as nat);
    let label = seq!['F'] + digits;
    let name = seq!['f'] + digits;
    number::lemma_decimal_reads_back(number as nat);
    assert forall|i: int| 0 <= i < name.len() implies is_plain(#[trigger] name[i]) by {
        if i > 0 {
            assert(name[i] == digits[i - 1]);
        }
    }
    assert forall|i: int| 0 <= i < label.len() implies #[trigger] label[i] != '+'
        && !text::is_white(label[i]) && text::lower_char(label[i]) == name[i] by {
        if i > 0 {
            assert(label[i] == digits[i - 1]);
            assert('0' <= digits[i - 1] <= '9');
        }
    }
    assert(text::lowered(label) =~= name);
    lemma_plain_name(name);
    lemma_trimmed_same(label);
    lemma_function_is_no_modifier(name);
    lemma_behind_first('f', digits);
    assert('0' <= digits[0] <= '9');
}

/// A raw code in two hexadecimal digits names its key, and is its label.
pub proof fn raw_code_names_key(vk: int)
    requires
        1 <= vk <= 0xFE,
    ensures
        is_key_label(hotkey::raw_label(vk), vk as u32),
{
    reveal(is_key_label);
    reveal_strlit("VK_0x");
    reveal_strlit("vk_");
    reveal_strlit("0x");
    let high = number::upper_digit_char(vk / 16);
    let low = number::upper_digit_char(vk % 16);
    let label = hotkey::raw_label(vk);
    let digits = seq![text::lower_char(high), text::lower_char(low)];
    let raw = seq!['0', 'x'] + digits;
    let name = seq!['v', 'k', '_'] + raw;
    assert(label =~= seq!['V', 'K', '_', '0', 'x', high, low]);
    assert(text::lowered(label) =~= name);
    assert(text::lowered(name) =~= name);
    lemma_trimmed_same(label);
    lemma_trimmed_same(name);
    assert("vk_"@.is_prefix_of(name));
    assert(name.skip(3) =~= raw);
    lemma_trimmed_same(raw);
    assert(hotkey::raw_digits(raw) == raw);
    assert("0x"@.is_prefix_of(raw));
    assert(raw.skip(2) =~= digits);
    assert(digits.drop_last() =~= seq![digits[0]]);
    assert(seq![digits[0]].drop_last() =~= Seq::<char>::empty());
    assert(number::digits_value(Seq::<char>::empty(), 16) == Some(0int));
    assert(number::digit_value(digits[0], 16) == Some(vk / 16));
    assert(number::digit_value(digits[1], 16) == Some(vk % 16));
    assert(number::digits_value(seq![digits[0]], 16) == Some(vk / 16));
    assert(number::digits_value(digits, 16) == Some(vk));
    lemma_function_is_no_modifier(name);
    assert(!label.contains('+'));
}

/// A raw code in decimal digits names the same key as in hexadecimal ones.
pub proof fn decimal_raw_code_names_key(vk: int)
    requires
        1 <= vk <= 0xFE,
    ensures
        hotkey::key_named("vk"@ + number::decimal(vk as nat)) == Some(
            (vk as u32, hotkey::raw_label(vk)),
        ),
{
    reveal_strlit("vk_");
    reveal_strlit("vk:");
    reveal_strlit("vk");
    reveal_strlit("0x");
    let digits = number::decimal(vk as nat);
    let name = "vk"@ + digits;
    number::lemma_decimal_reads_back(vk as nat);
    assert('0' <= digits[0] <= '9');
    assert('0' <= digits.last() <= '9') by {
        assert('0' <= digits[digits.len() - 1] <= '9');
    }
    assert(name[0] == 'v' && name[1] == 'k' && name[2] == digits[0]);
    assert(name.last() == digits.last());
    lemma_trimmed_same(name);
    lemma_trimmed_same(digits);
    assert forall|i: int| 0 <= i < name.len() implies text::lower_char(#[trigger] name[i])
        == name[i] by {
        if i >= 2 {
            assert(name[i] == digits[i - 2]);
            assert('0' <= digits[i - 2] <= '9');
        }
    }
    assert(text::lowered(name) =~= name);
    if "vk_"@.is_prefix_of(name) {
        assert(name[2] == name.subrange(0, 3)[2]);
    }
    if "vk:"@.is_prefix_of(name) {
        assert(name[2] == name.subrange(0, 3)[2]);
    }
    assert("vk"@.is_prefix_of(name));
    assert(name.skip(2) =~= digits);
    assert(hotkey::raw_digits(digits) == digits);
    if "0x"@.is_prefix_of(digits) {
        assert(digits[1] == digits.subrange(0, 2)[1]);
    }
}

/// There are no other function keys than those from one to twenty-four.
pub proof fn function_keys_are_numbered(number: nat)
    ensures
        hotkey::function_key(seq!['f'] + number::decimal(number)) is Some <==> 1 <= number <= 24,
{
    let digits = number::decimal(number);
    number::lemma_decimal_reads_back(number);
    lemma_behind_first('f', digits);
    assert('0' <= digits[0] <= '9');
}

/// Spaces, underscores and hyphens in the name of a key do not count, and every
/// other character does; but for raw codes and for single characters.
pub proof fn separators_do_not_count(front: Seq<char>, c: char, back: Seq<char>)
    ensures
        c == ' ' || c == '_' || c == '-' ==> hotkey::compacted(front + seq![c] + back)
            == hotkey::compacted(front + back),
        c != ' ' && c != '_' && c != '-' ==> hotkey::compacted(front + seq![c] + back)
            == hotkey::compacted(front) + seq![c] + hotkey::compacted(back),
        (c == ' ' || c == '_' || c == '-') && hotkey::raw_key(front + seq![c] + back) is None
            && hotkey::raw_key(front + back) is None && front.len() + back.len() > 1
            ==> hotkey::key_named(front + seq![c] + back) == hotkey::key_named(front + back),
{
    let p = |c: char| !hotkey::is_separator(c);
    Seq::filter_distributes_over_add(front, back, p);
    Seq::filter_distributes_over_add(front, seq![c], p);
    Seq::filter_distributes_over_add(front + seq![c], back, p);
    assert(seq![c].filter(p) == (if p(c) {
        seq![c]
    } else {
        Seq::<char>::empty()
    })) by {
        reveal(Seq::filter);
        assert(seq![c].drop_last() =~= Seq::<char>::empty());
        assert(seq![c].drop_last().filter(p) =~= Seq::<char>::empty());
        assert(Seq::<char>::empty().push(c) =~= seq![c]);
    }
    if !p(c) {
        assert(hotkey::compacted(front + seq![c] + back) =~= hotkey::compacted(front + back));
    }
}

/// A raw code is a number from 1 to 254, in base sixteen behind `0x` and in base
/// ten otherwise; an underscore or a colon may stand before it.
pub proof fn raw_codes_are_numbers(digits: Seq<char>)
    requires
        digits.len() > 0,
        forall|i: int|
            0 <= i < digits.len() ==> '0' <= #[trigger] digits[i] <= '9' || 'a' <= digits[i]
                <= 'z',
    ensures
        hotkey::raw_key("vk_"@ + digits) == hotkey::raw_key("vk"@ + digits),
        hotkey::raw_key("vk:"@ + digits) == hotkey::raw_key("vk"@ + digits),
        ({
            let value = if digits.len() > 1 && digits[0] == '0' && digits[1] == 'x' {
                if digits.len() > 2 {
                    number::digits_value(digits.skip(2), 16)
                } else {
                    None
                }
            } else {
                number::digits_value(digits, 10)
            };
            match hotkey::raw_key("vk"@ + digits) {
                Some((vk, label)) => value == Some(vk as int) && 1 <= vk <= 254 && label
                    == "VK_0x"@ + number::upper_hex_byte(vk as int),
                None => value is None || value->Some_0 == 0 || value->Some_0 > 254,
            }
        }),
{
    reveal_strlit("vk_");
    reveal_strlit("vk:");
    reveal_strlit("vk");
    reveal_strlit("0x");
    let last = digits[digits.len() - 1];
    assert('0' <= digits[0] <= '9' || 'a' <= digits[0] <= 'z');
    assert('0' <= last <= '9' || 'a' <= last <= 'z');
    lemma_trimmed_same(digits);
    assert(hotkey::raw_digits(digits) == digits);
    lemma_raw_name("vk_"@, digits);
    lemma_raw_name("vk:"@, digits);
    lemma_raw_name("vk"@, digits);
    let plain = "vk"@ + digits;
    assert(plain[2] == digits[0]);
    if "vk_"@.is_prefix_of(plain) {
        assert(plain[2] == plain.subrange(0, 3)[2]);
    }
    if "vk:"@.is_prefix_of(plain) {
        assert(plain[2] == plain.subrange(0, 3)[2]);
    }
    let colon = "vk:"@ + digits;
    assert(colon[2] == ':');
    if "vk_"@.is_prefix_of(colon) {
        assert(colon[2] == colon.subrange(0, 3)[2]);
    }
    assert(hotkey::raw_suffix("vk_"@ + digits) == Some(digits));
    assert(hotkey::raw_suffix(colon) == Some(digits));
    assert(hotkey::raw_suffix(plain) == Some(digits));
    if "0x"@.is_prefix_of(digits) {
        assert(digits[0] == digits.subrange(0, 2)[0] && digits[1] == digits.subrange(0, 2)[1]);
        let hex = digits.skip(2);
        if hex.len() > 0 {
            assert(hex[0] == digits[2]);
            number::only_digits_are_read(hex, 16, 0xffff_ffff);
        }
    } else {
        if digits.len() > 1 && digits[0] == '0' && digits[1] == 'x' {
            assert(digits.subrange(0, 2) =~= "0x"@);
            assert("0x"@.is_prefix_of(digits));
        }
        number::only_digits_are_read(digits, 10, 0xffff_ffff);
    }
}

/// A name of a raw code has nothing to trim and no capital letters.
proof fn lemma_raw_name(front: Seq<char>, digits: Seq<char>)
    requires
        front == "vk_"@ || front == "vk:"@ || front == "vk"@,
        digits.len() > 0,
        forall|i: int|
            0 <= i < digits.len() ==> '0' <= #[trigger] digits[i] <= '9' || 'a' <= digits[i]
                <= 'z',
    ensures
        text::lowered(text::trimmed(front + digits)) == front + digits,
        front.is_prefix_of(front + digits),
        (front + digits).skip(front.len() as int) == digits,
{
    reveal_strlit("vk_");
    reveal_strlit("vk:");
    reveal_strlit("vk");
    let name = front + digits;
    assert(name.last() == digits[digits.len() - 1]);
    assert(name[0] == 'v');
    lemma_trimmed_same(name);
    assert forall|i: int| 0 <= i < name.len() implies text::lower_char(#[trigger] name[i])
        == name[i] by {
        if i >= front.len() {
            assert(name[i] == digits[i - front.len()]);
        }
    }
    assert(text::lowered(name) =~= name);
    assert(name.subrange(0, front.len() as int) =~= front);
    assert(name.skip(front.len() as int) =~= digits);
}

/// The label that a key has is a label of the key, whatever name the key was
/// given by.
pub proof fn key_label_names_key(value: Seq<char>)
    ensures
        hotkey::key_named(value) is Some ==> has_label(hotkey::key_named(value)),
{
    let compact = hotkey::compacted(value);
    if hotkey::raw_key(value) is Some {
        let raw = hotkey::raw_suffix(text::lowered(text::trimmed(value)))->0;
        raw_code_names_key(hotkey::raw_number(hotkey::raw_digits(raw))->0);
    } else if hotkey::function_key(compact) is Some {
        function_key_names_key(
            number::unsigned_value(compact.drop_first(), 10, u32::MAX as int)->0,
        );
    } else if hotkey::named_key(compact) is Some {
        lemma_named_key_label(compact);
    } else if hotkey::character_key(value) is None {
    } else if text::is_alphanumeric(value[0]) {
        letter_or_digit_names_key(value[0]);
    } else {
        lemma_punctuation_label(value[0]);
    }
}

// ---------------------------------------------------------------------------
// Codes of keys
// ---------------------------------------------------------------------------

/// The names mean keys whose codes follow one another.
pub open spec fn are_in_a_row(names: Seq<Seq<char>>, first: int) -> bool {
    forall|i: int|
        0 <= i < names.len() ==> is_main_name(#[trigger] names[i], first + i)
}

/// The name means the key with the code.
pub open spec fn means_code(name: Seq<char>, code: int) -> bool {
    match hotkey::named_key(name) {
        Some((vk, _)) => vk == code,
        None => false,
    }
}

/// The name means the key with the code, and is its label but for the case of
/// the letters.
pub open spec fn is_main_name(name: Seq<char>, code: int) -> bool {
    match hotkey::named_key(name) {
        Some((vk, label)) => vk == code && text::lowered(label) == name,
        None => false,
    }
}

/// The codes of the named keys: keys of one kind follow one another, from the
/// code of the first of them on; and each is labelled by its name.
pub proof fn named_keys_follow_one_another()
    ensures
        are_in_a_row(
            seq![
                "pageup"@,
                "pagedown"@,
                "end"@,
                "home"@,
                "left"@,
                "up"@,
                "right"@,
                "down"@,
            ],
            0x21,
        ),
        are_in_a_row(
            seq![
                "browserback"@,
                "browserforward"@,
                "browserrefresh"@,
                "browserstop"@,
                "browsersearch"@,
                "browserfavorites"@,
                "browserhome"@,
            ],
            0xA6,
        ),
        are_in_a_row(seq!["volumemute"@, "volumedown"@, "volumeup"@], 0xAD),
        are_in_a_row(seq!["medianext"@, "mediaprev"@, "mediastop"@, "mediaplaypause"@], 0xB0),
        are_in_a_row(seq!["launchmail"@, "launchmedia"@, "launchapp1"@, "launchapp2"@], 0xB4),
        are_in_a_row(
            seq![
                "semicolon"@,
                "equals"@,
                "comma"@,
                "hyphen"@,
                "period"@,
                "slash"@,
                "backquote"@,
            ],
            0xBA,
        ),
        are_in_a_row(seq!["openbracket"@, "backslash"@, "closebracket"@, "quote"@], 0xDB),
        are_in_a_row(seq!["printscreen"@, "insert"@, "delete"@], 0x2C),
        are_in_a_row(seq!["numlock"@, "scrolllock"@], 0x90),
        are_in_a_row(seq!["backspace"@, "tab"@], 0x08),
        is_main_name("enter"@, 0x0D),
        is_main_name("capslock"@, 0x14),
        is_main_name("esc"@, 0x1B),
        is_main_name("space"@, 0x20),
        is_main_name("menu"@, 0x5D),
        is_main_name("sleep"@, 0x5F),
{
    lemma_labels_1();
    lemma_labels_2();
    lemma_labels_3();
    lemma_labels_4();
    lemma_labels_5();
    assert(is_main_name("pageup"@, 0x21));
    assert(is_main_name("pagedown"@, 0x22));
    assert(is_main_name("end"@, 0x23));
    assert(is_main_name("home"@, 0x24));
    assert(is_main_name("left"@, 0x25));
    assert(is_main_name("up"@, 0x26));
    assert(is_main_name("right"@, 0x27));
    assert(is_main_name("down"@, 0x28));
    assert(is_main_name("browserback"@, 0xa6));
    assert(is_main_name("browserforward"@, 0xa7));
    assert(is_main_name("browserrefresh"@, 0xa8));
    assert(is_main_name("browserstop"@, 0xa9));
    assert(is_main_name("browsersearch"@, 0xaa));
    assert(is_main_name("browserfavorites"@, 0xab));
    assert(is_main_name("browserhome"@, 0xac));
    assert(is_main_name("volumemute"@, 0xad));
    assert(is_main_name("volumedown"@, 0xae));
    assert(is_main_name("volumeup"@, 0xaf));
    assert(is_main_name("medianext"@, 0xb0));
    assert(is_main_name("mediaprev"@, 0xb1));
    assert(is_main_name("mediastop"@, 0xb2));
    assert(is_main_name("mediaplaypause"@, 0xb3));
    assert(is_main_name("launchmail"@, 0xb4));
    assert(is_main_name("launchmedia"@, 0xb5));
    assert(is_main_name("launchapp1"@, 0xb6));
    assert(is_main_name("launchapp2"@, 0xb7));
    assert(is_main_name("semicolon"@, 0xba));
    assert(is_main_name("equals"@, 0xbb));
    assert(is_main_name("comma"@, 0xbc));
    assert(is_main_name("hyphen"@, 0xbd));
    assert(is_main_name("period"@, 0xbe));
    assert(is_main_name("slash"@, 0xbf));
    assert(is_main_name("backquote"@, 0xc0));
    assert(is_main_name("openbracket"@, 0xdb));
    assert(is_main_name("backslash"@, 0xdc));
    assert(is_main_name("closebracket"@, 0xdd));
    assert(is_main_name("quote"@, 0xde));
    assert(is_main_name("printscreen"@, 0x2c));
    assert(is_main_name("insert"@, 0x2d));
    assert(is_main_name("delete"@, 0x2e));
    assert(is_main_name("numlock"@, 0x90));
    assert(is_main_name("scrolllock"@, 0x91));
    assert(is_main_name("backspace"@, 0x8));
    assert(is_main_name("tab"@, 0x9));
    assert(is_main_name("enter"@, 0xd));
    assert(is_main_name("capslock"@, 0x14));
    assert(is_main_name("esc"@, 0x1b));
    assert(is_main_name("space"@, 0x20));
    assert(is_main_name("menu"@, 0x5d));
    assert(is_main_name("sleep"@, 0x5f));
}

/// Two names mean the same key.
pub open spec fn mean_the_same(a: Seq<char>, b: Seq<char>) -> bool {
    hotkey::named_key(a) is Some && hotkey::named_key(a) == hotkey::named_key(b)
}

/// The other names of the named keys mean the same keys.
pub proof fn other_names_mean_the_same_keys()
    ensures
        mean_the_same("spacebar"@, "space"@),
        mean_the_same("backtab"@, "tab"@),
        mean_the_same("return"@, "enter"@),
        mean_the_same("escape"@, "esc"@),
        mean_the_same("bksp"@, "backspace"@),
        mean_the_same("pgup"@, "pageup"@),
        mean_the_same("pgdn"@, "pagedown"@),
        mean_the_same("leftarrow"@, "left"@),
        mean_the_same("uparrow"@, "up"@),
        mean_the_same("rightarrow"@, "right"@),
        mean_the_same("downarrow"@, "down"@),
        mean_the_same("prtsc"@, "printscreen"@),
        mean_the_same("snapshot"@, "printscreen"@),
        mean_the_same("sysreq"@, "printscreen"@),
        mean_the_same("ins"@, "insert"@),
        mean_the_same("del"@, "delete"@),
        mean_the_same("apps"@, "menu"@),
        mean_the_same("app"@, "menu"@),
        mean_the_same("contextmenu"@, "menu"@),
        mean_the_same("back"@, "browserback"@),
        mean_the_same("forward"@, "browserforward"@),
        mean_the_same("refresh"@, "browserrefresh"@),
        mean_the_same("stop"@, "browserstop"@),
        mean_the_same("search"@, "browsersearch"@),
        mean_the_same("favorites"@, "browserfavorites"@),
        mean_the_same("mute"@, "volumemute"@),
        mean_the_same("nexttrack"@, "medianext"@),
        mean_the_same("prevtrack"@, "mediaprev"@),
        mean_the_same("previoustrack"@, "mediaprev"@),
        mean_the_same("playpause"@, "mediaplaypause"@),
        mean_the_same("mail"@, "launchmail"@),
        mean_the_same("mediaselect"@, "launchmedia"@),
        mean_the_same("app1"@, "launchapp1"@),
        mean_the_same("app2"@, "launchapp2"@),
        mean_the_same("colon"@, "semicolon"@),
        mean_the_same("equal"@, "equals"@),
        mean_the_same("plus"@, "equals"@),
        mean_the_same("lessthan"@, "comma"@),
        mean_the_same("hyphenminus"@, "hyphen"@),
        mean_the_same("minus"@, "hyphen"@),
        mean_the_same("underscore"@, "hyphen"@),
        mean_the_same("greaterthan"@, "period"@),
        mean_the_same("questionmark"@, "slash"@),
        mean_the_same("grave"@, "backquote"@),
        mean_the_same("tilde"@, "backquote"@),
        mean_the_same("leftbracket"@, "openbracket"@),
        mean_the_same("opencurlybracket"@, "openbracket"@),
        mean_the_same("pipe"@, "backslash"@),
        mean_the_same("rightbracket"@, "closebracket"@),
        mean_the_same("closecurlybracket"@, "closebracket"@),
        mean_the_same("apostrophe"@, "quote"@),
        mean_the_same("doublequote"@, "quote"@),
{
    reveal(hotkey::named_key);
    lemma_names();
}

/// The name of a punctuation character.
pub open spec fn character_name(c: char) -> Option<Seq<char>> {
    match c {
        ';' => Some("semicolon"@),
        ':' => Some("colon"@),
        '=' => Some("equals"@),
        '+' => Some("plus"@),
        ',' => Some("comma"@),
        '<' => Some("lessthan"@),
        '-' => Some("hyphen"@),
        '_' => Some("underscore"@),
        '.' => Some("period"@),
        '>' => Some("greaterthan"@),
        '/' => Some("slash"@),
        '?' => Some("questionmark"@),
        '`' => Some("backquote"@),
        '~' => Some("tilde"@),
        '[' => Some("openbracket"@),
        '{' => Some("opencurlybracket"@),
        '\\' => Some("backslash"@),
        '|' => Some("pipe"@),
        ']' => Some("closebracket"@),
        '}' => Some("closecurlybracket"@),
        '\'' => Some("quote"@),
        '"' => Some("doublequote"@),
        _ => None,
    }
}

/// A punctuation character means the key that its name means, and no other
/// character that is no letter or digit means a key.
pub proof fn character_means_the_key_of_its_name(c: char)
    requires
        !text::is_alphanumeric(c),
    ensures
        match character_name(c) {
            Some(name) => hotkey::named_key(name) is Some && hotkey::key_named(seq![c])
                == hotkey::named_key(name) && hotkey::punctuation_key(c) == hotkey::named_key(
                name,
            ),
            None => hotkey::key_named(seq![c]) is None && hotkey::punctuation_key(c) is None,
        },
{
    lemma_single_character(c);
    reveal(hotkey::named_key);
    lemma_names();
}

/// A single character is no raw code, no function key and no name.
proof fn lemma_single_character(c: char)
    ensures
        hotkey::key_named(seq![c]) == hotkey::character_key(seq![c]),
{
    reveal_strlit("vk_");
    reveal_strlit("vk:");
    reveal_strlit("vk");
    let s = seq![c];
    let (a, b) = text::stripping_takes_only_the_ends(s, Strip::White);
    assert(text::lowered(text::trimmed(s)).len() <= 1);
    assert(hotkey::raw_key(s) is None);
    let compact = hotkey::compacted(s);
    reveal(Seq::filter);
    assert(s.drop_last() =~= Seq::<char>::empty());
    assert(s.drop_last().filter(|c: char| !hotkey::is_separator(c)) =~= Seq::<char>::empty());
    assert(compact =~= s || compact =~= Seq::<char>::empty());
    assert(s.drop_first() =~= Seq::<char>::empty());
    if compact =~= s {
        lemma_single_is_no_name(c);
    } else {
        lemma_nothing_is_no_name();
    }
}

proof fn lemma_nothing_is_no_name()
    ensures
        hotkey::named_key(Seq::<char>::empty()) is None,
{
    reveal(hotkey::named_key);
    reveal_strlit("numpad");
    reveal_strlit("num");
    lemma_names();
}

/// On the numeric pad a digit has the code of the zero there and the digit, and
/// the operators follow one another.
pub proof fn pad_keys_follow_one_another(digit: int)
    requires
        0 <= digit <= 9,
    ensures
        means_code("numpad"@ + number::decimal(digit as nat), 0x60 + digit),
        means_code("num"@ + number::decimal(digit as nat), 0x60 + digit),
        are_in_a_row(
            seq![
                "numpadmultiply"@,
                "numpadadd"@,
                "numpadseparator"@,
                "numpadsubtract"@,
                "numpaddecimal"@,
                "numpaddivide"@,
            ],
            0x6A,
        ),
{
    reveal_strlit("numpad");
    reveal_strlit("num");
    lemma_pad_names();
    lemma_pad_labels_1();
    lemma_pad_labels_2();
    reveal_with_fuel(number::decimal, 1);
    let d = number::decimal(digit as nat);
    let name = "numpad"@ + d;
    assert("numpad"@.is_prefix_of(name));
    assert(name.skip(6) =~= d);
    lemma_numpad_name(name);
    lemma_digit_name(digit);
    let short = "num"@ + d;
    lemma_num_name(short, d);
}

/// The name of a digit of the numeric pad is the digit.
proof fn lemma_digit_name(digit: int)
    requires
        0 <= digit <= 9,
    ensures
        match hotkey::numpad_key_named(number::decimal(digit as nat)) {
            Some((vk, _)) => vk == 0x60 + digit,
            None => false,
        },
{
    lemma_pad_names();
    let d = number::decimal(digit as nat);
    assert(digit == 0 ==> d =~= "0"@);
    assert(digit == 1 ==> d =~= "1"@);
    assert(digit == 2 ==> d =~= "2"@);
    assert(digit == 3 ==> d =~= "3"@);
    assert(digit == 4 ==> d =~= "4"@);
    assert(digit == 5 ==> d =~= "5"@);
    assert(digit == 6 ==> d =~= "6"@);
    assert(digit == 7 ==> d =~= "7"@);
    assert(digit == 8 ==> d =~= "8"@);
    assert(digit == 9 ==> d =~= "9"@);
}

/// A name that begins with `num` and goes on with a digit is looked up by the
/// digit.
proof fn lemma_num_name(name: Seq<char>, key: Seq<char>)
    requires
        name == "num"@ + key,
        key.len() == 1,
    ensures
        hotkey::named_key(name) == hotkey::numpad_key_named(key),
{
    reveal(hotkey::named_key);
    reveal_strlit("numpad");
    reveal_strlit("num");
    lemma_names();
    assert(name[0] == 'n' && name.len() == 4);
    assert("num"@.is_prefix_of(name));
    assert(name.skip(3) =~= key);
}

// ---------------------------------------------------------------------------
// Labels of hotkeys
// ---------------------------------------------------------------------------

/// The labels of modifiers.
pub open spec fn labels(modifiers: Seq<Modifier>) -> Seq<Seq<char>> {
    modifiers.map_values(|m: Modifier| m.label())
}

/// The flags of modifiers.
pub open spec fn flags(modifiers: Seq<Modifier>) -> u32 {
    ((if modifiers.contains(Modifier::Alt) {
        hotkey::MOD_ALT as int
    } else {
        0
    }) + (if modifiers.contains(Modifier::Ctrl) {
        hotkey::MOD_CONTROL as int
    } else {
        0
    }) + (if modifiers.contains(Modifier::Shift) {
        hotkey::MOD_SHIFT as int
    } else {
        0
    }) + (if modifiers.contains(Modifier::Win) {
        hotkey::MOD_WIN as int
    } else {
        0
    })) as u32
}

/// The text of a hotkey: the labels of the modifiers and that of the key, with
/// plus signs between them.
pub open spec fn hotkey_label(modifiers: Seq<Modifier>, key: Seq<char>) -> Seq<char> {
    text::joined(labels(modifiers).push(key), "+"@)
}

proof fn lemma_modifier_label(m: Modifier)
    ensures
        hotkey::modifier_named(text::lowered(m.label())) == Some(m),
        m.label().len() > 0,
        text::trimmed(m.label()) == m.label(),
        !m.label().contains('+'),
{
    reveal_strlit("Alt");
    reveal_strlit("Ctrl");
    reveal_strlit("Shift");
    reveal_strlit("Win");
    reveal_strlit("alt");
    reveal_strlit("ctrl");
    reveal_strlit("shift");
    reveal_strlit("win");
    lemma_modifiers();
    assert(text::lowered("Alt"@) =~= "alt"@);
    assert(text::lowered("Ctrl"@) =~= "ctrl"@);
    assert(text::lowered("Shift"@) =~= "shift"@);
    assert(text::lowered("Win"@) =~= "win"@);
    lemma_trimmed_same(m.label());
}

proof fn lemma_filter_parts(
    parts: Seq<Seq<char>>,
    last: Seq<char>,
    p: spec_fn(Seq<char>) -> bool,
    q: spec_fn(Seq<char>) -> bool,
)
    requires
        forall|i: int| 0 <= i < parts.len() ==> p(#[trigger] parts[i]) && !q(parts[i]),
        !p(last),
        q(last),
    ensures
        parts.filter(p) == parts,
        parts.filter(q) == Seq::<Seq<char>>::empty(),
        parts.push(last).filter(p) == parts,
        parts.push(last).filter(q) == seq![last],
    decreases parts.len(),
{
    reveal(Seq::filter);
    if parts.len() > 0 {
        lemma_filter_parts(parts.drop_last(), last, p, q);
        assert(parts.drop_last().push(parts.last()) =~= parts);
    }
    assert(parts.push(last).drop_last() =~= parts);
    assert(Seq::<Seq<char>>::empty().push(last) =~= seq![last]);
}

proof fn lemma_filter_keeps(parts: Seq<Seq<char>>, p: spec_fn(Seq<char>) -> bool)
    requires
        forall|i: int| 0 <= i < parts.len() ==> p(#[trigger] parts[i]),
    ensures
        parts.filter(p) == parts,
    decreases parts.len(),
{
    reveal(Seq::filter);
    if parts.len() > 0 {
        lemma_filter_keeps(parts.drop_last(), p);
        assert(parts.drop_last().push(parts.last()) =~= parts);
    }
}

/// The text that the labels of modifiers and of a key make up is read as just
/// these, and it is the label of what is read.
pub proof fn hotkey_label_reads_back(modifiers: Seq<Modifier>, key: Seq<char>, vk: u32)
    requires
        is_key_label(key, vk),
    ensures
        hotkey::hotkey_of(hotkey_label(modifiers, key)) == Ok::<HotkeyView, HotkeyFault>(
            HotkeyView {
                modifiers: flags(modifiers),
                vk,
                label: hotkey_label(modifiers, key),
            },
        ),
{
    reveal(is_key_label);
    let parts = labels(modifiers).push(key);
    let whole = hotkey_label(modifiers, key);
    assert forall|i: int| 0 <= i < parts.len() implies {
        let part = #[trigger] parts[i];
        part.len() > 0 && text::trimmed(part) == part && !part.contains('+')
    } by {
        if i < modifiers.len() {
            lemma_modifier_label(modifiers[i]);
            assert(parts[i] == modifiers[i].label());
        }
    }
    reveal_strlit("+");
    assert("+"@ =~= seq!['+']);
    text::lemma_split_joined(parts, '+');
    let trim = |part: Seq<char>| text::trimmed(part);
    assert(parts.map_values(trim) =~= parts);
    lemma_filter_keeps(parts, |part: Seq<char>| part.len() > 0);
    assert(hotkey::hotkey_parts(whole) == parts);
    assert forall|i: int| 0 <= i < modifiers.len() implies hotkey::modifier_named(
        text::lowered(#[trigger] labels(modifiers)[i]),
    ) == Some(modifiers[i]) by {
        lemma_modifier_label(modifiers[i]);
    }
    lemma_filter_parts(
        labels(modifiers),
        key,
        |part: Seq<char>| hotkey::is_modifier(part),
        |part: Seq<char>| !hotkey::is_modifier(part),
    );
    assert(hotkey::modifier_parts(parts) == labels(modifiers));
    assert(hotkey::key_parts(parts) == seq![key]);
    assert(hotkey::modifier_labels(parts) =~= labels(modifiers));
    lemma_flag(modifiers, key, Modifier::Alt);
    lemma_flag(modifiers, key, Modifier::Ctrl);
    lemma_flag(modifiers, key, Modifier::Shift);
    lemma_flag(modifiers, key, Modifier::Win);
}

proof fn lemma_flag(modifiers: Seq<Modifier>, key: Seq<char>, m: Modifier)
    requires
        !hotkey::is_modifier(key),
    ensures
        hotkey::has_modifier(labels(modifiers).push(key), m) == modifiers.contains(m),
{
    let parts = labels(modifiers).push(key);
    if modifiers.contains(m) {
        let i = choose|i: int| 0 <= i < modifiers.len() && modifiers[i] == m;
        lemma_modifier_label(m);
        assert(parts[i] == m.label());
    }
    if hotkey::has_modifier(parts, m) {
        let i = choose|i: int|
            0 <= i < parts.len() && hotkey::modifier_named(text::lowered(#[trigger] parts[i]))
                == Some(m);
        assert(i < modifiers.len());
        lemma_modifier_label(modifiers[i]);
        assert(parts[i] == modifiers[i].label());
        assert(modifiers[i] == m);
    }
}

/// The label of a hotkey is a text of the same hotkey, and its own label.
pub proof fn label_is_a_text_of_its_hotkey(spec: Seq<char>)
    ensures
        match hotkey::hotkey_of(spec) {
            Ok(hotkey) => hotkey::hotkey_of(hotkey.label) == Ok::<HotkeyView, HotkeyFault>(hotkey),
            Err(_) => true,
        },
{
    let parts = hotkey::hotkey_parts(spec);
    if hotkey::hotkey_of(spec) is Ok {
        let keys = hotkey::key_parts(parts);
        let named = hotkey::modifier_parts(parts);
        let p = |part: Seq<char>| hotkey::is_modifier(part);
        let modifiers = named.map_values(
            |part: Seq<char>| hotkey::modifier_named(text::lowered(part))->0,
        );
        let (vk, label) = hotkey::key_named(text::lowered(keys[0]))->0;
        key_label_names_key(text::lowered(keys[0]));
        assert(labels(modifiers) =~= hotkey::modifier_labels(parts));
        broadcast use vstd::seq_lib::group_filter_ensures;

        assert forall|m: Modifier| hotkey::has_modifier(parts, m) == #[trigger] modifiers.contains(
            m,
        ) by {
            if hotkey::has_modifier(parts, m) {
                let i = choose|i: int|
                    0 <= i < parts.len() && hotkey::modifier_named(
                        text::lowered(#[trigger] parts[i]),
                    ) == Some(m);
                assert(p(parts[i]));
                assert(named.contains(parts[i]));
                let k = choose|k: int| 0 <= k < named.len() && named[k] == parts[i];
                assert(modifiers[k] == m);
            }
            if modifiers.contains(m) {
                let k = choose|k: int| 0 <= k < modifiers.len() && modifiers[k] == m;
                assert(p(named[k]));
                lemma_filter_from(parts, p, k);
                let i = choose|i: int| 0 <= i < parts.len() && parts[i] == named[k];
                assert(hotkey::modifier_named(text::lowered(parts[i])) == Some(m));
            }
        }
        assert(flags(modifiers) == hotkey::modifier_flags(parts));
        hotkey_label_reads_back(modifiers, label, vk);
    }
}

/// Some part between the plus signs of a text is the name, whatever the case of
/// its letters and the white space around it.
pub open spec fn has_part_named(spec: Seq<char>, name: Seq<char>) -> bool {
    exists|i: int|
        0 <= i < text::split_on(spec, '+').len() && text::lowered(
            text::trimmed(#[trigger] text::split_on(spec, '+')[i]),
        ) == name
}

proof fn lemma_part_named(spec: Seq<char>, name: Seq<char>)
    requires
        name.len() > 0,
    ensures
        has_part_named(spec, name) <==> exists|j: int|
            0 <= j < hotkey::hotkey_parts(spec).len() && text::lowered(
                #[trigger] hotkey::hotkey_parts(spec)[j],
            ) == name,
{
    broadcast use vstd::seq_lib::group_filter_ensures;

    let split = text::split_on(spec, '+');
    let trim = |part: Seq<char>| text::trimmed(part);
    let full = |part: Seq<char>| part.len() > 0;
    let all = split.map_values(trim);
    let parts = hotkey::hotkey_parts(spec);
    assert(parts == all.filter(full));
    if has_part_named(spec, name) {
        let i = choose|i: int|
            0 <= i < split.len() && text::lowered(text::trimmed(#[trigger] split[i])) == name;
        assert(all[i] == text::trimmed(split[i]));
        assert(full(all[i]));
        assert(parts.contains(all[i]));
        let j = choose|j: int| 0 <= j < parts.len() && parts[j] == all[i];
        assert(text::lowered(parts[j]) == name);
    }
    if exists|j: int| 0 <= j < parts.len() && text::lowered(#[trigger] parts[j]) == name {
        let j = choose|j: int| 0 <= j < parts.len() && text::lowered(#[trigger] parts[j]) == name;
        lemma_filter_from(all, full, j);
        let i = choose|i: int| 0 <= i < all.len() && all[i] == parts[j];
        assert(text::trimmed(split[i]) == all[i]);
    }
}

/// The flags of a hotkey say which modifiers its text names, wherever they stand
/// and however they are written: one for Alt, two for Ctrl, four for Shift and
/// eight for the Windows key.
pub proof fn flags_say_which_modifiers_are_named(spec: Seq<char>)
    ensures
        match hotkey::hotkey_of(spec) {
            Ok(hotkey) => hotkey.modifiers == (if has_part_named(spec, "alt"@) {
                1int
            } else {
                0
            }) + (if has_part_named(spec, "ctrl"@) || has_part_named(spec, "control"@) {
                2int
            } else {
                0
            }) + (if has_part_named(spec, "shift"@) {
                4int
            } else {
                0
            }) + (if has_part_named(spec, "win"@) || has_part_named(spec, "windows"@)
                || has_part_named(spec, "meta"@) || has_part_named(spec, "super"@) {
                8int
            } else {
                0
            }),
            Err(_) => true,
        },
{
    let parts = hotkey::hotkey_parts(spec);
    lemma_modifiers();
    lemma_part_named(spec, "alt"@);
    lemma_part_named(spec, "ctrl"@);
    lemma_part_named(spec, "control"@);
    lemma_part_named(spec, "shift"@);
    lemma_part_named(spec, "win"@);
    lemma_part_named(spec, "windows"@);
    lemma_part_named(spec, "meta"@);
    lemma_part_named(spec, "super"@);
    assert(hotkey::has_modifier(parts, Modifier::Alt) == has_part_named(spec, "alt"@));
    assert(hotkey::has_modifier(parts, Modifier::Ctrl) == (has_part_named(spec, "ctrl"@)
        || has_part_named(spec, "control"@)));
    assert(hotkey::has_modifier(parts, Modifier::Shift) == has_part_named(spec, "shift"@));
    assert(hotkey::has_modifier(parts, Modifier::Win) == (has_part_named(spec, "win"@)
        || has_part_named(spec, "windows"@) || has_part_named(spec, "meta"@) || has_part_named(
        spec,
        "super"@,
    )));
}

/// The key of a hotkey is the one that a part of its text names, and that part is
/// the only one that names no modifier.
pub proof fn key_is_the_only_other_part(spec: Seq<char>)
    ensures
        match hotkey::hotkey_of(spec) {
            Ok(hotkey) => exists|name: Seq<char>| #[trigger]
                has_part_named(spec, name) && hotkey::modifier_named(name) is None && (
                match hotkey::key_named(name) {
                    Some((vk, _)) => vk == hotkey.vk,
                    None => false,
                }) && forall|other: Seq<char>| #[trigger]
                    has_part_named(spec, other) && other.len() > 0 && hotkey::modifier_named(
                        other,
                    ) is None ==> other == name,
            Err(_) => true,
        },
{
    broadcast use vstd::seq_lib::group_filter_ensures;

    let parts = hotkey::hotkey_parts(spec);
    if hotkey::hotkey_of(spec) is Ok {
        let q = |part: Seq<char>| !hotkey::is_modifier(part);
        let keys = hotkey::key_parts(parts);
        assert(keys == parts.filter(q));
        let name = text::lowered(keys[0]);
        assert(q(keys[0]));
        lemma_filter_from(parts, q, 0);
        let j = choose|j: int| 0 <= j < parts.len() && parts[j] == keys[0];
        lemma_parts_are_full(spec, j);
        lemma_part_named(spec, name);
        assert(has_part_named(spec, name));
        assert forall|other: Seq<char>| #[trigger]
            has_part_named(spec, other) && other.len() > 0 && hotkey::modifier_named(
                other,
            ) is None implies other == name by {
            lemma_part_named(spec, other);
            let i = choose|i: int|
                0 <= i < parts.len() && text::lowered(#[trigger] parts[i]) == other;
            assert(q(parts[i]));
            assert(keys.contains(parts[i]));
            let k = choose|k: int| 0 <= k < keys.len() && keys[k] == parts[i];
            assert(k == 0);
        }
    }
}

/// The first two of the places at which a sequence holds what a filter leaves.
proof fn lemma_filter_places(s: Seq<Seq<char>>, p: spec_fn(Seq<char>) -> bool) -> (places: (
    int,
    int,
))
    ensures
        s.filter(p).len() == 0 <==> forall|i: int| 0 <= i < s.len() ==> !p(#[trigger] s[i]),
        s.filter(p).len() >= 1 ==> {
            &&& 0 <= places.0 < s.len()
            &&& p(s[places.0])
            &&& s.filter(p)[0] == s[places.0]
            &&& forall|i: int| 0 <= i < places.0 ==> !p(#[trigger] s[i])
        },
        s.filter(p).len() == 1 ==> forall|i: int|
            0 <= i < s.len() && p(#[trigger] s[i]) ==> i == places.0,
        s.filter(p).len() >= 2 ==> places.0 < places.1 < s.len() && p(s[places.1]),
    decreases s.len(),
{
    reveal(Seq::filter);
    if s.len() == 0 {
        (0, 0)
    } else {
        let front = s.drop_last();
        let end = s.len() - 1;
        let (a, b) = lemma_filter_places(front, p);
        assert(forall|i: int| 0 <= i < front.len() ==> #[trigger] front[i] == s[i]);
        assert(s[end] == s.last());
        assert forall|i: int| 0 <= i < s.len() && !p(s.last()) && p(#[trigger] s[i]) implies i
            < end && p(front[i]) by {
            assert(i != end);
        }
        if !p(s.last()) {
            if s.filter(p).len() == 0 {
                assert forall|i: int| 0 <= i < s.len() implies !p(#[trigger] s[i]) by {
                    if i < end {
                        assert(front[i] == s[i]);
                    }
                }
            } else {
                assert(front[a] == s[a]);
                assert forall|i: int| 0 <= i < a implies !p(#[trigger] s[i]) by {
                    assert(front[i] == s[i]);
                }
            }
            (a, b)
        } else if front.filter(p).len() == 0 {
            assert forall|i: int| 0 <= i < end implies !p(#[trigger] s[i]) by {
                assert(front[i] == s[i]);
            }
            (end, end)
        } else {
            assert(front[a] == s[a]);
            assert forall|i: int| 0 <= i < a implies !p(#[trigger] s[i]) by {
                assert(front[i] == s[i]);
            }
            (a, end)
        }
    }
}

proof fn lemma_filter_twice(
    s: Seq<Seq<char>>,
    p: spec_fn(Seq<char>) -> bool,
    q: spec_fn(Seq<char>) -> bool,
    both: spec_fn(Seq<char>) -> bool,
)
    requires
        forall|part: Seq<char>| #[trigger] both(part) <==> p(part) && q(part),
    ensures
        s.filter(p).filter(q) == s.filter(both),
    decreases s.len(),
{
    reveal(Seq::filter);
    if s.len() > 0 {
        lemma_filter_twice(s.drop_last(), p, q, both);
        let before = s.drop_last().filter(p);
        assert(both(s.last()) <==> p(s.last()) && q(s.last()));
        if p(s.last()) {
            let more = before.push(s.last());
            assert(more.drop_last() =~= before);
            assert(more.last() == s.last());
        }
    }
}

/// What stands at a place between the plus signs of a text, without the white
/// space around it.
pub open spec fn part_at(spec: Seq<char>, i: int) -> Seq<char> {
    text::trimmed(text::split_on(spec, '+')[i])
}

/// Something stands at a place between the plus signs of a text, and it names no
/// modifier.
pub open spec fn is_key_at(spec: Seq<char>, i: int) -> bool {
    &&& 0 <= i < text::split_on(spec, '+').len()
    &&& part_at(spec, i).len() > 0
    &&& hotkey::modifier_named(text::lowered(part_at(spec, i))) is None
}

/// A text is a hotkey just where it names one key besides its modifiers. A text
/// that names none lacks it; otherwise the first part that is no modifier has to
/// name a key, and has to be the only one.
pub proof fn hotkey_has_one_key(spec: Seq<char>)
    ensures
        match hotkey::hotkey_of(spec) {
            Ok(_) => exists|i: int| #[trigger]
                is_key_at(spec, i) && hotkey::key_named(text::lowered(part_at(spec, i))) is Some
                    && forall|j: int| #[trigger] is_key_at(spec, j) ==> j == i,
            Err(HotkeyFault::MissingKey) => forall|i: int| !#[trigger] is_key_at(spec, i),
            Err(HotkeyFault::UnknownKey(part)) => exists|i: int| #[trigger]
                is_key_at(spec, i) && part == part_at(spec, i) && hotkey::key_named(
                    text::lowered(part),
                ) is None && forall|j: int| #[trigger] is_key_at(spec, j) ==> i <= j,
            Err(HotkeyFault::SecondKey) => exists|i: int, k: int| #[trigger]
                is_key_at(spec, i) && #[trigger] is_key_at(spec, k) && i < k && hotkey::key_named(
                    text::lowered(part_at(spec, i)),
                ) is Some && forall|j: int| #[trigger] is_key_at(spec, j) ==> i <= j,
        },
{
    let split = text::split_on(spec, '+');
    let all = split.map_values(|part: Seq<char>| text::trimmed(part));
    let full = |part: Seq<char>| part.len() > 0;
    let q = |part: Seq<char>| !hotkey::is_modifier(part);
    let both = |part: Seq<char>| part.len() > 0 && !hotkey::is_modifier(part);
    let keys = hotkey::key_parts(hotkey::hotkey_parts(spec));
    lemma_filter_twice(all, full, q, both);
    assert(keys == all.filter(both));
    let (first, second) = lemma_filter_places(all, both);
    assert forall|i: int| 0 <= i < all.len() implies #[trigger] all[i] == part_at(spec, i) && (
    both(all[i]) <==> is_key_at(spec, i)) by {}
    if keys.len() == 0 {
        assert forall|i: int| !#[trigger] is_key_at(spec, i) by {
            if is_key_at(spec, i) {
                assert(both(all[i]));
            }
        }
    } else {
        assert(is_key_at(spec, first)) by {
            assert(both(all[first]));
        }
        assert(keys[0] == part_at(spec, first));
        assert forall|j: int| #[trigger] is_key_at(spec, j) implies first <= j by {
            if j < first {
                assert(!both(all[j]));
            }
        }
        if keys.len() == 1 {
            assert forall|j: int| #[trigger] is_key_at(spec, j) implies j == first by {
                assert(both(all[j]));
            }
        } else {
            assert(is_key_at(spec, second)) by {
                assert(both(all[second]));
            }
        }
    }
}

proof fn lemma_parts_are_full(spec: Seq<char>, j: int)
    requires
        0 <= j < hotkey::hotkey_parts(spec).len(),
    ensures
        hotkey::hotkey_parts(spec)[j].len() > 0,
{
    broadcast use vstd::seq_lib::group_filter_ensures;

    let full = |part: Seq<char>| part.len() > 0;
    let all = text::split_on(spec, '+').map_values(|part: Seq<char>| text::trimmed(part));
    assert(hotkey::hotkey_parts(spec) == all.filter(full));
    assert(full(all.filter(full)[j]));
}

proof fn lemma_filter_from(parts: Seq<Seq<char>>, p: spec_fn(Seq<char>) -> bool, k: int)
    requires
        0 <= k < parts.filter(p).len(),
    ensures
        parts.contains(parts.filter(p)[k]),
    decreases parts.len(),
{
    reveal(Seq::filter);
    let front = parts.drop_last();
    if k < front.filter(p).len() {
        lemma_filter_from(front, p, k);
        let i = choose|i: int| 0 <= i < front.len() && front[i] == front.filter(p)[k];
        assert(parts[i] == parts.filter(p)[k]);
    } else {
        assert(parts.last() == parts.filter(p)[k]);
        assert(parts[parts.len() - 1] == parts.filter(p)[k]);
    }
}

/// The default hotkey is the letter V with the control and the Alt key.
pub proof fn default_hotkey_is_valid()
    ensures
        hotkey::hotkey_of("Ctrl+Alt+V"@) == Ok::<HotkeyView, HotkeyFault>(
            HotkeyView {
                modifiers: (hotkey::MOD_CONTROL + hotkey::MOD_ALT) as u32,
                vk: 0x56,
                label: "Ctrl+Alt+V"@,
            },
        ),
{
    reveal_strlit("Ctrl+Alt+V");
    reveal_strlit("Ctrl");
    reveal_strlit("Alt");
    reveal_strlit("+");
    letter_or_digit_names_key('v');
    let modifiers = seq![Modifier::Ctrl, Modifier::Alt];
    let key = seq!['V'];
    hotkey_label_reads_back(modifiers, key, 0x56);
    let parts = labels(modifiers).push(key);
    assert(parts =~= seq!["Ctrl"@, "Alt"@, key]);
    assert(parts.drop_last() =~= seq!["Ctrl"@, "Alt"@]);
    assert(parts.drop_last().drop_last() =~= seq!["Ctrl"@]);
    reveal_with_fuel(text::joined, 3);
    assert(hotkey_label(modifiers, key) =~= "Ctrl+Alt+V"@);
    assert(modifiers[0] == Modifier::Ctrl && modifiers[1] == Modifier::Alt);
    assert(modifiers.contains(Modifier::Ctrl));
    assert(modifiers.contains(Modifier::Alt));
}

// ---------------------------------------------------------------------------
// Recorded hotkeys
// ---------------------------------------------------------------------------

/// The modifiers that are held, in the order of a hotkey text.
pub open spec fn held(control: bool, shift: bool, alt: bool, meta: bool) -> Seq<Modifier> {
    let none = Seq::<Modifier>::empty();
    (if control {
        seq![Modifier::Ctrl]
    } else {
        none
    }) + (if shift {
        seq![Modifier::Shift]
    } else {
        none
    }) + (if alt {
        seq![Modifier::Alt]
    } else {
        none
    }) + (if meta {
        seq![Modifier::Win]
    } else {
        none
    })
}

/// The label is that of some key.
spec fn is_some_label(label: Seq<char>) -> bool {
    exists|vk: u32| #[trigger] is_key_label(label, vk)
}

proof fn lemma_function_labels_1()
    ensures
        is_key_label("F1"@, 0x70),
        is_key_label("F2"@, 0x71),
        is_key_label("F3"@, 0x72),
        is_key_label("F4"@, 0x73),
        is_key_label("F5"@, 0x74),
        is_key_label("F6"@, 0x75),
        is_key_label("F7"@, 0x76),
        is_key_label("F8"@, 0x77),
        is_key_label("F9"@, 0x78),
        is_key_label("F10"@, 0x79),
        is_key_label("F11"@, 0x7a),
        is_key_label("F12"@, 0x7b),
{
    reveal_with_fuel(number::decimal, 2);
    reveal_strlit("F1");
    function_key_names_key(1);
    assert("F1"@ =~= seq!['F'] + number::decimal(1));
    reveal_strlit("F2");
    function_key_names_key(2);
    assert("F2"@ =~= seq!['F'] + number::decimal(2));
    reveal_strlit("F3");
    function_key_names_key(3);
    assert("F3"@ =~= seq!['F'] + number::decimal(3));
    reveal_strlit("F4");
    function_key_names_key(4);
    assert("F4"@ =~= seq!['F'] + number::decimal(4));
    reveal_strlit("F5");
    function_key_names_key(5);
    assert("F5"@ =~= seq!['F'] + number::decimal(5));
    reveal_strlit("F6");
    function_key_names_key(6);
    assert("F6"@ =~= seq!['F'] + number::decimal(6));
    reveal_strlit("F7");
    function_key_names_key(7);
    assert("F7"@ =~= seq!['F'] + number::decimal(7));
    reveal_strlit("F8");
    function_key_names_key(8);
    assert("F8"@ =~= seq!['F'] + number::decimal(8));
    reveal_strlit("F9");
    function_key_names_key(9);
    assert("F9"@ =~= seq!['F'] + number::decimal(9));
    reveal_strlit("F10");
    function_key_names_key(10);
    assert("F10"@ =~= seq!['F'] + number::decimal(10));
    reveal_strlit("F11");
    function_key_names_key(11);
    assert("F11"@ =~= seq!['F'] + number::decimal(11));
    reveal_strlit("F12");
    function_key_names_key(12);
    assert("F12"@ =~= seq!['F'] + number::decimal(12));
}

proof fn lemma_function_labels_2()
    ensures
        is_key_label("F13"@, 0x7c),
        is_key_label("F14"@, 0x7d),
        is_key_label("F15"@, 0x7e),
        is_key_label("F16"@, 0x7f),
        is_key_label("F17"@, 0x80),
        is_key_label("F18"@, 0x81),
        is_key_label("F19"@, 0x82),
        is_key_label("F20"@, 0x83),
        is_key_label("F21"@, 0x84),
        is_key_label("F22"@, 0x85),
        is_key_label("F23"@, 0x86),
        is_key_label("F24"@, 0x87),
{
    reveal_with_fuel(number::decimal, 2);
    reveal_strlit("F13");
    function_key_names_key(13);
    assert("F13"@ =~= seq!['F'] + number::decimal(13));
    reveal_strlit("F14");
    function_key_names_key(14);
    assert("F14"@ =~= seq!['F'] + number::decimal(14));
    reveal_strlit("F15");
    function_key_names_key(15);
    assert("F15"@ =~= seq!['F'] + number::decimal(15));
    reveal_strlit("F16");
    function_key_names_key(16);
    assert("F16"@ =~= seq!['F'] + number::decimal(16));
    reveal_strlit("F17");
    function_key_names_key(17);
    assert("F17"@ =~= seq!['F'] + number::decimal(17));
    reveal_strlit("F18");
    function_key_names_key(18);
    assert("F18"@ =~= seq!['F'] + number::decimal(18));
    reveal_strlit("F19");
    function_key_names_key(19);
    assert("F19"@ =~= seq!['F'] + number::decimal(19));
    reveal_strlit("F20");
    function_key_names_key(20);
    assert("F20"@ =~= seq!['F'] + number::decimal(20));
    reveal_strlit("F21");
    function_key_names_key(21);
    assert("F21"@ =~= seq!['F'] + number::decimal(21));
    reveal_strlit("F22");
    function_key_names_key(22);
    assert("F22"@ =~= seq!['F'] + number::decimal(22));
    reveal_strlit("F23");
    function_key_names_key(23);
    assert("F23"@ =~= seq!['F'] + number::decimal(23));
    reveal_strlit("F24");
    function_key_names_key(24);
    assert("F24"@ =~= seq!['F'] + number::decimal(24));
}

/// The label of a special key is a label of some key, but for the Pause key.
proof fn lemma_special_label(index: int)
    requires
        0 <= index < recorder::SPECIAL_KEYS,
        recorder::special_key_name(index) != "Pause"@,
    ensures
        is_some_label(recorder::special_key_name(index)),
{
    reveal(recorder::special_key_name);
    lemma_labels_1();
    lemma_labels_2();
    lemma_labels_3();
    lemma_labels_4();
    lemma_labels_5();
    lemma_function_labels_1();
    lemma_function_labels_2();
}

proof fn lemma_special_found(key: Seq<char>, from: int) -> (index: int)
    requires
        0 <= from,
        recorder::special_label_from(key, from) is Some,
    ensures
        0 <= index < recorder::SPECIAL_KEYS,
        recorder::special_label_from(key, from) == Some(recorder::special_key_name(index)),
        key == seq![recorder::special_key_char(index)],
    decreases recorder::SPECIAL_KEYS - from,
{
    if key == seq![recorder::special_key_char(from)] {
        from
    } else {
        lemma_special_found(key, from + 1)
    }
}

/// No special key sends a letter or a digit, and those that send a punctuation
/// character are labelled as its key.
proof fn lemma_special_characters(c: char, index: int)
    requires
        0 <= index < recorder::SPECIAL_KEYS,
        recorder::special_key_char(index) == c,
    ensures
        !text::is_alphanumeric(c),
        match hotkey::punctuation_key(c) {
            Some((_, label)) => recorder::special_key_name(index) == label,
            None => true,
        },
{
    reveal(recorder::special_key_char);
    reveal(recorder::special_key_name);
}

/// A letter, a digit or a punctuation character is recorded by the label of the
/// key that it means.
pub proof fn recorded_character_is_its_key(c: char)
    requires
        text::is_alphanumeric(c) || character_name(c) is Some,
    ensures
        match hotkey::key_named(text::lowered(seq![c])) {
            Some((_, label)) => recorder::recorded_label(seq![c]) == Some(label),
            None => false,
        },
{
    let s = seq![c];
    lemma_trimmed_same(s);
    assert(text::lowered(s) =~= seq![text::lower_char(c)]);
    if recorder::special_label_from(s, 0) is Some {
        let index = lemma_special_found(s, 0);
        assert(s[0] == seq![recorder::special_key_char(index)][0]);
        lemma_special_characters(c, index);
    }
    if text::is_alphanumeric(c) {
        letter_or_digit_names_key(c);
        reveal(is_key_label);
        assert(text::lowered(seq![text::upper_char(c)]) =~= seq![text::lower_char(c)]);
    } else {
        character_means_the_key_of_its_name(c);
    }
}

/// The label of a recorded key is a label of some key, but for the Pause key.
proof fn lemma_recorded_label(key: Seq<char>)
    requires
        recorder::recorded_label(key) is Some,
        recorder::recorded_label(key) != Some("Pause"@),
    ensures
        is_some_label(recorder::recorded_label(key)->Some_0),
{
    let text = text::trimmed(key);
    if recorder::special_label_from(text, 0) is Some {
        let index = lemma_special_found(text, 0);
        lemma_special_label(index);
    } else if text::is_alphanumeric(text[0]) {
        letter_or_digit_names_key(text[0]);
    } else {
        lemma_punctuation_label(text[0]);
    }
}

/// A hotkey that was recorded is one, with the modifiers that were held, and
/// what was recorded is its label. The Pause key is recorded, but there is no
/// hotkey with it.
pub proof fn recorded_hotkey_is_valid(
    key: Seq<char>,
    control: bool,
    shift: bool,
    alt: bool,
    meta: bool,
)
    requires
        recorder::recorded_label(key) != Some("Pause"@),
    ensures
        match recorder::recorded_spec(key, control, shift, alt, meta) {
            Some(spec) => match hotkey::hotkey_of(spec) {
                Ok(hotkey) => hotkey.modifiers == flags(held(control, shift, alt, meta))
                    && hotkey.label == spec,
                Err(_) => false,
            },
            None => true,
        },
{
    if recorder::recorded_spec(key, control, shift, alt, meta) is Some {
        let label = recorder::recorded_label(key)->Some_0;
        lemma_recorded_label(key);
        let vk = choose|vk: u32| is_key_label(label, vk);
        let modifiers = held(control, shift, alt, meta);
        assert(labels(modifiers) =~= recorder::held_labels(control, shift, alt, meta));
        hotkey_label_reads_back(modifiers, label, vk);
    }
}

/// What was recorded is a key with a label and at least one modifier, and is written
/// as the modifiers that were held and the key behind them: Ctrl, then Shift, then
/// Alt, then Win, each with a plus sign behind it.
pub proof fn recorded_text_names_what_was_held(
    key: Seq<char>,
    control: bool,
    shift: bool,
    alt: bool,
    meta: bool,
)
    ensures
        recorder::recorded_spec(key, control, shift, alt, meta) is Some
            <==> recorder::recorded_label(key) is Some && (control || shift || alt || meta),
        match recorder::recorded_label(key) {
            Some(label) => {
                &&& control ==> recorder::recorded_spec(key, control, shift, alt, meta) == Some(
                    "Ctrl+"@ + (if shift || alt || meta {
                        recorder::recorded_spec(key, false, shift, alt, meta)->Some_0
                    } else {
                        label
                    }),
                )
                &&& shift ==> recorder::recorded_spec(key, false, shift, alt, meta) == Some(
                    "Shift+"@ + (if alt || meta {
                        recorder::recorded_spec(key, false, false, alt, meta)->Some_0
                    } else {
                        label
                    }),
                )
                &&& alt ==> recorder::recorded_spec(key, false, false, alt, meta) == Some(
                    "Alt+"@ + (if meta {
                        recorder::recorded_spec(key, false, false, false, meta)->Some_0
                    } else {
                        label
                    }),
                )
                &&& meta ==> recorder::recorded_spec(key, false, false, false, meta) == Some(
                    "Win+"@ + label,
                )
            },
            None => true,
        },
{
    if recorder::recorded_label(key) is Some {
        let label = recorder::recorded_label(key)->Some_0;
        let none = Seq::<Seq<char>>::empty();
        let after_ctrl = recorder::held_labels(false, shift, alt, meta).push(label);
        let after_shift = recorder::held_labels(false, false, alt, meta).push(label);
        let after_alt = recorder::held_labels(false, false, false, meta).push(label);
        let after_win = none.push(label);
        reveal_strlit("+");
        reveal_strlit("Ctrl");
        reveal_strlit("Ctrl+");
        reveal_strlit("Shift");
        reveal_strlit("Shift+");
        reveal_strlit("Alt");
        reveal_strlit("Alt+");
        reveal_strlit("Win");
        reveal_strlit("Win+");
        assert("Ctrl+"@ =~= "Ctrl"@ + "+"@);
        assert("Shift+"@ =~= "Shift"@ + "+"@);
        assert("Alt+"@ =~= "Alt"@ + "+"@);
        assert("Win+"@ =~= "Win"@ + "+"@);
        text::lemma_joined_apart(seq!["Ctrl"@], after_ctrl, "+"@);
        text::lemma_joined_apart(seq!["Shift"@], after_shift, "+"@);
        text::lemma_joined_apart(seq!["Alt"@], after_alt, "+"@);
        text::lemma_joined_apart(seq!["Win"@], after_win, "+"@);
        assert(text::joined(after_win, "+"@) == label);
        if control {
            assert(recorder::held_labels(control, shift, alt, meta).push(label) =~= seq!["Ctrl"@]
                + after_ctrl);
            assert(!shift && !alt && !meta ==> after_ctrl =~= after_win);
        }
        if shift {
            assert(after_ctrl =~= seq!["Shift"@] + after_shift);
            assert(!alt && !meta ==> after_shift =~= after_win);
        }
        if alt {
            assert(after_shift =~= seq!["Alt"@] + after_alt);
            assert(!meta ==> after_alt =~= after_win);
        }
        if meta {
            assert(after_alt =~= seq!["Win"@] + after_win);
        }
    }
}

/// The flags of the modifiers that are held are the sum of those of each.
pub proof fn held_flags(control: bool, shift: bool, alt: bool, meta: bool)
    ensures
        flags(held(control, shift, alt, meta)) == (if alt {
            hotkey::MOD_ALT as int
        } else {
            0
        }) + (if control {
            hotkey::MOD_CONTROL as int
        } else {
            0
        }) + (if shift {
            hotkey::MOD_SHIFT as int
        } else {
            0
        }) + (if meta {
            hotkey::MOD_WIN as int
        } else {
            0
        }),
{
    let modifiers = held(control, shift, alt, meta);
    assert(control ==> modifiers[0] == Modifier::Ctrl);
    let second = if control {
        1int
    } else {
        0int
    };
    assert(shift ==> modifiers[second] == Modifier::Shift);
    let third = if shift {
        second + 1
    } else {
        second
    };
    assert(alt ==> modifiers[third] == Modifier::Alt);
    let fourth = if alt {
        third + 1
    } else {
        third
    };
    assert(meta ==> modifiers[fourth] == Modifier::Win);
}

} // verus!
