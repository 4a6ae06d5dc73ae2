//! Settings: named values, and what each of them means.

use crate::number;
use crate::text;
use vstd::prelude::*;

verus! {

// ---------------------------------------------------------------------------
// Settings by their names
// ---------------------------------------------------------------------------

/// A setting: a name and a value.
#[derive(Debug)]
pub struct Setting {
    pub key: String,
    pub value: String,
}

/// No two settings have the same name.
pub open spec fn distinct_keys(settings: Seq<Setting>) -> bool {
    forall|i: int, j: int|
        0 <= i < settings.len() && 0 <= j < settings.len() && #[trigger] settings[i].key@
            == #[trigger] settings[j].key@ ==> i == j
}

/// The settings by their names.
pub open spec fn by_key(settings: Seq<Setting>) -> Map<Seq<char>, Seq<char>> {
    Map::new(
        |key: Seq<char>|
            exists|i: int| 0 <= i < settings.len() && #[trigger] settings[i].key@ == key,
        |key: Seq<char>|
            settings[choose|i: int|
                0 <= i < settings.len() && #[trigger] settings[i].key@ == key].value@,
    )
}

/// To append a setting with a new name is to insert it.
pub proof fn lemma_settings_push(settings: Seq<Setting>, one: Setting)
    requires
        distinct_keys(settings),
        forall|i: int| 0 <= i < settings.len() ==> #[trigger] settings[i].key@ != one.key@,
    ensures
        distinct_keys(settings.push(one)),
        by_key(settings.push(one)) == by_key(settings).insert(one.key@, one.value@),
{
    let after = settings.push(one);
    assert forall|i: int, j: int|
        0 <= i < after.len() && 0 <= j < after.len() && #[trigger] after[i].key@
            == #[trigger] after[j].key@ implies i == j by {
        if i < settings.len() && j < settings.len() {
            assert(settings[i].key@ == settings[j].key@);
        }
    }
    let right = by_key(settings).insert(one.key@, one.value@);
    assert forall|key: Seq<char>|
        (#[trigger] by_key(after).contains_key(key) <==> right.contains_key(key)) && (by_key(
            after,
        ).contains_key(key) ==> by_key(after)[key] == right[key]) by {
        assert(after[settings.len() as int].key@ == one.key@);
        if by_key(after).contains_key(key) {
            let i = choose|i: int| 0 <= i < after.len() && #[trigger] after[i].key@ == key;
            lemma_setting(after, i);
            if i < settings.len() {
                assert(settings[i].key@ == key);
                lemma_setting(settings, i);
            }
        }
        if by_key(settings).contains_key(key) {
            let i = choose|i: int| 0 <= i < settings.len() && #[trigger] settings[i].key@ == key;
            assert(after[i].key@ == key);
        }
    }
    assert(by_key(after) =~= right);
}

/// To change the value of a setting is to replace it.
pub proof fn lemma_settings_update(settings: Seq<Setting>, at: int, one: Setting)
    requires
        distinct_keys(settings),
        0 <= at < settings.len(),
        settings[at].key@ == one.key@,
    ensures
        distinct_keys(settings.update(at, one)),
        by_key(settings.update(at, one)) == by_key(settings).insert(one.key@, one.value@),
{
    let after = settings.update(at, one);
    assert forall|i: int, j: int|
        0 <= i < after.len() && 0 <= j < after.len() && #[trigger] after[i].key@
            == #[trigger] after[j].key@ implies i == j by {
        assert(settings[i].key@ == settings[j].key@);
    }
    let right = by_key(settings).insert(one.key@, one.value@);
    assert forall|key: Seq<char>|
        (#[trigger] by_key(after).contains_key(key) <==> right.contains_key(key)) && (by_key(
            after,
        ).contains_key(key) ==> by_key(after)[key] == right[key]) by {
        assert(after[at].key@ == one.key@);
        if by_key(after).contains_key(key) {
            let i = choose|i: int| 0 <= i < after.len() && #[trigger] after[i].key@ == key;
            lemma_setting(after, i);
            assert(settings[i].key@ == key);
            lemma_setting(settings, i);
        }
        if by_key(settings).contains_key(key) {
            let i = choose|i: int| 0 <= i < settings.len() && #[trigger] settings[i].key@ == key;
            assert(after[i].key@ == key);
        }
    }
    assert(by_key(after) =~= right);
}

pub proof fn lemma_setting(settings: Seq<Setting>, i: int)
    requires
        distinct_keys(settings),
        0 <= i < settings.len(),
    ensures
        by_key(settings).contains_key(settings[i].key@),
        by_key(settings)[settings[i].key@] == settings[i].value@,
{
    let key = settings[i].key@;
    let k = choose|k: int| 0 <= k < settings.len() && #[trigger] settings[k].key@ == key;
    assert(k == i);
}


// ---------------------------------------------------------------------------
// What the settings mean
// ---------------------------------------------------------------------------

/// How many clips that are not pinned are kept by default.
pub const DEFAULT_RETENTION_LIMIT: i64 = 100;

/// The lowest limit that can be set.
pub const MIN_RETENTION_LIMIT: i64 = 10;

/// The highest limit that can be set.
pub const MAX_RETENTION_LIMIT: i64 = 10_000;

/// The number in the range of the limits that is nearest to `n`.
pub open spec fn clamped_limit(n: int) -> int {
    if n < MIN_RETENTION_LIMIT {
        MIN_RETENTION_LIMIT as int
    } else if n > MAX_RETENTION_LIMIT {
        MAX_RETENTION_LIMIT as int
    } else {
        n
    }
}

/// Brings a number into the range of the limits.
pub fn clamp_limit(n: i64) -> (r: i64)
    ensures
        r == clamped_limit(n as int),
{
    if n < MIN_RETENTION_LIMIT {
        MIN_RETENTION_LIMIT
    } else if n > MAX_RETENTION_LIMIT {
        MAX_RETENTION_LIMIT
    } else {
        n
    }
}

/// The limit that the settings give: the default where none is set or where it
/// is no number, and always within the range of the limits.
pub open spec fn retention(settings: Map<Seq<char>, Seq<char>>) -> int {
    if settings.contains_key("retention_limit"@) {
        match number::signed_value(settings["retention_limit"@]) {
            Some(n) => clamped_limit(n),
            None => clamped_limit(DEFAULT_RETENTION_LIMIT as int),
        }
    } else {
        clamped_limit(DEFAULT_RETENTION_LIMIT as int)
    }
}

/// The hotkey that the settings give: the default where none is set or where it
/// is blank.
pub open spec fn hotkey_text(settings: Map<Seq<char>, Seq<char>>) -> Seq<char> {
    if settings.contains_key("hotkey"@) && text::trimmed(settings["hotkey"@]).len() > 0 {
        settings["hotkey"@]
    } else {
        "Ctrl+Alt+V"@
    }
}

/// Whether a selected clip is pasted: unless the settings say `false`.
pub open spec fn pastes_on_select(settings: Map<Seq<char>, Seq<char>>) -> bool {
    settings.contains_key("paste_on_select"@) ==> settings["paste_on_select"@] != "false"@
}

/// Whether the introduction was seen: only where the settings say `true`.
pub open spec fn has_seen_onboarding(settings: Map<Seq<char>, Seq<char>>) -> bool {
    settings.contains_key("onboarding_seen"@) && settings["onboarding_seen"@] == "true"@
}

/// Whether to start with Windows, if the settings say so either way.
pub open spec fn startup_preference(settings: Map<Seq<char>, Seq<char>>) -> Option<bool> {
    if settings.contains_key("start_with_windows"@) {
        Some(settings["start_with_windows"@] != "false"@)
    } else {
        None
    }
}

/// The theme that the settings give: that of the system where none is set.
pub open spec fn theme_text(settings: Map<Seq<char>, Seq<char>>) -> Seq<char> {
    if settings.contains_key("theme_mode"@) {
        settings["theme_mode"@]
    } else {
        "system"@
    }
}

/// How a switch is written.
pub open spec fn switch(on: bool) -> Seq<char> {
    if on {
        "true"@
    } else {
        "false"@
    }
}

/// Writes a switch.
pub fn switch_text(on: bool) -> (r: String)
    ensures
        r@ == switch(on),
{
    if on {
        "true".to_owned()
    } else {
        "false".to_owned()
    }
}

} // verus!
