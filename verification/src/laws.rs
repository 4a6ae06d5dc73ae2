//! What holds of the history and the settings over several operations.

use crate::clip::{ClipView, RecordView};
use crate::digest;
use crate::history;
use crate::image;
use crate::image::ImageData;
use crate::number;
use crate::search;
use crate::settings;
use crate::store;
use crate::store::StoreView;
use crate::text;
use vstd::prelude::*;
use vstd::utf8::*;

verus! {

// ---------------------------------------------------------------------------
// Copied clips
// ---------------------------------------------------------------------------

/// A history into which a clip comes is a history still.
pub proof fn stored_clip_leaves_history(clips: Map<i64, RecordView>, id: i64, row: RecordView)
    requires
        history::is_history(clips),
        store::takes_id(clips, row.content_hash, id),
    ensures
        history::is_history(store::stored(clips, id, row)),
{
    let after = store::stored(clips, id, row);
    assert forall|a: i64, b: i64| #[trigger]
        after.contains_key(a) && #[trigger] after.contains_key(b) && after[a].content_hash
            == after[b].content_hash implies a == b by {
        if !store::holds_content(clips, row.content_hash) {
            assert(clips.contains_key(a) ==> clips[a].content_hash != row.content_hash);
            assert(clips.contains_key(b) ==> clips[b].content_hash != row.content_hash);
        }
    }
}

/// A clip that has just been copied is in the history, whatever is pruned,
/// where every other clip is older.
pub proof fn copied_clip_is_kept(
    clips: Map<i64, RecordView>,
    settings: Map<Seq<char>, Seq<char>>,
    id: i64,
    row: RecordView,
)
    requires
        history::is_history(clips),
        store::takes_id(clips, row.content_hash, id),
        forall|other: i64| #[trigger]
            clips.contains_key(other) && other != id ==> clips[other].created_at < row.created_at,
    ensures
        ({
            let after = history::pruned(
                store::stored(clips, id, row),
                settings::retention(settings),
            );
            after.contains_key(id) && after[id] == store::stored(clips, id, row)[id]
                && after[id].kind == row.kind && after[id].text_content == row.text_content
                && after[id].image_bytes == row.image_bytes && after[id].created_at
                == row.created_at
        }),
{
    let all = store::stored(clips, id, row);
    stored_clip_leaves_history(clips, id, row);
    assert(history::newer(all, id) =~= Set::<i64>::empty());
}

/// Where a query shows a clip that has just been copied, the clip stands before
/// all others of the list that are not pinned.
pub proof fn copied_clip_leads(
    clips: Map<i64, RecordView>,
    query: Seq<char>,
    limit: int,
    listing: Seq<ClipView>,
    id: i64,
    at: int,
)
    requires
        history::is_history(clips),
        history::is_listing(clips, query, limit, listing),
        clips.contains_key(id),
        clips[id].pinned == 0,
        history::is_visible(clips[id], query),
        forall|other: i64| #[trigger]
            clips.contains_key(other) && other != id ==> clips[other].created_at
                < clips[id].created_at,
        0 <= at < listing.len(),
        clips[listing[at].id].pinned == 0,
    ensures
        exists|i: int| 0 <= i <= at && #[trigger] listing[i].id == id,
{
    let other = listing[at].id;
    assert(clips.contains_key(other));
    assert(clips[id].id == id && clips[other].id == other);
    if other != id {
        if history::lists(listing, id) {
            let i = choose|i: int| 0 <= i < listing.len() && #[trigger] listing[i].id == id;
            if at < i {
                assert(history::precedes(clips[listing[at].id], clips[listing[i].id]));
            }
        } else {
            assert(history::precedes(clips[listing[at].id], clips[id]));
        }
    }
}

/// A content that is in the history comes in under the same id again.
pub proof fn same_content_keeps_its_id(
    clips: Map<i64, RecordView>,
    limit: int,
    id: i64,
    row: RecordView,
    again: i64,
)
    requires
        history::is_history(clips),
        store::takes_id(clips, row.content_hash, id),
        history::pruned(store::stored(clips, id, row), limit).contains_key(id),
        store::takes_id(
            history::pruned(store::stored(clips, id, row), limit),
            row.content_hash,
            again,
        ),
    ensures
        again == id,
{
    let all = store::stored(clips, id, row);
    let after = history::pruned(all, limit);
    stored_clip_leaves_history(clips, id, row);
    history::pruning_leaves_history(all, limit);
    assert(after[id].content_hash == row.content_hash);
    assert(store::holds_content(after, row.content_hash));
}

/// A content that comes in again keeps its pin and its record of use.
pub proof fn same_content_keeps_pin_and_use(
    clips: Map<i64, RecordView>,
    id: i64,
    row: RecordView,
)
    requires
        history::is_history(clips),
        store::holds_content(clips, row.content_hash),
        store::takes_id(clips, row.content_hash, id),
    ensures
        store::stored(clips, id, row)[id].pinned == clips[id].pinned,
        store::stored(clips, id, row)[id].use_count == clips[id].use_count,
        store::stored(clips, id, row)[id].last_used_at == clips[id].last_used_at,
        store::stored(clips, id, row).dom() == clips.dom(),
{
    assert(store::stored(clips, id, row).dom() =~= clips.dom());
}

/// After a clip is copied, no more clips than the limit are not pinned, and all
/// pinned clips are there as they were but for the copied one.
pub proof fn copying_respects_limit_and_pins(
    clips: Map<i64, RecordView>,
    settings: Map<Seq<char>, Seq<char>>,
    id: i64,
    row: RecordView,
    pinned: i64,
)
    requires
        history::is_history(clips),
        store::takes_id(clips, row.content_hash, id),
        clips.contains_key(pinned),
        clips[pinned].pinned != 0,
        pinned != id,
    ensures
        ({
            let after = history::pruned(
                store::stored(clips, id, row),
                settings::retention(settings),
            );
            &&& history::unpinned(after).len() <= settings::retention(settings)
            &&& after.contains_key(pinned)
            &&& after[pinned] == clips[pinned]
        }),
{
    let all = store::stored(clips, id, row);
    stored_clip_leaves_history(clips, id, row);
    history::limit_bounds_unpinned(all, settings::retention(settings));
    history::pinned_clips_are_kept(all, settings::retention(settings), pinned);
}

/// To pin and unpin a clip leaves the history as it was.
pub proof fn toggling_twice_changes_nothing(clips: Map<i64, RecordView>, id: i64)
    requires
        clips.contains_key(id) ==> 0 <= clips[id].pinned <= 1,
    ensures
        store::toggled(store::toggled(clips, id), id) == clips,
{
    let twice = store::toggled(store::toggled(clips, id), id);
    if clips.contains_key(id) {
        assert(twice[id] == clips[id]);
    }
    assert(twice =~= clips);
}

/// A clip that was deleted is in no list.
pub proof fn deleted_clip_is_not_listed(
    clips: Map<i64, RecordView>,
    query: Seq<char>,
    limit: int,
    listing: Seq<ClipView>,
    id: i64,
)
    requires
        history::is_listing(clips.remove(id), query, limit, listing),
    ensures
        !history::lists(listing, id),
{
    if history::lists(listing, id) {
        let i = choose|i: int| 0 <= i < listing.len() && #[trigger] listing[i].id == id;
        assert(clips.remove(id).contains_key(listing[i].id));
    }
}

/// A clip that is pinned stays when the others are cleared; one that is not
/// goes.
pub proof fn clearing_keeps_only_pinned(clips: Map<i64, RecordView>, id: i64)
    requires
        clips.contains_key(id),
    ensures
        store::only_pinned(clips).contains_key(id) <==> clips[id].pinned != 0,
        clips[id].pinned != 0 ==> store::only_pinned(clips)[id] == clips[id],
{
}

// ---------------------------------------------------------------------------
// Settings
// ---------------------------------------------------------------------------

/// The limit that was set is the one in force, brought into its range.
pub proof fn retention_reads_back(settings: Map<Seq<char>, Seq<char>>, value: i64)
    ensures
        settings::retention(
            settings.insert(
                "retention_limit"@,
                number::signed_decimal(settings::clamped_limit(value as int)),
            ),
        ) == settings::clamped_limit(value as int),
        10 <= settings::clamped_limit(value as int) <= 10_000,
{
    number::signed_text_reads_back(settings::clamped_limit(value as int) as i64);
}

/// The limit in force is always in its range.
pub proof fn retention_is_in_range(settings: Map<Seq<char>, Seq<char>>)
    ensures
        10 <= settings::retention(settings) <= 10_000,
{
}

/// The hotkey that was set is the one in force, unless it is blank.
pub proof fn hotkey_reads_back(settings: Map<Seq<char>, Seq<char>>, value: Seq<char>)
    ensures
        ({
            let typed = text::trimmed(value);
            let hotkey = settings::hotkey_text(settings.insert("hotkey"@, typed));
            if typed.len() > 0 {
                hotkey == typed
            } else {
                hotkey == "Ctrl+Alt+V"@
            }
        }),
{
    text::trimmed_text_stays(value);
}

/// A switch that was set is read as it was set.
pub proof fn switches_read_back(settings: Map<Seq<char>, Seq<char>>, on: bool)
    ensures
        settings::pastes_on_select(settings.insert("paste_on_select"@, settings::switch(on))) == on,
        settings::has_seen_onboarding(settings.insert("onboarding_seen"@, settings::switch(on)))
            == on,
        settings::startup_preference(settings.insert("start_with_windows"@, settings::switch(on)))
            == Some(on),
{
    reveal_strlit("true");
    reveal_strlit("false");
    assert("true"@.len() != "false"@.len());
}

/// To set one setting leaves what the others say.
pub proof fn settings_are_independent(
    settings: Map<Seq<char>, Seq<char>>,
    key: Seq<char>,
    value: Seq<char>,
)
    ensures
        ({
            let after = settings.insert(key, value);
            &&& key != "retention_limit"@ ==> settings::retention(after) == settings::retention(
                settings,
            )
            &&& key != "hotkey"@ ==> settings::hotkey_text(after) == settings::hotkey_text(settings)
            &&& key != "paste_on_select"@ ==> settings::pastes_on_select(after)
                == settings::pastes_on_select(settings)
            &&& key != "onboarding_seen"@ ==> settings::has_seen_onboarding(after)
                == settings::has_seen_onboarding(settings)
            &&& key != "start_with_windows"@ ==> settings::startup_preference(after)
                == settings::startup_preference(settings)
            &&& key != "theme_mode"@ ==> settings::theme_text(after) == settings::theme_text(
                settings,
            )
        }),
        "retention_limit"@ != "hotkey"@,
        "retention_limit"@ != "paste_on_select"@,
        "retention_limit"@ != "onboarding_seen"@,
        "retention_limit"@ != "start_with_windows"@,
        "hotkey"@ != "paste_on_select"@,
        "hotkey"@ != "onboarding_seen"@,
        "hotkey"@ != "start_with_windows"@,
        "paste_on_select"@ != "onboarding_seen"@,
        "paste_on_select"@ != "start_with_windows"@,
        "onboarding_seen"@ != "start_with_windows"@,
{
    reveal_strlit("retention_limit");
    reveal_strlit("hotkey");
    reveal_strlit("paste_on_select");
    reveal_strlit("onboarding_seen");
    reveal_strlit("start_with_windows");
    assert("hotkey"@.len() < "retention_limit"@.len() < "start_with_windows"@.len());
    assert("retention_limit"@[0] != "paste_on_select"@[0]);
    assert("retention_limit"@[0] != "onboarding_seen"@[0]);
    assert("paste_on_select"@[0] != "onboarding_seen"@[0]);
}

/// Whatever stands in the settings is read: a limit that is a number is brought to
/// the nearest one that can be set, and one that is not counts as a hundred; a
/// hotkey that is not blank and a theme are taken as they are; clips are pasted and
/// the program starts with the system unless that is false, and the introduction
/// counts as seen only where that is true.
pub proof fn any_settings_are_read(settings: Map<Seq<char>, Seq<char>>, text: Seq<char>, n: i64)
    ensures
        settings::retention(settings.insert("retention_limit"@, number::signed_decimal(n as int)))
            == (if n < 10 {
            10
        } else {
            lesser(n as int, 10_000)
        }),
        number::signed_value(text) is None ==> settings::retention(
            settings.insert("retention_limit"@, text),
        ) == 100,
        !settings.contains_key("retention_limit"@) ==> settings::retention(settings) == 100,
        settings::hotkey_text(settings.insert("hotkey"@, text)) == (if is_blank(text) {
            "Ctrl+Alt+V"@
        } else {
            text
        }),
        !settings.contains_key("hotkey"@) ==> settings::hotkey_text(settings) == "Ctrl+Alt+V"@,
        settings::theme_text(settings.insert("theme_mode"@, text)) == text,
        !settings.contains_key("theme_mode"@) ==> settings::theme_text(settings) == "system"@,
        settings::pastes_on_select(settings.insert("paste_on_select"@, text)) <==> text
            != "false"@,
        !settings.contains_key("paste_on_select"@) ==> settings::pastes_on_select(settings),
        settings::has_seen_onboarding(settings.insert("onboarding_seen"@, text)) <==> text
            == "true"@,
        !settings.contains_key("onboarding_seen"@) ==> !settings::has_seen_onboarding(settings),
        settings::startup_preference(settings.insert("start_with_windows"@, text)) == Some(
            text != "false"@,
        ),
        !settings.contains_key("start_with_windows"@) ==> settings::startup_preference(
            settings,
        ) is None,
        settings::switch(true) == "true"@ && settings::switch(false) == "false"@,
{
    number::signed_text_reads_back(n);
    text::blank_is_white_space(text);
}

/// What is set by default.
pub proof fn defaults()
    ensures
        ({
            let none = Map::<Seq<char>, Seq<char>>::empty();
            &&& settings::retention(none) == 100
            &&& settings::hotkey_text(none) == "Ctrl+Alt+V"@
            &&& settings::pastes_on_select(none)
            &&& !settings::has_seen_onboarding(none)
            &&& settings::startup_preference(none) is None
        }),
{
}

// ---------------------------------------------------------------------------
// What a list shows
// ---------------------------------------------------------------------------

/// The query is nothing but white space.
pub open spec fn is_blank(query: Seq<char>) -> bool {
    forall|k: int| 0 <= k < query.len() ==> text::is_white(#[trigger] query[k])
}

/// `LIKE` finds the text by the pattern for the trimmed query.
pub open spec fn like_finds(query: Seq<char>, text: Seq<char>) -> bool {
    search::like(
        text::until_zero(search::pattern(text::trimmed(query))),
        text::until_zero(text),
    )
}

/// A list shows texts and images, whether pinned or not, whose text `LIKE` finds
/// by the query, or all of them where the query is blank; and it shows every such
/// clip unless it is as long as the limit.
pub proof fn list_shows_what_like_finds(
    clips: Map<i64, RecordView>,
    query: Seq<char>,
    limit: int,
    listing: Seq<ClipView>,
)
    requires
        history::is_listing(clips, query, limit, listing),
    ensures
        forall|i: int|
            0 <= i < listing.len() ==> {
                let shown = #[trigger] listing[i];
                &&& clips.contains_key(shown.id)
                &&& shown.text == clips[shown.id].text_content
                &&& shown.kind == "text"@ || shown.kind == "image"@
                &&& is_blank(query) || like_finds(query, shown.text)
            },
        forall|id: i64| #[trigger]
            clips.contains_key(id) && (clips[id].kind == "text"@ || clips[id].kind == "image"@) && (
            is_blank(query) || like_finds(query, clips[id].text_content)) ==> history::lists(
                listing,
                id,
            ) || listing.len() == limit,
        0 <= limit ==> listing.len() <= limit,
{
    let wanted = text::trimmed(query);
    text::blank_is_white_space(query);
    assert forall|i: int| 0 <= i < listing.len() implies {
        let shown = #[trigger] listing[i];
        &&& clips.contains_key(shown.id)
        &&& shown.text == clips[shown.id].text_content
        &&& shown.kind == "text"@ || shown.kind == "image"@
        &&& is_blank(query) || like_finds(query, shown.text)
    } by {
        assert(clips.contains_key(listing[i].id));
        search::pattern_finds_query(wanted, clips[listing[i].id].text_content);
    }
    assert forall|id: i64| #[trigger]
        clips.contains_key(id) && (clips[id].kind == "text"@ || clips[id].kind == "image"@) && (
        is_blank(query) || like_finds(query, clips[id].text_content)) implies history::lists(
        listing,
        id,
    ) || listing.len() == limit by {
        search::pattern_finds_query(wanted, clips[id].text_content);
        assert(history::is_visible(clips[id], query));
    }
}

/// Two characters are the same but for the case of a letter of the Latin
/// alphabet.
pub open spec fn same_letter(a: char, b: char) -> bool {
    ||| a == b
    ||| 'A' <= a <= 'Z' && b as int == a as int + 32
    ||| 'A' <= b <= 'Z' && a as int == b as int + 32
}

/// Among texts and queries without zero characters, a list shows just the clips
/// in whose text the trimmed query stands, letter by letter.
pub proof fn list_shows_texts_that_hold_the_query(
    clips: Map<i64, RecordView>,
    query: Seq<char>,
    limit: int,
    listing: Seq<ClipView>,
    id: i64,
)
    requires
        history::is_listing(clips, query, limit, listing),
        !is_blank(query),
        clips.contains_key(id),
        !text::trimmed(query).contains('\0'),
        !clips[id].text_content.contains('\0'),
    ensures
        ({
            let wanted = text::trimmed(query);
            let text = clips[id].text_content;
            let stands = exists|at: int|
                0 <= at <= text.len() - wanted.len() && #[trigger] stands_in(text, wanted, at);
            &&& history::lists(listing, id) ==> stands
            &&& stands && (clips[id].kind == "text"@ || clips[id].kind == "image"@)
                ==> history::lists(listing, id) || listing.len() == limit
        }),
{
    let wanted = text::trimmed(query);
    let text = clips[id].text_content;
    text::blank_is_white_space(query);
    search::lemma_nothing_to_cut(wanted);
    search::lemma_nothing_to_cut(text);
    let t = text::lowered(text);
    let q = text::lowered(wanted);
    if history::lists(listing, id) {
        let i = choose|i: int| 0 <= i < listing.len() && #[trigger] listing[i].id == id;
        assert(history::is_visible(clips[listing[i].id], query));
        let at = choose|at: int| text::stands_at(t, q, at);
        assert forall|k: int| 0 <= k < wanted.len() implies same_letter(
            text[at + k],
            #[trigger] wanted[k],
        ) by {
            assert(t.subrange(at, at + q.len())[k] == q[k]);
        }
        assert(stands_in(text, wanted, at));
    }
    if exists|at: int|
        0 <= at <= text.len() - wanted.len() && #[trigger] stands_in(text, wanted, at) {
        let at = choose|at: int|
            0 <= at <= text.len() - wanted.len() && #[trigger] stands_in(text, wanted, at);
        assert(t.subrange(at, at + q.len()) =~= q) by {
            assert forall|k: int| 0 <= k < q.len() implies t[at + k] == q[k] by {
                assert(same_letter(text[at + k], wanted[k]));
            }
        }
        assert(text::stands_at(t, q, at));
    }
}

/// The searched text stands in the other one at an index, letter by letter.
pub open spec fn stands_in(text: Seq<char>, wanted: Seq<char>, at: int) -> bool {
    forall|k: int| 0 <= k < wanted.len() ==> same_letter(text[at + k], #[trigger] wanted[k])
}

/// In a list a greater pin flag comes first, then the later time of copying, then
/// the lower id; no clip stands in it twice.
pub proof fn list_is_in_order(
    clips: Map<i64, RecordView>,
    query: Seq<char>,
    limit: int,
    listing: Seq<ClipView>,
    i: int,
    j: int,
)
    requires
        history::is_history(clips),
        history::is_listing(clips, query, limit, listing),
        0 <= i < j < listing.len(),
    ensures
        ({
            let a = clips[listing[i].id];
            let b = clips[listing[j].id];
            &&& a.pinned >= b.pinned
            &&& a.pinned == b.pinned ==> listing[i].created_at >= listing[j].created_at
            &&& a.pinned == b.pinned && listing[i].created_at == listing[j].created_at
                ==> listing[i].id < listing[j].id
            &&& listing[i].id != listing[j].id
        }),
{
    assert(clips.contains_key(listing[i].id) && clips.contains_key(listing[j].id));
    assert(history::precedes(clips[listing[i].id], clips[listing[j].id]));
}

/// A clip is handed out as it is kept: every field is the one of its row, a pin
/// flag other than zero is a pin, and pixels without an encoding are plain. A
/// list leaves out the full image, and nothing else.
pub proof fn clips_are_handed_out_as_kept(row: RecordView)
    ensures
        ({
            let clip = row.clip();
            &&& clip.id == row.id && clip.kind == row.kind && clip.text == row.text_content
            &&& clip.image_bytes == row.image_bytes
            &&& row.image_encoding is Some ==> clip.image_encoding == row.image_encoding->Some_0
            &&& row.image_encoding is None ==> clip.image_encoding == "rgba"@
            &&& clip.image_width == row.image_width && clip.image_height == row.image_height
            &&& clip.thumbnail_bytes == row.thumbnail_bytes
            &&& clip.thumbnail_width == row.thumbnail_width
            &&& clip.thumbnail_height == row.thumbnail_height
            &&& clip.created_at == row.created_at && clip.last_used_at == row.last_used_at
            &&& clip.use_count == row.use_count && clip.pinned == (row.pinned != 0)
            &&& row.summary() == (ClipView { image_bytes: None, ..clip })
        }),
{
}

// ---------------------------------------------------------------------------
// What stays
// ---------------------------------------------------------------------------

/// The ids of the clips that carry no pin.
pub open spec fn loose(clips: Map<i64, RecordView>) -> Set<i64> {
    Set::new(|id: i64| clips.contains_key(id) && clips[id].pinned == 0)
}

/// The lesser of two numbers.
pub open spec fn lesser(a: int, b: int) -> int {
    if a <= b {
        a
    } else {
        b
    }
}

/// Nothing but the oldest clips without a pin leaves a history that is cut down
/// to a number of them: the pinned clips do not count and stay, those that stay
/// are as they were, there are as many as the number where there were more, and
/// none that leaves is newer than one that stays.
pub open spec fn keeps_the_newest(
    before: Map<i64, RecordView>,
    after: Map<i64, RecordView>,
    limit: int,
) -> bool {
    &&& forall|id: i64| #[trigger]
        after.contains_key(id) ==> before.contains_key(id) && after[id] == before[id]
    &&& forall|id: i64| #[trigger]
        before.contains_key(id) && before[id].pinned != 0 ==> after.contains_key(id)
    &&& loose(after).len() == lesser(loose(before).len() as int, limit)
    &&& forall|kept: i64, gone: i64| #[trigger]
        after.contains_key(kept) && after[kept].pinned == 0 && #[trigger] before.contains_key(gone)
            && !after.contains_key(gone) ==> before[gone].created_at <= after[kept].created_at
}

/// To prune is to keep the newest.
pub proof fn pruning_keeps_the_newest(clips: Map<i64, RecordView>, limit: int)
    requires
        history::is_history(clips),
        limit >= 0,
    ensures
        keeps_the_newest(clips, history::pruned(clips, limit), limit),
{
    let after = history::pruned(clips, limit);
    history::limit_bounds_unpinned(clips, limit);
    assert(loose(clips) =~= history::unpinned(clips));
    assert(loose(after) =~= history::unpinned(after));
    assert forall|id: i64| #[trigger]
        clips.contains_key(id) && clips[id].pinned != 0 implies after.contains_key(id) by {
        history::pinned_clips_are_kept(clips, limit, id);
    }
    assert forall|kept: i64, gone: i64| #[trigger]
        after.contains_key(kept) && after[kept].pinned == 0 && #[trigger] clips.contains_key(gone)
            && !after.contains_key(gone) implies clips[gone].created_at
        <= after[kept].created_at by {
        history::newest_clips_are_kept(clips, limit, kept, gone);
    }
}

/// A limit that is set is brought between ten and ten thousand; the newest clips
/// without a pin stay, that many of them whatever is pinned; it is the limit in
/// force from then on, and no other setting changes.
pub proof fn set_limit_keeps_the_newest(before: StoreView, value: i64)
    requires
        history::is_history(before.clips),
    ensures
        ({
            let after = store::limited(before, value);
            let limit = if value < 10 {
                10
            } else {
                lesser(value as int, 10_000)
            };
            &&& keeps_the_newest(before.clips, after.clips, limit)
            &&& settings::retention(after.settings) == limit
            &&& after.path == before.path
            &&& forall|key: Seq<char>|
                key != "retention_limit"@ ==> (#[trigger] after.settings.contains_key(key)
                    <==> before.settings.contains_key(key)) && (before.settings.contains_key(key)
                    ==> after.settings[key] == before.settings[key])
        }),
{
    pruning_keeps_the_newest(before.clips, settings::clamped_limit(value as int));
    retention_reads_back(before.settings, value);
}

/// What becomes of a history when a clip comes in: it is in it as the newest,
/// under the id of the same content or under a new one, and then the newest stay.
pub open spec fn takes_in(
    before: Map<i64, RecordView>,
    after: Map<i64, RecordView>,
    id: i64,
    row: RecordView,
    limit: int,
) -> bool {
    let known = before.contains_key(id);
    &&& known ==> before[id].content_hash == row.content_hash
    &&& !known ==> forall|other: i64| #[trigger]
        before.contains_key(other) ==> before[other].content_hash != row.content_hash
    &&& !known && !before.contains_key(i64::MAX) ==> forall|other: i64| #[trigger]
        before.contains_key(other) ==> other < id
    &&& !known && !before.contains_key(i64::MAX) ==> id == 1 || before.contains_key((id - 1) as i64)
    &&& !known && before.contains_key(i64::MAX) ==> id > 0
    &&& before.dom() == Set::<i64>::empty() ==> id == 1
    &&& forall|other: i64| #[trigger]
        after.contains_key(other) && other != id ==> before.contains_key(other) && after[other]
            == before[other]
    &&& forall|other: i64| #[trigger]
        before.contains_key(other) && before[other].pinned != 0 ==> after.contains_key(other)
    &&& after.contains_key(id) ==> {
        let kept = after[id];
        &&& kept.id == id && kept.kind == row.kind && kept.text_content == row.text_content
        &&& kept.image_bytes == row.image_bytes && kept.image_encoding == row.image_encoding
        &&& kept.image_width == row.image_width && kept.image_height == row.image_height
        &&& kept.thumbnail_bytes == row.thumbnail_bytes
        &&& kept.thumbnail_width == row.thumbnail_width
        &&& kept.thumbnail_height == row.thumbnail_height
        &&& kept.content_hash == row.content_hash && kept.created_at == row.created_at
        &&& known ==> kept.pinned == before[id].pinned && kept.use_count == before[id].use_count
            && kept.last_used_at == before[id].last_used_at
        &&& !known ==> kept.pinned == row.pinned && kept.use_count == row.use_count
            && kept.last_used_at == row.last_used_at
    }
    &&& loose(after).len() == lesser(
        loose(before).len() + if known || row.pinned != 0 {
            0int
        } else {
            1int
        },
        limit,
    )
    &&& forall|kept: i64, gone: i64| #[trigger]
        after.contains_key(kept) && after[kept].pinned == 0 && #[trigger] before.contains_key(gone)
            && gone != id && !after.contains_key(gone) ==> before[gone].created_at
            <= after[kept].created_at
    &&& (forall|other: i64| #[trigger]
        before.contains_key(other) && other != id ==> before[other].created_at < row.created_at)
        ==> after.contains_key(id)
}

proof fn lemma_takes_in(before: Map<i64, RecordView>, id: i64, row: RecordView, limit: int)
    requires
        history::is_history(before),
        store::takes_id(before, row.content_hash, id),
        limit > 0,
    ensures
        takes_in(before, history::pruned(store::stored(before, id, row), limit), id, row, limit),
{
    let all = store::stored(before, id, row);
    let after = history::pruned(all, limit);
    stored_clip_leaves_history(before, id, row);
    pruning_keeps_the_newest(all, limit);
    before.dom().lemma_len_filter(|k: i64| before[k].pinned == 0);
    assert(loose(before) =~= before.dom().filter(|k: i64| before[k].pinned == 0));
    if before.contains_key(id) || row.pinned != 0 {
        assert(loose(all) =~= loose(before));
    } else {
        assert(loose(all) =~= loose(before).insert(id));
    }
    if store::holds_content(before, row.content_hash) {
        assert(before.contains_key(id));
    }
    assert forall|other: i64| #[trigger]
        before.contains_key(other) && before[other].pinned != 0 implies after.contains_key(
        other,
    ) by {
        assert(all.contains_key(other) && all[other].pinned != 0);
    }
    if forall|other: i64| #[trigger]
        before.contains_key(other) && other != id ==> before[other].created_at < row.created_at {
        assert(history::newer(all, id) =~= Set::<i64>::empty());
        assert(history::is_kept(all, limit, id));
    }
    assert forall|kept: i64, gone: i64| #[trigger]
        after.contains_key(kept) && after[kept].pinned == 0 && #[trigger] before.contains_key(gone)
            && gone != id && !after.contains_key(gone) implies before[gone].created_at
        <= after[kept].created_at by {
        assert(all.contains_key(gone));
    }
}

/// A text is nothing but zero characters around white space.
pub open spec fn holds_nothing(text: Seq<char>) -> bool {
    exists|a: int, b: int| is_zeros_around(text, a, b) && is_white_between(text, a, b)
}

/// Outside of two indices a text has nothing but zero characters.
pub open spec fn is_zeros_around(text: Seq<char>, a: int, b: int) -> bool {
    &&& 0 <= a <= b <= text.len()
    &&& forall|k: int| 0 <= k < a ==> #[trigger] text[k] == '\0'
    &&& forall|k: int| b <= k < text.len() ==> #[trigger] text[k] == '\0'
}

/// Between two indices a text has nothing but white space.
pub open spec fn is_white_between(text: Seq<char>, a: int, b: int) -> bool {
    forall|k: int| a <= k < b ==> text::is_white(#[trigger] text[k])
}

/// A copied text is taken as it is, but for zero characters at its ends: what is
/// left has none there, and a text that has none there is left character for
/// character.
pub proof fn copied_text_is_not_changed(text: Seq<char>)
    ensures
        exists|a: int, b: int| #[trigger]
            is_zeros_around(text, a, b) && store::normalized(text) == text.subrange(a, b),
        store::normalized(text).len() > 0 ==> store::normalized(text)[0] != '\0'
            && store::normalized(text).last() != '\0',
        text.len() > 0 && text[0] != '\0' && text.last() != '\0' ==> store::normalized(text)
            == text,
        text::trimmed(store::normalized(text)).len() == 0 <==> holds_nothing(text),
{
    let p = text::Strip::Only('\0');
    let (a, b) = text::stripping_takes_only_the_ends(text, p);
    let content = store::normalized(text);
    assert(is_zeros_around(text, a, b)) by {
        assert forall|k: int| 0 <= k < a implies #[trigger] text[k] == '\0' by {
            assert(p.hits(text[k]));
        }
        assert forall|k: int| b <= k < text.len() implies #[trigger] text[k] == '\0' by {
            assert(p.hits(text[k]));
        }
    }
    if text.len() > 0 && text[0] != '\0' && text.last() != '\0' {
        assert(a == 0);
        assert(b == text.len());
        assert(text.subrange(0, text.len() as int) =~= text);
    }
    text::blank_is_white_space(content);
    if text::trimmed(content).len() == 0 {
        assert forall|k: int| a <= k < b implies text::is_white(#[trigger] text[k]) by {
            assert(content[k - a] == text[k]);
        }
        assert(is_white_between(text, a, b));
    }
    if holds_nothing(text) {
        let (x, y) = choose|x: int, y: int|
            is_zeros_around(text, x, y) && is_white_between(text, x, y);
        assert forall|k: int| 0 <= k < content.len() implies text::is_white(
            #[trigger] content[k],
        ) by {
            assert(content[k] == text[a + k]);
            assert(text[a] != '\0' && text[b - 1] != '\0');
            assert(x <= a && b <= y);
        }
    }
}

/// A copied text comes into the history as it is, but for zero characters at its
/// ends, as the newest clip; nothing but the limit makes others leave, and no
/// setting changes. Only a text that holds nothing is not taken.
pub proof fn copied_text_is_taken_in(
    before: StoreView,
    after: StoreView,
    text: Seq<char>,
    now: i64,
    r: Option<i64>,
)
    requires
        history::is_history(before.clips),
        store::upserts_text(before, after, text, now, r),
    ensures
        after.path == before.path && after.settings == before.settings,
        r is None <==> holds_nothing(text),
        r is None ==> after == before,
        r is Some ==> exists|row: RecordView| #[trigger]
            takes_in(
                before.clips,
                after.clips,
                r->Some_0,
                row,
                settings::retention(before.settings),
            ) && is_row_of_text(row, text, now),
{
    copied_text_is_not_changed(text);
    if r is Some {
        let content = store::normalized(text);
        let hash = digest::text_hash("text"@, content);
        let row = store::text_row(content, hash, now);
        retention_is_in_range(before.settings);
        lemma_takes_in(before.clips, r->Some_0, row, settings::retention(before.settings));
        assert(is_row_of_text(row, text, now));
        assert(takes_in(
            before.clips,
            after.clips,
            r->Some_0,
            row,
            settings::retention(before.settings),
        ));
    }
}

/// A row is that of a text that was copied at a time: new, not pinned, not used,
/// and with the text as it is but for zero characters at its ends.
pub open spec fn is_row_of_text(row: RecordView, text: Seq<char>, now: i64) -> bool {
    let content = row.text_content;
    &&& row.kind == "text"@
    &&& exists|a: int, b: int| #[trigger]
        is_zeros_around(text, a, b) && content == text.subrange(a, b)
    &&& content.len() > 0 ==> content[0] != '\0' && content.last() != '\0'
    &&& text.len() > 0 && text[0] != '\0' && text.last() != '\0' ==> content == text
    &&& row.content_hash == digest::sha256_hex(
        encode_utf8("text"@) + seq![0u8] + encode_utf8(content),
    )
    &&& row.image_bytes is None && row.image_encoding is None && row.image_width is None
    &&& row.image_height is None && row.thumbnail_bytes is None
    &&& row.thumbnail_width is None && row.thumbnail_height is None
    &&& row.created_at == now && row.last_used_at is None
    &&& row.use_count == 0 && row.pinned == 0
}

/// A copied image comes into the history with its sides and some packing of its
/// pixels, as the newest clip; nothing but the limit makes others leave, and no
/// setting changes. Only an image without pixels is not taken.
pub proof fn copied_image_is_taken_in(
    before: StoreView,
    after: StoreView,
    image: ImageData,
    scaled_width: nat,
    scaled_height: nat,
    now: i64,
    r: Option<i64>,
)
    requires
        history::is_history(before.clips),
        store::upserts_image(before, after, image, scaled_width, scaled_height, now, r),
    ensures
        after.path == before.path && after.settings == before.settings,
        r is None <==> image.width == 0 || image.height == 0 || image.bytes@.len() == 0,
        r is None ==> after == before,
        r is Some ==> exists|row: RecordView| #[trigger]
            takes_in(
                before.clips,
                after.clips,
                r->Some_0,
                row,
                settings::retention(before.settings),
            ) && is_row_of_image(row, image, scaled_width, scaled_height, now),
{
    if r is Some {
        let width = image.width as nat;
        let height = image.height as nat;
        let bytes = image.bytes@;
        let hash = digest::image_hash(width, height, bytes);
        let thumbnail = image::thumbnail_of(width, height, bytes, scaled_width, scaled_height);
        let packed = choose|packed: Seq<u8>| #[trigger]
            image::is_packing(packed, bytes) && after == (StoreView {
                clips: history::pruned(
                    store::stored(
                        before.clips,
                        r->Some_0,
                        store::image_row(image.width, image.height, packed, thumbnail, hash, now),
                    ),
                    settings::retention(before.settings),
                ),
                ..before
            });
        let row = store::image_row(image.width, image.height, packed, thumbnail, hash, now);
        retention_is_in_range(before.settings);
        lemma_takes_in(before.clips, r->Some_0, row, settings::retention(before.settings));
        assert(is_row_of_image(row, image, scaled_width, scaled_height, now));
        assert(takes_in(
            before.clips,
            after.clips,
            r->Some_0,
            row,
            settings::retention(before.settings),
        ));
    }
}

/// A row is that of an image that was copied at a time: new, not pinned, not
/// used, with the sides of the image, a packing of its pixels, and a thumbnail of
/// forty-eight by forty-eight pixels where all pixels are there.
pub open spec fn is_row_of_image(
    row: RecordView,
    image: ImageData,
    scaled_width: nat,
    scaled_height: nat,
    now: i64,
) -> bool {
    let whole = image.width * image.height * 4 <= image.bytes@.len();
    &&& row.kind == "image"@
    &&& row.text_content == "[Image "@ + number::decimal(image.width as nat) + "x"@
        + number::decimal(image.height as nat) + "]"@
    &&& row.image_bytes is Some && image::is_packing(row.image_bytes->Some_0, image.bytes@)
    &&& row.image_encoding == Some("lz4-rgba"@)
    &&& row.image_width == Some(image.width as i64)
    &&& row.image_height == Some(image.height as i64)
    &&& row.thumbnail_bytes is Some <==> whole
    &&& whole ==> image::thumbnail_of(
        image.width as nat,
        image.height as nat,
        image.bytes@,
        scaled_width,
        scaled_height,
    ) == Some((row.thumbnail_bytes->Some_0, 48i64, 48i64))
    &&& row.thumbnail_width == if whole {
        Some(48i64)
    } else {
        None
    }
    &&& row.thumbnail_height == if whole {
        Some(48i64)
    } else {
        None
    }
    &&& row.content_hash == digest::image_hash(
        image.width as nat,
        image.height as nat,
        image.bytes@,
    )
    &&& row.created_at == now && row.last_used_at is None
    &&& row.use_count == 0 && row.pinned == 0
}

// ---------------------------------------------------------------------------
// What an operation leaves alone
// ---------------------------------------------------------------------------

/// To pin or unpin a clip changes its pin, and nothing else of any clip.
pub proof fn pinning_changes_only_the_pin(clips: Map<i64, RecordView>, id: i64)
    ensures
        ({
            let after = store::toggled(clips, id);
            &&& after.dom() == clips.dom()
            &&& forall|other: i64| #[trigger]
                clips.contains_key(other) && other != id ==> after[other] == clips[other]
            &&& clips.contains_key(id) ==> (after[id].pinned != 0 <==> clips[id].pinned == 0)
                && after[id] == (RecordView { pinned: after[id].pinned, ..clips[id] })
                && 0 <= after[id].pinned <= 1
        }),
{
    assert(store::toggled(clips, id).dom() =~= clips.dom());
}

/// To use a clip counts one use and notes the time, and changes nothing else of
/// any clip: not its place among the newest either.
pub proof fn using_changes_only_the_use(clips: Map<i64, RecordView>, id: i64, now: i64)
    requires
        clips.contains_key(id) ==> clips[id].use_count < i64::MAX,
    ensures
        ({
            let after = store::used(clips, id, now);
            &&& after.dom() == clips.dom()
            &&& forall|other: i64| #[trigger]
                clips.contains_key(other) && other != id ==> after[other] == clips[other]
            &&& clips.contains_key(id) ==> after[id].use_count == clips[id].use_count + 1
                && after[id].last_used_at == Some(now) && after[id] == (RecordView {
                use_count: after[id].use_count,
                last_used_at: after[id].last_used_at,
                ..clips[id]
            })
        }),
{
    assert(store::used(clips, id, now).dom() =~= clips.dom());
}

/// To clear the history takes out just the clips without a pin.
pub proof fn clearing_takes_out_just_the_loose(clips: Map<i64, RecordView>)
    ensures
        ({
            let after = store::only_pinned(clips);
            &&& forall|id: i64| #[trigger]
                after.contains_key(id) <==> clips.contains_key(id) && clips[id].pinned != 0
            &&& forall|id: i64| #[trigger] after.contains_key(id) ==> after[id] == clips[id]
        }),
{
}

} // verus!
