//! What holds of the picker: which part of a clip a row shows, how an age and a
//! size are told, which row is selected, and what a change leaves as it was.

use crate::clip::ClipView;
use crate::history;
use crate::laws;
use crate::number;
use crate::picker;
use crate::picker::{PickerAction, PickerKey};
use crate::search;
use crate::session;
use crate::store::StoreView;
use crate::text;
use crate::ui::{Failure, UiView};
use vstd::prelude::*;
use vstd::utf8::*;

verus! {

// ---------------------------------------------------------------------------
// Texts
// ---------------------------------------------------------------------------

/// A text is told to be a number of minutes, hours or days old by how many of
/// them have passed, and to be new within the first minute.
pub proof fn age_counts_what_has_passed(now: int, timestamp: int, count: int)
    ensures
        now - timestamp < 60_000 ==> picker::age(now, timestamp) == "now"@,
        1 <= count < 60 && count * 60_000 <= now - timestamp < (count + 1) * 60_000
            ==> picker::age(now, timestamp) == number::decimal(count as nat) + "m ago"@,
        1 <= count < 24 && count * 3_600_000 <= now - timestamp < (count + 1) * 3_600_000
            ==> picker::age(now, timestamp) == number::decimal(count as nat) + "h ago"@,
        1 <= count && count * 86_400_000 <= now - timestamp < (count + 1) * 86_400_000
            ==> picker::age(now, timestamp) == number::decimal(count as nat) + "d ago"@,
{
}

/// The texts of a subtitle stand one after the other, a bar between each two: how
/// old the clip is; how often it was used, where it was; and when it was used
/// last, or else how large it is.
pub proof fn subtitle_tells_age_use_and_size(clip: ClipView, now: int)
    ensures
        ({
            let parts = text::joined(
                if clip.use_count == 0 {
                    seq![picker::age(now, clip.created_at as int), picker::size_label(clip)]
                } else {
                    seq![
                        picker::age(now, clip.created_at as int),
                        "used "@ + number::signed_decimal(clip.use_count as int) + "x"@,
                        match clip.last_used_at {
                            Some(last) => "last "@ + picker::age(now, last as int),
                            None => picker::size_label(clip),
                        },
                    ]
                },
                " | "@,
            );
            picker::subtitle(clip, now) == parts
        }),
{
    let first = picker::age(now, clip.created_at as int);
    reveal_with_fuel(text::joined, 3);
    if clip.use_count == 0 {
        let parts = seq![first, picker::size_label(clip)];
        assert(parts.drop_last() =~= seq![first]);
    } else {
        let used = "used "@ + number::signed_decimal(clip.use_count as int) + "x"@;
        let last = match clip.last_used_at {
            Some(last) => "last "@ + picker::age(now, last as int),
            None => picker::size_label(clip),
        };
        let parts = seq![first, used, last];
        assert(parts.drop_last() =~= seq![first, used]);
        assert(seq![first, used].drop_last() =~= seq![first]);
        reveal_strlit(" | ");
        reveal_strlit(" | used ");
        reveal_strlit("used ");
        reveal_strlit("x");
        reveal_strlit("x | ");
        assert(" | used "@ =~= " | "@ + "used "@);
        assert("x | "@ =~= "x"@ + " | "@);
        assert(picker::subtitle(clip, now) =~= text::joined(parts, " | "@));
    }
}

/// The size of an image is told by its sides, the width first, and that of any
/// other clip by its characters.
pub proof fn size_tells_sides_or_characters(clip: ClipView, width: i64, height: i64)
    ensures
        clip.kind != "image"@ ==> picker::size_label(clip) == number::decimal(clip.text.len())
            + " chars"@,
        clip.kind == "image"@ && clip.image_width == Some(width) && clip.image_height == Some(
            height,
        ) ==> picker::size_label(clip) == number::signed_decimal(width as int) + "x"@
            + number::signed_decimal(height as int),
        clip.kind == "image"@ && (clip.image_width is None || clip.image_height is None)
            ==> picker::size_label(clip) == "image"@,
{
}

proof fn lemma_words_apart(s: Seq<char>, w: char, t: Seq<char>)
    requires
        text::is_white(w),
    ensures
        text::words(s.push(w) + t) == text::words(s) + text::words(t),
    decreases t.len(),
{
    let whole = s.push(w) + t;
    if t.len() == 0 {
        assert(whole =~= s.push(w));
        assert(whole.drop_last() =~= s);
        assert(text::words(s) + text::words(t) =~= text::words(s));
    } else {
        let before = t.drop_last();
        lemma_words_apart(s, w, before);
        assert(whole.drop_last() =~= s.push(w) + before);
        assert(whole.last() == t.last());
        if !text::is_white(t.last()) {
            if t.len() >= 2 {
                assert(whole[whole.len() - 2] == t[t.len() - 2]);
                assert(before.last() == t[t.len() - 2]);
                if !text::is_white(before.last()) {
                    assert(text::words(before).len() > 0);
                }
            } else {
                assert(whole[whole.len() - 2] == w);
            }
            assert(text::words(whole) =~= text::words(s) + text::words(t));
        }
    }
}

proof fn lemma_one_word(s: Seq<char>)
    requires
        s.len() > 0,
        forall|i: int| 0 <= i < s.len() ==> !text::is_white(#[trigger] s[i]),
    ensures
        text::words(s) == seq![s],
    decreases s.len(),
{
    let before = s.drop_last();
    if s.len() == 1 {
        assert(text::words(before) =~= Seq::<Seq<char>>::empty());
        assert(seq![s.last()] =~= s);
    } else {
        assert forall|i: int| 0 <= i < before.len() implies !text::is_white(
            #[trigger] before[i],
        ) by {
            assert(before[i] == s[i]);
        }
        lemma_one_word(before);
        assert(before.push(s.last()) =~= s);
    }
    assert(text::words(s) =~= seq![s]);
}

proof fn lemma_no_words(s: Seq<char>)
    ensures
        text::words(s).len() == 0 <==> forall|i: int|
            0 <= i < s.len() ==> text::is_white(#[trigger] s[i]),
    decreases s.len(),
{
    if s.len() > 0 {
        let before = s.drop_last();
        lemma_no_words(before);
        assert(forall|i: int| 0 <= i < before.len() ==> #[trigger] before[i] == s[i]);
        assert(s.last() == s[s.len() - 1]);
        if text::is_white(s.last()) && text::words(before).len() == 0 {
            assert forall|i: int| 0 <= i < s.len() implies text::is_white(#[trigger] s[i]) by {
                if i < before.len() {
                    assert(before[i] == s[i]);
                }
            }
        }
    }
}

/// A text on one line, not cut.
pub open spec fn on_one_line(s: Seq<char>) -> Seq<char> {
    text::joined(text::words(s), seq![' '])
}

/// A row shows a text on one line: one without white space as it is; and two
/// with white space between them as the one, a space and the other, or as just
/// one of them where the other is blank.
pub proof fn preview_leaves_one_space_between(s: Seq<char>, w: char, t: Seq<char>)
    requires
        text::is_white(w),
    ensures
        on_one_line(s.push(w) + t) == (if laws::is_blank(s) {
            on_one_line(t)
        } else if laws::is_blank(t) {
            on_one_line(s)
        } else {
            on_one_line(s) + seq![' '] + on_one_line(t)
        }),
        (forall|i: int| 0 <= i < s.len() ==> !text::is_white(#[trigger] s[i])) ==> on_one_line(s)
            == s,
        on_one_line(s).len() <= 150 ==> picker::preview(s) == on_one_line(s),
        on_one_line(s).len() > 150 ==> picker::preview(s) == on_one_line(s).take(150) + "..."@,
{
    lemma_words_apart(s, w, t);
    lemma_no_words(s);
    lemma_no_words(t);
    let a = text::words(s);
    let b = text::words(t);
    if a.len() == 0 {
        assert(a + b =~= b);
    } else if b.len() == 0 {
        assert(a + b =~= a);
    } else {
        text::lemma_joined_apart(a, b, seq![' ']);
    }
    if forall|i: int| 0 <= i < s.len() ==> !text::is_white(#[trigger] s[i]) {
        if s.len() > 0 {
            lemma_one_word(s);
        }
        assert(on_one_line(s) =~= s);
    }
}

// ---------------------------------------------------------------------------
// Rows
// ---------------------------------------------------------------------------

/// A thumbnail is drawn just where the clip has its bytes and two positive sides
/// that the bytes suffice for, and what is drawn is what the clip has.
pub proof fn thumbnail_is_drawn_as_kept(clip: ClipView, bytes: Seq<u8>, width: i64, height: i64)
    requires
        width <= 0xffff_ffff,
        height <= 0xffff_ffff,
    ensures
        clip.thumbnail_bytes is None || clip.thumbnail_width is None
            || clip.thumbnail_height is None ==> picker::drawable_thumbnail(clip) is None,
        clip.thumbnail_bytes == Some(bytes) && clip.thumbnail_width == Some(width)
            && clip.thumbnail_height == Some(height) ==> match picker::drawable_thumbnail(clip) {
            Some(drawn) => {
                &&& width > 0 && height > 0 && bytes.len() >= 4 * (width * height)
                &&& drawn.width == width
                &&& drawn.height == height
                &&& drawn.bytes.len() == 4 * (width * height)
                &&& forall|i: int|
                    0 <= i < drawn.bytes.len() ==> #[trigger] drawn.bytes[i] == bytes[i]
            },
            None => width <= 0 || height <= 0 || bytes.len() < 4 * (width * height),
        },
{
    if width > 0 && height > 0 {
        assert(width * height >= 0) by (nonlinear_arith)
            requires
                width > 0,
                height > 0,
        ;
    }
}

/// The row of a clip says of it what the clip says, and is marked for a picture
/// just where the clip has one.
pub proof fn row_shows_its_clip(clip: ClipView, now: int)
    ensures
        ({
            let row = picker::row_of(clip, now);
            &&& i32::MIN <= clip.id <= i32::MAX ==> row.id == clip.id
            &&& row.kind == clip.kind
            &&& row.pinned == clip.pinned
            &&& row.has_thumbnail == (clip.thumbnail_bytes is Some)
            &&& row.preview == picker::preview(clip.text)
            &&& row.subtitle == picker::subtitle(clip, now)
            &&& row.thumbnail is Some ==> row.has_thumbnail
            &&& row.thumbnail == picker::drawable_thumbnail(clip)
        }),
{
}

/// The selected row is the one nearest to where the selection was wanted.
pub proof fn nearest_row_is_selected(index: int, len: int, other: int)
    requires
        len >= 0,
    ensures
        len == 0 ==> picker::clamped_index(index, len) == 0,
        len > 0 ==> 0 <= picker::clamped_index(index, len) < len,
        0 <= other < len && other != picker::clamped_index(index, len) ==> {
            let near = picker::clamped_index(index, len) - index;
            let far = other - index;
            -(if far < 0 {
                -far
            } else {
                far
            }) < near < (if far < 0 {
                -far
            } else {
                far
            })
        },
{
}

/// The picker shows a row for each clip of the list, in the order of the list,
/// at most 250, and says how many clips there are whatever is searched.
pub proof fn page_shows_the_list(
    store: StoreView,
    query: Seq<char>,
    listing: Seq<ClipView>,
    index: i32,
    now: i64,
)
    requires
        history::is_history(store.clips),
        history::is_listing(store.clips, query, 250, listing),
    ensures
        ({
            let page = picker::page(store, query, index, now);
            &&& page.rows.len() == listing.len() <= 250
            &&& forall|i: int|
                0 <= i < listing.len() ==> #[trigger] page.rows[i] == picker::row_of(
                    listing[i],
                    now as int,
                )
            &&& page.count_text == number::decimal(store.clips.dom().len()) + " saved"@
            &&& page.selected_index == picker::selected(store, query, index)
            &&& listing.len() > 0 ==> {
                &&& 0 <= page.selected_index < listing.len()
                &&& picker::selected_id(store, query, index) == Some(
                    listing[page.selected_index as int].id,
                )
            }
            &&& listing.len() == 0 ==> {
                &&& page.selected_index == 0
                &&& picker::selected_id(store, query, index) is None
            }
            &&& 0 <= index < listing.len() ==> page.selected_index == index
        }),
{
    history::listing_is_unique(
        store.clips,
        query,
        250,
        listing,
        picker::shown_clips(store, query),
    );
}

proof fn lemma_encoding_adds_up(a: Seq<char>, b: Seq<char>)
    ensures
        encode_utf8(a + b).len() == encode_utf8(a).len() + encode_utf8(b).len(),
    decreases a.len(),
{
    if a.len() == 0 {
        assert(a + b =~= b);
    } else {
        lemma_encoding_adds_up(a.drop_first(), b);
        assert((a + b).drop_first() =~= a.drop_first() + b);
    }
}

/// A character that has a meaning of its own in a pattern.
pub open spec fn has_a_meaning(c: char) -> bool {
    c == '%' || c == '_' || c == '\\'
}

proof fn lemma_escaped_length(s: Seq<char>)
    ensures
        encode_utf8(search::escaped(s)).len() == encode_utf8(s).len() + s.filter(
            |c: char| has_a_meaning(c),
        ).len(),
    decreases s.len(),
{
    let special = |c: char| has_a_meaning(c);
    if s.len() > 0 {
        let rest = s.drop_first();
        lemma_escaped_length(rest);
        assert(s =~= seq![s[0]] + rest);
        Seq::filter_distributes_over_add(seq![s[0]], rest, special);
        reveal(Seq::filter);
        assert(seq![s[0]].drop_last() =~= Seq::<char>::empty());
        assert(seq![s[0]].drop_last().filter(special) =~= Seq::<char>::empty());
        assert(seq![s[0]].filter(special).len() == (if has_a_meaning(s[0]) {
            1int
        } else {
            0
        }));
        if has_a_meaning(s[0]) {
            let pair = seq!['\\', s[0]];
            assert(search::is_special(s[0]));
            assert(search::escaped(s) == pair + search::escaped(rest));
            lemma_encoding_adds_up(pair, search::escaped(rest));
            reveal_with_fuel(encode_utf8, 3);
            assert(pair.drop_first() =~= seq![s[0]]);
            assert(encode_utf8(pair).len() == 2);
        } else {
            lemma_encoding_adds_up(seq![s[0]], search::escaped(rest));
        }
        lemma_encoding_adds_up(seq![s[0]], rest);
        reveal_with_fuel(encode_utf8, 2);
    } else {
        assert(s.filter(special) =~= s) by {
            reveal(Seq::filter);
        }
    }
}

/// A query cannot be answered just where it is not blank, there are texts or
/// images to search, and its bytes, with one more for each percent sign,
/// underscore and backslash, are more than 49998.
pub proof fn query_is_refused_by_its_length(store: StoreView, query: Seq<char>)
    ensures
        picker::page_fails(store, query) <==> {
            let wanted = text::trimmed(query);
            &&& !laws::is_blank(query)
            &&& exists|id: i64| #[trigger]
                store.clips.contains_key(id) && (store.clips[id].kind == "text"@
                    || store.clips[id].kind == "image"@)
            &&& encode_utf8(wanted).len() + wanted.filter(|c: char| has_a_meaning(c)).len()
                > 49_998
        },
{
    let wanted = text::trimmed(query);
    text::blank_is_white_space(query);
    lemma_escaped_length(wanted);
    lemma_encoding_adds_up(seq!['%'], search::escaped(wanted));
    lemma_encoding_adds_up(seq!['%'] + search::escaped(wanted), seq!['%']);
    reveal_with_fuel(encode_utf8, 2);
    assert(encode_utf8(seq!['%']).len() == 1);
    if picker::page_fails(store, query) {
        let id = choose|id: i64| #[trigger]
            store.clips.contains_key(id) && history::is_listable(store.clips[id]);
        assert(store.clips.contains_key(id));
    }
    if exists|id: i64| #[trigger]
        store.clips.contains_key(id) && (store.clips[id].kind == "text"@ || store.clips[id].kind
            == "image"@) {
        let id = choose|id: i64| #[trigger]
            store.clips.contains_key(id) && (store.clips[id].kind == "text"@
                || store.clips[id].kind == "image"@);
        assert(store.clips.contains_key(id) && history::is_listable(store.clips[id]));
    }
}

/// Enter selects the clip and Delete deletes it, whether Ctrl is held or not.
/// With Ctrl, each digit but zero selects the clip that stands at its place,
/// and P pins. No other character does anything, and none does without Ctrl.
pub proof fn keys_of_the_picker(c: char, control: bool)
    ensures
        picker::key_action(PickerKey::Enter, control) == PickerAction::SelectCurrent,
        picker::key_action(PickerKey::Delete, control) == PickerAction::DeleteCurrent,
        match picker::key_action(PickerKey::Character(c), control) {
            PickerAction::SelectAt(index) => control && 1 <= index + 1 <= 9 && c as int == 0x30 + (
            index + 1),
            PickerAction::TogglePin => control && (c as int == 0x50 || c as int == 0x70),
            PickerAction::Nothing => control ==> !(0x31 <= c as int <= 0x39) && c as int != 0x50
                && c as int != 0x70,
            _ => false,
        },
{
}

// ---------------------------------------------------------------------------
// What is shown
// ---------------------------------------------------------------------------

/// To show the clips anew changes nothing but the page, and nothing but the
/// status where the query cannot be answered; the page keeps its selection as
/// far as there are rows.
pub proof fn refreshing_changes_only_the_page(
    ui: UiView,
    store: StoreView,
    now: i64,
    failure: Failure,
)
    ensures
        ({
            let shown = ui.refreshed(store, now, failure);
            &&& picker::page_fails(store, ui.query) ==> {
                &&& (UiView { status_text: ui.status_text, ..shown }) == ui
                &&& shown.status_text == failure.label() + "LIKE or GLOB pattern too complex"@
            }
            &&& !picker::page_fails(store, ui.query) ==> {
                &&& (UiView { page: ui.page, ..shown }) == ui
                &&& shown.page == picker::page(store, ui.query, ui.page.selected_index, now)
            }
        }),
{
}

/// To show the clips anew with a status is to show them anew, and to say the
/// status unless they cannot be shown.
pub proof fn status_follows_the_clips(
    ui: UiView,
    store: StoreView,
    now: i64,
    status: Seq<char>,
)
    ensures
        ({
            let shown = ui.refreshed_saying(store, now, status);
            let failed = picker::page_fails(store, ui.query);
            &&& shown.status_text == (if failed {
                "Refresh failed: "@ + "LIKE or GLOB pattern too complex"@
            } else {
                status
            })
            &&& (UiView { status_text: ui.status_text, ..shown }) == (UiView {
                status_text: ui.status_text,
                ..ui.refreshed(store, now, Failure::Refresh)
            })
        }),
{
}

/// To say something, to select a row, to close what is open and to report on an
/// update each change just what they are about.
pub proof fn changes_are_about_one_thing(
    ui: UiView,
    status: Seq<char>,
    index: i32,
    report: session::ReportView,
)
    ensures
        ui.saying(status).status_text == status,
        (UiView { status_text: ui.status_text, ..ui.saying(status) }) == ui,
        ui.selecting(index).page.selected_index == index,
        ui.selecting(index).selecting(ui.page.selected_index) == ui,
        ui.selecting(index).page.rows == ui.page.rows,
        !ui.closed_panels().settings_visible && !ui.closed_panels().quit_confirm_visible,
        (UiView {
            settings_visible: ui.settings_visible,
            quit_confirm_visible: ui.quit_confirm_visible,
            ..ui.closed_panels()
        }) == ui,
        ui.reporting(report).update_status == report.status,
        report.available is None ==> ui.reporting(report).update_available
            == ui.update_available,
        report.version is None ==> ui.reporting(report).update_version == ui.update_version,
        report.available is Some ==> report.available == Some(
            ui.reporting(report).update_available,
        ),
        report.version is Some ==> report.version == Some(ui.reporting(report).update_version),
        (UiView {
            update_available: ui.update_available,
            update_version: ui.update_version,
            update_status: ui.update_status,
            ..ui.reporting(report)
        }) == ui,
{
}

} // verus!
