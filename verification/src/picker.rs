//! What the picker shows: the rows for the clips, and which of them is
//! selected.

use crate::clip;
use crate::clip::{Clip, ClipView};
use crate::history;
use crate::number;
use crate::number::{push_decimal, push_signed};
use crate::store;
use crate::store::{Store, StoreError, StoreView};
use crate::text;
use crate::text::{chars_of, flatten_white_space, same_text, text_of};
use vstd::prelude::*;

verus! {

// ---------------------------------------------------------------------------
// Texts
// ---------------------------------------------------------------------------

/// The first characters of a text, and three dots where some are left out.
pub open spec fn truncated(s: Seq<char>, max: nat) -> Seq<char> {
    if s.len() <= max {
        s
    } else {
        s.take(max as int) + "..."@
    }
}

/// Cuts a text down to a number of characters, with three dots where some are
/// left out.
pub fn truncate_chars(value: &str, max_chars: usize) -> (r: String)
    ensures
        r@ == truncated(value@, max_chars as nat),
{
    let chars = chars_of(value);
    if chars.len() <= max_chars {
        assert(chars@.subrange(0, chars@.len() as int) =~= chars@);
        text_of(&chars, 0, chars.len())
    } else {
        let mut out = text_of(&chars, 0, max_chars);
        out.append("...");
        assert(out@ =~= truncated(value@, max_chars as nat));
        out
    }
}

/// A cut text is no longer than the limit and the three dots, and one within
/// the limit is not cut.
pub proof fn truncation_bounds_length(s: Seq<char>, max: nat)
    ensures
        truncated(s, max).len() <= max + 3,
        s.len() <= max ==> truncated(s, max) == s,
        s.len() > max ==> truncated(s, max).take(max as int) == s.take(max as int),
{
    reveal_strlit("...");
    if s.len() > max {
        assert(truncated(s, max).take(max as int) =~= s.take(max as int));
    }
}

/// How many characters of a text a row shows.
pub const PREVIEW_CHARS: usize = 150;

/// A text as a row shows it: on one line, and cut.
pub open spec fn preview(s: Seq<char>) -> Seq<char> {
    truncated(text::joined(text::words(s), seq![' ']), PREVIEW_CHARS as nat)
}

/// The text as a row shows it.
pub fn preview_text(text: &str) -> (r: String)
    ensures
        r@ == preview(text@),
{
    let flat = flatten_white_space(text);
    truncate_chars(flat.as_str(), PREVIEW_CHARS)
}

/// How many whole seconds have passed since a time in milliseconds; none where
/// it is still to come.
pub open spec fn seconds_since(now: int, timestamp: int) -> int {
    if now <= timestamp {
        0
    } else {
        (now - timestamp) / 1000
    }
}

/// How long ago a time was.
pub open spec fn age(now: int, timestamp: int) -> Seq<char> {
    let seconds = seconds_since(now, timestamp);
    if seconds < 60 {
        "now"@
    } else if seconds < 3_600 {
        number::decimal((seconds / 60) as nat) + "m ago"@
    } else if seconds < 86_400 {
        number::decimal((seconds / 3_600) as nat) + "h ago"@
    } else {
        number::decimal((seconds / 86_400) as nat) + "d ago"@
    }
}

/// How long ago a time was, both in milliseconds.
pub fn age_label(now: i64, timestamp_millis: i64) -> (r: String)
    ensures
        r@ == age(now as int, timestamp_millis as int),
{
    let seconds: u64 = if now <= timestamp_millis {
        0
    } else {
        ((now as i128 - timestamp_millis as i128) / 1000) as u64
    };
    if seconds < 60 {
        "now".to_owned()
    } else {
        let mut out = String::new();
        if seconds < 3_600 {
            push_decimal(&mut out, seconds / 60);
            out.append("m ago");
        } else if seconds < 86_400 {
            push_decimal(&mut out, seconds / 3_600);
            out.append("h ago");
        } else {
            push_decimal(&mut out, seconds / 86_400);
            out.append("d ago");
        }
        assert(out@ =~= age(now as int, timestamp_millis as int));
        out
    }
}

/// How large a clip is: the sides of an image, if they are known, and the
/// characters of a text.
pub open spec fn size_label(clip: ClipView) -> Seq<char> {
    if clip.kind == "image"@ {
        match (clip.image_width, clip.image_height) {
            (Some(width), Some(height)) => number::signed_decimal(width as int) + "x"@
                + number::signed_decimal(height as int),
            _ => "image"@,
        }
    } else {
        number::decimal(clip.text.len()) + " chars"@
    }
}

/// What a row says below a clip: its age, and its size or how often and when it
/// was used.
pub open spec fn subtitle(clip: ClipView, now: int) -> Seq<char> {
    let age_part = age(now, clip.created_at as int);
    if clip.use_count == 0 {
        age_part + " | "@ + size_label(clip)
    } else {
        let used = age_part + " | used "@ + number::signed_decimal(clip.use_count as int) + "x | "@;
        match clip.last_used_at {
            Some(last) => used + "last "@ + age(now, last as int),
            None => used + size_label(clip),
        }
    }
}

fn size_text(clip: &Clip) -> (r: String)
    ensures
        r@ == size_label(clip@),
{
    if same_text(clip.kind.as_str(), "image") {
        match (clip.image_width, clip.image_height) {
            (Some(width), Some(height)) => {
                let mut out = String::new();
                push_signed(&mut out, width);
                out.append("x");
                push_signed(&mut out, height);
                assert(out@ =~= size_label(clip@));
                out
            },
            _ => "image".to_owned(),
        }
    } else {
        let count: usize = chars_of(clip.text.as_str()).len();
        let mut out = String::new();
        push_decimal(&mut out, count as u64);
        out.append(" chars");
        assert(out@ =~= size_label(clip@));
        out
    }
}

/// What a row says below a clip.
pub fn subtitle_text(clip: &Clip, now: i64) -> (r: String)
    ensures
        r@ == subtitle(clip@, now as int),
{
    let mut out = age_label(now, clip.created_at);
    if clip.use_count == 0 {
        out.append(" | ");
        out.append(size_text(clip).as_str());
        return out;
    }
    out.append(" | used ");
    push_signed(&mut out, clip.use_count);
    out.append("x | ");
    match clip.last_used_at {
        Some(last) => {
            out.append("last ");
            out.append(age_label(now, last).as_str());
        },
        None => {
            out.append(size_text(clip).as_str());
        },
    }
    out
}

// ---------------------------------------------------------------------------
// Thumbnails
// ---------------------------------------------------------------------------

/// A thumbnail that can be drawn.
#[derive(Debug)]
pub struct Thumbnail {
    pub width: u32,
    pub height: u32,
    pub bytes: Vec<u8>,
}

/// A thumbnail, its bytes as a sequence.
pub struct ThumbnailView {
    pub width: u32,
    pub height: u32,
    pub bytes: Seq<u8>,
}

impl View for Thumbnail {
    type V = ThumbnailView;

    open spec fn view(&self) -> ThumbnailView {
        ThumbnailView { width: self.width, height: self.height, bytes: self.bytes@ }
    }
}

/// The thumbnail of a clip, if the clip has one with a positive width and
/// height and with all its pixels.
pub open spec fn drawable_thumbnail(clip: ClipView) -> Option<ThumbnailView> {
    match (clip.thumbnail_bytes, clip.thumbnail_width, clip.thumbnail_height) {
        (Some(bytes), Some(width), Some(height)) => if width <= 0 || height <= 0 {
            None
        } else {
            let needed = (width as u32) * (height as u32) * 4;
            if bytes.len() < needed {
                None
            } else {
                Some(
                    ThumbnailView {
                        width: width as u32,
                        height: height as u32,
                        bytes: bytes.take(needed),
                    },
                )
            }
        },
        _ => None,
    }
}

/// A thumbnail that may be missing, its bytes as a sequence.
pub open spec fn thumbnail_view(thumbnail: Option<Thumbnail>) -> Option<ThumbnailView> {
    match thumbnail {
        Some(thumbnail) => Some(thumbnail@),
        None => None,
    }
}

/// The thumbnail of a clip, if it can be drawn.
pub fn clip_thumbnail(clip: &Clip) -> (r: Option<Thumbnail>)
    ensures
        thumbnail_view(r) == drawable_thumbnail(clip@),
{
    let bytes = match &clip.thumbnail_bytes {
        Some(bytes) => bytes,
        None => return None,
    };
    let width: i64 = match clip.thumbnail_width {
        Some(width) => width,
        None => return None,
    };
    let height: i64 = match clip.thumbnail_height {
        Some(height) => height,
        None => return None,
    };
    if width <= 0 || height <= 0 {
        return None;
    }
    let width: u32 = width as u32;
    let height: u32 = height as u32;
    proof {
        assert(0 <= width * height <= 0xffff_ffff * 0xffff_ffff) by (nonlinear_arith)
            requires
                0 <= width <= 0xffff_ffff,
                0 <= height <= 0xffff_ffff,
        ;
    }
    let needed: u128 = (width as u128) * (height as u128) * 4;
    if (bytes.len() as u128) < needed {
        return None;
    }
    let mut pixels: Vec<u8> = Vec::new();
    let count: usize = needed as usize;
    let mut i: usize = 0;
    while i < count
        invariant
            i <= count <= bytes@.len(),
            pixels@ == bytes@.take(i as int),
        decreases count - i,
    {
        pixels.push(bytes[i]);
        assert(bytes@.take(i + 1) =~= bytes@.take(i as int).push(bytes@[i as int]));
        i = i + 1;
    }
    Some(Thumbnail { width, height, bytes: pixels })
}

// ---------------------------------------------------------------------------
// Rows
// ---------------------------------------------------------------------------

/// A row of the picker.
#[derive(Debug)]
pub struct ClipRow {
    pub id: i32,
    pub kind: String,
    pub preview: String,
    pub subtitle: String,
    pub pinned: bool,
    pub has_thumbnail: bool,
    pub thumbnail: Option<Thumbnail>,
}

/// A row of the picker, its texts and bytes as sequences.
pub struct RowView {
    pub id: i32,
    pub kind: Seq<char>,
    pub preview: Seq<char>,
    pub subtitle: Seq<char>,
    pub pinned: bool,
    pub has_thumbnail: bool,
    pub thumbnail: Option<ThumbnailView>,
}

impl View for ClipRow {
    type V = RowView;

    open spec fn view(&self) -> RowView {
        RowView {
            id: self.id,
            kind: self.kind@,
            preview: self.preview@,
            subtitle: self.subtitle@,
            pinned: self.pinned,
            has_thumbnail: self.has_thumbnail,
            thumbnail: thumbnail_view(self.thumbnail),
        }
    }
}

/// The row for a clip.
pub open spec fn row_of(clip: ClipView, now: int) -> RowView {
    RowView {
        id: clip.id as i32,
        kind: clip.kind,
        preview: preview(clip.text),
        subtitle: subtitle(clip, now),
        pinned: clip.pinned,
        has_thumbnail: clip.thumbnail_bytes is Some,
        thumbnail: drawable_thumbnail(clip),
    }
}

/// The row for a clip.
pub fn clip_row(clip: &Clip, now: i64) -> (r: ClipRow)
    ensures
        r@ == row_of(clip@, now as int),
{
    ClipRow {
        id: clip.id as i32,
        kind: clip.kind.clone(),
        preview: preview_text(clip.text.as_str()),
        subtitle: subtitle_text(clip, now),
        pinned: clip.pinned,
        has_thumbnail: clip.thumbnail_bytes.is_some(),
        thumbnail: clip_thumbnail(clip),
    }
}

/// How many rows the picker shows at most.
pub const MAX_ROWS: i64 = 250;

/// The index nearest to the given one in a list of the given length; zero in an
/// empty list.
pub open spec fn clamped_index(index: int, len: int) -> int {
    if len == 0 || index < 0 {
        0
    } else if index >= len {
        len - 1
    } else {
        index
    }
}

/// The index nearest to the given one in a list of the given length.
pub fn clamp_index(index: i32, len: usize) -> (r: i32)
    requires
        len <= 0x8000_0000,
    ensures
        r == clamped_index(index as int, len as int),
{
    if len == 0 || index < 0 {
        0
    } else {
        let last: i32 = (len - 1) as i32;
        if index > last {
            last
        } else {
            index
        }
    }
}

/// What the picker shows for a query.
#[derive(Debug)]
pub struct PickerPage {
    pub rows: Vec<ClipRow>,
    pub selected_index: i32,
    pub count_text: String,
}

/// What the picker shows for a query, its texts and bytes as sequences.
#[verifier::ext_equal]
pub struct PageView {
    pub rows: Seq<RowView>,
    pub selected_index: i32,
    pub count_text: Seq<char>,
}

impl View for PickerPage {
    type V = PageView;

    open spec fn view(&self) -> PageView {
        PageView {
            rows: Seq::new(self.rows@.len(), |i: int| self.rows@[i]@),
            selected_index: self.selected_index,
            count_text: self.count_text@,
        }
    }
}

/// The clips that the picker shows for a query.
pub open spec fn shown_clips(store: StoreView, query: Seq<char>) -> Seq<ClipView> {
    history::listing(store.clips, query, MAX_ROWS as int)
}

/// What the picker shows for a query: a row for each clip, the selected row,
/// and how many clips there are.
pub open spec fn page(
    store: StoreView,
    query: Seq<char>,
    selected_index: i32,
    now: i64,
) -> PageView {
    let clips = shown_clips(store, query);
    PageView {
        rows: Seq::new(clips.len(), |i: int| row_of(clips[i], now as int)),
        selected_index: clamped_index(selected_index as int, clips.len() as int) as i32,
        count_text: number::decimal(store.clips.dom().len()) + " saved"@,
    }
}

/// The picker can show nothing for a query.
pub open spec fn page_fails(store: StoreView, query: Seq<char>) -> bool {
    store::search_fails(store.clips, query, MAX_ROWS as int)
}

/// What the picker shows for a query.
pub fn refresh_ui(store: &Store, query: &str, selected_index: i32, now: i64) -> (r: Result<
    PickerPage,
    StoreError,
>)
    requires
        store.wf(),
    ensures
        match r {
            Ok(shown) => {
                &&& !page_fails(store@, query@)
                &&& shown@ == page(store@, query@, selected_index, now)
                &&& history::is_listing(
                    store@.clips,
                    query@,
                    250,
                    shown_clips(store@, query@),
                )
            },
            Err(error) => page_fails(store@, query@) && error == StoreError::PatternTooLong,
        },
{
    let clips = match store.list(query, MAX_ROWS) {
        Ok(clips) => clips,
        Err(error) => return Err(error),
    };
    let ghost listing = clip::clip_views(clips@);
    let mut rows: Vec<ClipRow> = Vec::new();
    let mut i: usize = 0;
    while i < clips.len()
        invariant
            i <= clips@.len(),
            rows@.len() == i,
            listing == clip::clip_views(clips@),
            forall|k: int| 0 <= k < i ==> (#[trigger] rows@[k])@ == row_of(listing[k], now as int),
        decreases clips@.len() - i,
    {
        assert(listing[i as int] == clips@[i as int]@);
        rows.push(clip_row(&clips[i], now));
        i = i + 1;
    }
    let mut count_text = String::new();
    push_decimal(&mut count_text, store.count() as u64);
    count_text.append(" saved");
    assert(count_text@ =~= number::decimal(store@.clips.dom().len()) + " saved"@);
    let shown = PickerPage {
        rows,
        selected_index: clamp_index(selected_index, clips.len()),
        count_text,
    };
    assert(shown@ =~= page(store@, query@, selected_index, now));
    Ok(shown)
}

/// The index that is selected for a query.
pub open spec fn selected(store: StoreView, query: Seq<char>, index: i32) -> i32 {
    clamped_index(index as int, shown_clips(store, query).len() as int) as i32
}

/// The id of the clip at the index that is selected for a query.
pub open spec fn selected_id(store: StoreView, query: Seq<char>, index: i32) -> Option<i64> {
    if shown_clips(store, query).len() > 0 {
        Some(shown_clips(store, query)[selected(store, query, index) as int].id)
    } else {
        None
    }
}

/// The index that is selected for a query, and the id of the clip there.
pub fn clip_id_at_index(store: &Store, query: &str, index: i32) -> (r: Result<
    (i32, Option<i64>),
    StoreError,
>)
    requires
        store.wf(),
    ensures
        match r {
            Ok(found) => {
                &&& !page_fails(store@, query@)
                &&& found == (selected(store@, query@, index), selected_id(store@, query@, index))
                &&& history::is_listing(
                    store@.clips,
                    query@,
                    250,
                    shown_clips(store@, query@),
                )
            },
            Err(error) => page_fails(store@, query@) && error == StoreError::PatternTooLong,
        },
{
    let clips = match store.list(query, MAX_ROWS) {
        Ok(clips) => clips,
        Err(error) => return Err(error),
    };
    let index = clamp_index(index, clips.len());
    if clips.len() == 0 {
        Ok((index, None))
    } else {
        assert(clip::clip_views(clips@)[index as int] == clips@[index as int]@);
        Ok((index, Some(clips[index as usize].id)))
    }
}

/// The index that is selected for a query; zero where the query cannot be
/// answered.
pub fn clamp_selection(store: &Store, query: &str, index: i32) -> (r: i32)
    requires
        store.wf(),
    ensures
        r == (if page_fails(store@, query@) {
            0
        } else {
            selected(store@, query@, index)
        }),
{
    match store.list(query, MAX_ROWS) {
        Ok(clips) => clamp_index(index, clips.len()),
        Err(_) => 0,
    }
}

/// A key that the picker knows, and what it does.
#[derive(Debug, Clone, Copy, PartialEq, Eq, Structural)]
pub enum PickerAction {
    /// Select the clip at the selected index.
    SelectCurrent,
    /// Delete the clip at the selected index.
    DeleteCurrent,
    /// Pin or unpin the clip at the selected index.
    TogglePin,
    /// Select the clip at an index.
    SelectAt(i32),
    /// The key is not for the picker.
    Nothing,
}

/// A key of the picker.
#[derive(Debug, Clone, Copy, PartialEq, Eq, Structural)]
pub enum PickerKey {
    Enter,
    Delete,
    Character(char),
}

/// What a key does in the picker: Enter, Delete, Ctrl+P, and Ctrl+1 to Ctrl+9.
pub open spec fn key_action(key: PickerKey, control: bool) -> PickerAction {
    match key {
        PickerKey::Enter => PickerAction::SelectCurrent,
        PickerKey::Delete => PickerAction::DeleteCurrent,
        PickerKey::Character(c) => if control && (c == 'p' || c == 'P') {
            PickerAction::TogglePin
        } else if control && '1' <= c <= '9' {
            PickerAction::SelectAt((c as int - '1' as int) as i32)
        } else {
            PickerAction::Nothing
        },
    }
}

/// What a key does in the picker.
pub fn picker_key(key: PickerKey, control: bool) -> (r: PickerAction)
    ensures
        r == key_action(key, control),
{
    match key {
        PickerKey::Enter => PickerAction::SelectCurrent,
        PickerKey::Delete => PickerAction::DeleteCurrent,
        PickerKey::Character(c) => if control && (c == 'p' || c == 'P') {
            PickerAction::TogglePin
        } else if control && '1' <= c && c <= '9' {
            PickerAction::SelectAt((c as u32 - '1' as u32) as i32)
        } else {
            PickerAction::Nothing
        },
    }
}

} // verus!
