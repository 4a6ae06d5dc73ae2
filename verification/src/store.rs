//! The clipboard history and its settings.

use crate::clip;
use crate::clip::{row_to_clip, row_to_summary, Clip, ClipRecord, RecordView};
use crate::digest;
use crate::digest::{content_hash, content_hash_image};
use crate::history;
use crate::image;
use crate::image::{build_thumbnail_rgba, pack_pixels, ImageData};
use crate::laws;
use crate::number;
use crate::number::{parse_i64, push_decimal, signed_text};
use crate::search;
use crate::search::exceeds_pattern_limit;
use crate::settings;
use crate::settings::{clamp_limit, switch_text, Setting, DEFAULT_RETENTION_LIMIT};
use crate::text;
use crate::text::{
    chars_of, cut_at_zero, ends_with, find_part, lower_chars, same_text, strip_text, trim, Strip,
};
use vstd::prelude::*;
use vstd::set_lib::*;

verus! {

/// The history and the settings.
#[derive(Debug)]
pub struct Store {
    path: String,
    rows: Vec<ClipRecord>,
    settings: Vec<Setting>,
}

/// What a store holds: where it is kept, the clips by their ids, the settings
/// by their names.
#[verifier::ext_equal]
pub struct StoreView {
    pub path: Seq<char>,
    pub clips: Map<i64, RecordView>,
    pub settings: Map<Seq<char>, Seq<char>>,
}

impl View for Store {
    type V = StoreView;

    closed spec fn view(&self) -> StoreView {
        StoreView {
            path: self.path@,
            clips: history::by_id(self.rows@),
            settings: settings::by_key(self.settings@),
        }
    }
}

/// Why a store cannot answer.
#[derive(Debug, PartialEq, Eq, Structural, Clone, Copy)]
pub enum StoreError {
    /// The searched text is too long.
    PatternTooLong,
}

impl StoreError {
    /// The message that is shown for the error.
    pub fn message(&self) -> (r: String)
        ensures
            r@ == "LIKE or GLOB pattern too complex"@,
    {
        "LIKE or GLOB pattern too complex".to_owned()
    }
}

// ---------------------------------------------------------------------------
// What the operations do
// ---------------------------------------------------------------------------

/// The history after a clip is pinned or unpinned.
pub open spec fn toggled(clips: Map<i64, RecordView>, id: i64) -> Map<i64, RecordView> {
    if clips.contains_key(id) {
        let pinned = if clips[id].pinned == 0 {
            1i64
        } else {
            0i64
        };
        clips.insert(id, RecordView { pinned, ..clips[id] })
    } else {
        clips
    }
}

/// The history after a clip is used.
pub open spec fn used(clips: Map<i64, RecordView>, id: i64, now: i64) -> Map<i64, RecordView> {
    if clips.contains_key(id) {
        clips.insert(
            id,
            RecordView {
                last_used_at: Some(now),
                use_count: (clips[id].use_count + 1) as i64,
                ..clips[id]
            },
        )
    } else {
        clips
    }
}

/// The pinned clips of a history.
pub open spec fn only_pinned(clips: Map<i64, RecordView>) -> Map<i64, RecordView> {
    clips.restrict(clips.dom().filter(|id: i64| clips[id].pinned != 0))
}

/// The content is in the history.
pub open spec fn holds_content(clips: Map<i64, RecordView>, hash: Seq<char>) -> bool {
    exists|id: i64| #[trigger] clips.contains_key(id) && clips[id].content_hash == hash
}

/// The id for a clip that is new in the history: the one after the highest,
/// beginning with one. Where the highest is taken, any positive id that is
/// free.
pub open spec fn is_new_id(clips: Map<i64, RecordView>, id: i64) -> bool {
    &&& !clips.contains_key(id)
    &&& if clips.dom() == Set::<i64>::empty() {
        id == 1
    } else if clips.contains_key(i64::MAX) {
        id > 0
    } else {
        &&& clips.contains_key((id - 1) as i64)
        &&& forall|other: i64| #[trigger] clips.contains_key(other) ==> other < id
    }
}

/// The id under which a content comes into the history: the one it has there,
/// or a new one.
pub open spec fn takes_id(clips: Map<i64, RecordView>, hash: Seq<char>, id: i64) -> bool {
    if holds_content(clips, hash) {
        clips.contains_key(id) && clips[id].content_hash == hash
    } else {
        is_new_id(clips, id)
    }
}

/// The history after a clip comes in under an id. A clip that was there keeps
/// its pin and its record of use.
pub open spec fn stored(clips: Map<i64, RecordView>, id: i64, row: RecordView) -> Map<
    i64,
    RecordView,
> {
    if clips.contains_key(id) {
        clips.insert(
            id,
            RecordView {
                id,
                last_used_at: clips[id].last_used_at,
                use_count: clips[id].use_count,
                pinned: clips[id].pinned,
                ..row
            },
        )
    } else {
        clips.insert(id, RecordView { id, ..row })
    }
}

/// A text without the zero characters around it.
pub open spec fn normalized(text: Seq<char>) -> Seq<char> {
    text::stripped(text, Strip::Only('\0'))
}

/// The row of a text that has just been copied.
pub open spec fn text_row(text: Seq<char>, hash: Seq<char>, now: i64) -> RecordView {
    RecordView {
        id: 0,
        kind: "text"@,
        text_content: text,
        image_bytes: None,
        image_encoding: None,
        image_width: None,
        image_height: None,
        thumbnail_bytes: None,
        thumbnail_width: None,
        thumbnail_height: None,
        content_hash: hash,
        created_at: now,
        last_used_at: None,
        use_count: 0,
        pinned: 0,
    }
}

/// What stands in the list for an image.
pub open spec fn image_caption(width: nat, height: nat) -> Seq<char> {
    "[Image "@ + number::decimal(width) + "x"@ + number::decimal(height) + "]"@
}

/// The row of an image that has just been copied.
pub open spec fn image_row(
    width: usize,
    height: usize,
    packed: Seq<u8>,
    thumbnail: Option<(Seq<u8>, i64, i64)>,
    hash: Seq<char>,
    now: i64,
) -> RecordView {
    RecordView {
        id: 0,
        kind: "image"@,
        text_content: image_caption(width as nat, height as nat),
        image_bytes: Some(packed),
        image_encoding: Some("lz4-rgba"@),
        image_width: Some(width as i64),
        image_height: Some(height as i64),
        thumbnail_bytes: match thumbnail {
            Some(t) => Some(t.0),
            None => None,
        },
        thumbnail_width: match thumbnail {
            Some(t) => Some(t.1),
            None => None,
        },
        thumbnail_height: match thumbnail {
            Some(t) => Some(t.2),
            None => None,
        },
        content_hash: hash,
        created_at: now,
        last_used_at: None,
        use_count: 0,
        pinned: 0,
    }
}

/// What a store holds after another limit is set.
pub open spec fn limited(store: StoreView, value: i64) -> StoreView {
    let limit = settings::clamped_limit(value as int);
    StoreView {
        clips: history::pruned(store.clips, limit),
        settings: store.settings.insert("retention_limit"@, number::signed_decimal(limit)),
        ..store
    }
}

/// A copied text is taken, under the returned id, or it is blank and nothing
/// changes.
pub open spec fn upserts_text(
    before: StoreView,
    after: StoreView,
    text: Seq<char>,
    now: i64,
    r: Option<i64>,
) -> bool {
    let content = normalized(text);
    let hash = digest::text_hash("text"@, content);
    match r {
        None => text::trimmed(content).len() == 0 && after == before,
        Some(id) => {
            &&& text::trimmed(content).len() > 0
            &&& takes_id(before.clips, hash, id)
            &&& after == (StoreView {
                clips: history::pruned(
                    stored(before.clips, id, text_row(content, hash, now)),
                    settings::retention(before.settings),
                ),
                ..before
            })
        },
    }
}

/// A copied image is taken, under the returned id and with some packing of its
/// pixels, or it has no pixels and nothing changes.
pub open spec fn upserts_image(
    before: StoreView,
    after: StoreView,
    image: ImageData,
    scaled_width: nat,
    scaled_height: nat,
    now: i64,
    r: Option<i64>,
) -> bool {
    let width = image.width as nat;
    let height = image.height as nat;
    let bytes = image.bytes@;
    let hash = digest::image_hash(width, height, bytes);
    let thumbnail = image::thumbnail_of(width, height, bytes, scaled_width, scaled_height);
    match r {
        None => (width == 0 || height == 0 || bytes.len() == 0) && after == before,
        Some(id) => {
            &&& width > 0 && height > 0 && bytes.len() > 0
            &&& takes_id(before.clips, hash, id)
            &&& exists|packed: Seq<u8>| #[trigger]
                image::is_packing(packed, bytes) && after == (StoreView {
                    clips: history::pruned(
                        stored(
                            before.clips,
                            id,
                            image_row(image.width, image.height, packed, thumbnail, hash, now),
                        ),
                        settings::retention(before.settings),
                    ),
                    ..before
                })
        },
    }
}

/// A search for the query cannot be answered: there are clips to search, and
/// the pattern is too long.
pub open spec fn search_fails(clips: Map<i64, RecordView>, query: Seq<char>, limit: int) -> bool {
    &&& limit != 0
    &&& text::trimmed(query).len() > 0
    &&& search::is_too_long(text::trimmed(query))
    &&& exists|id: i64| #[trigger] clips.contains_key(id) && history::is_listable(clips[id])
}

// ---------------------------------------------------------------------------
// Rows
// ---------------------------------------------------------------------------

/// To change a row and keep its content is to keep the contents distinct.
proof fn lemma_same_contents(rows: Seq<ClipRecord>, at: int, row: ClipRecord)
    requires
        history::distinct_contents(rows),
        0 <= at < rows.len(),
        row.content_hash@ == rows[at].content_hash@,
    ensures
        history::distinct_contents(rows.update(at, row)),
{
    let after = rows.update(at, row);
    assert forall|i: int, j: int|
        0 <= i < after.len() && 0 <= j < after.len() && #[trigger] after[i].content_hash@
            == #[trigger] after[j].content_hash@ implies i == j by {
        assert(rows[i].content_hash@ == rows[j].content_hash@);
    }
}

fn row_outranks(a: &ClipRecord, b: &ClipRecord) -> (r: bool)
    ensures
        r == history::outranks(a@, b@),
{
    a.created_at > b.created_at || a.created_at == b.created_at && a.id < b.id
}

fn row_precedes(a: &ClipRecord, b: &ClipRecord) -> (r: bool)
    ensures
        r == history::precedes(a@, b@),
{
    a.pinned > b.pinned || a.pinned == b.pinned && row_outranks(a, b)
}

/// Whether a row is of a kind that lists show.
fn is_shown(row: &ClipRecord) -> (r: bool)
    ensures
        r == history::is_listable(row@),
{
    same_text(row.kind.as_str(), "text") || same_text(row.kind.as_str(), "image")
}

/// The indices of the rows that a query shows, among those before `upto`, in
/// the order of the list.
spec fn is_order(rows: Seq<ClipRecord>, query: Seq<char>, order: Seq<usize>, upto: int) -> bool {
    &&& forall|k: int|
        0 <= k < order.len() ==> #[trigger] order[k] < upto && history::is_visible(
            rows[order[k] as int]@,
            query,
        )
    &&& forall|k: int, l: int|
        0 <= k < l < order.len() ==> history::precedes(
            rows[#[trigger] order[k] as int]@,
            rows[#[trigger] order[l] as int]@,
        )
    &&& forall|i: int|
        0 <= i < upto && history::is_visible(#[trigger] rows[i]@, query) ==> order.contains(
            i as usize,
        )
}

/// The first clips of the order make up the list.
proof fn lemma_order_lists(
    rows: Seq<ClipRecord>,
    query: Seq<char>,
    order: Seq<usize>,
    limit: int,
    clips: Seq<Clip>,
)
    requires
        history::distinct_ids(rows),
        rows.len() <= usize::MAX,
        is_order(rows, query, order, rows.len() as int),
        clips.len() <= order.len(),
        limit >= 0 ==> clips.len() <= limit,
        clips.len() < order.len() ==> clips.len() == limit,
        forall|k: int|
            0 <= k < clips.len() ==> (#[trigger] clips[k])@ == rows[order[k] as int]@.summary(),
    ensures
        history::is_listing(history::by_id(rows), query, limit, clip::clip_views(clips)),
{
    let all = history::by_id(rows);
    let listing = clip::clip_views(clips);
    assert forall|i: int| 0 <= i < listing.len() implies {
        &&& all.contains_key(#[trigger] listing[i].id)
        &&& all[listing[i].id] == rows[order[i] as int]@
        &&& history::is_visible(all[listing[i].id], query)
        &&& listing[i] == all[listing[i].id].summary()
    } by {
        assert(clips[i]@ == rows[order[i] as int]@.summary());
        assert(order[i] < rows.len());
        history::lemma_row(rows, order[i] as int);
    }
    assert forall|i: int, j: int| 0 <= i < j < listing.len() implies history::precedes(
        all[#[trigger] listing[i].id],
        all[#[trigger] listing[j].id],
    ) by {
        assert(history::precedes(rows[order[i] as int]@, rows[order[j] as int]@));
    }
    assert forall|id: i64| #[trigger]
        all.contains_key(id) && history::is_visible(all[id], query) && !history::lists(
            listing,
            id,
        ) implies {
        &&& listing.len() == limit
        &&& forall|i: int|
            0 <= i < listing.len() ==> history::precedes(all[#[trigger] listing[i].id], all[id])
    } by {
        let r = choose|r: int| 0 <= r < rows.len() && #[trigger] rows[r].id == id;
        history::lemma_row(rows, r);
        assert(history::is_visible(rows[r]@, query));
        assert(order.contains(r as usize));
        let k = choose|k: int| 0 <= k < order.len() && order[k] == r as usize;
        if k < listing.len() {
            assert(clips[k]@ == rows[order[k] as int]@.summary());
            assert(listing[k].id == id);
        }
        assert forall|i: int| 0 <= i < listing.len() implies history::precedes(
            all[#[trigger] listing[i].id],
            all[id],
        ) by {
            assert(history::precedes(rows[order[i] as int]@, rows[order[k] as int]@));
        }
    }
}

/// To put a row at its place into the order is to have it in the order.
proof fn lemma_placed(
    rows: Seq<ClipRecord>,
    query: Seq<char>,
    order: Seq<usize>,
    upto: usize,
    at: int,
)
    requires
        history::distinct_ids(rows),
        upto < rows.len(),
        is_order(rows, query, order, upto as int),
        history::is_visible(rows[upto as int]@, query),
        0 <= at <= order.len(),
        forall|k: int|
            0 <= k < at ==> history::precedes(
                rows[#[trigger] order[k] as int]@,
                rows[upto as int]@,
            ),
        at < order.len() ==> history::precedes(rows[upto as int]@, rows[order[at] as int]@),
    ensures
        is_order(rows, query, order.insert(at, upto), upto + 1),
{
    let after = order.insert(at, upto);
    assert forall|k: int| 0 <= k < after.len() implies #[trigger] after[k] < upto + 1
        && history::is_visible(rows[after[k] as int]@, query) by {
        if k < at {
            assert(after[k] == order[k]);
        } else if k > at {
            assert(after[k] == order[k - 1]);
        }
    }
    assert forall|k: int, l: int| 0 <= k < l < after.len() implies history::precedes(
        rows[#[trigger] after[k] as int]@,
        rows[#[trigger] after[l] as int]@,
    ) by {
        let a = if k < at { k } else { k - 1 };
        let b = if l < at { l } else { l - 1 };
        if k != at && l != at {
            assert(after[k] == order[a] && after[l] == order[b]);
            assert(history::precedes(rows[order[a] as int]@, rows[order[b] as int]@));
        } else if k == at {
            assert(after[l] == order[b]);
            if b > at {
                assert(history::precedes(rows[order[at] as int]@, rows[order[b] as int]@));
            }
        } else {
            assert(after[k] == order[a]);
        }
    }
    assert forall|i: int|
        0 <= i < upto + 1 && history::is_visible(
            #[trigger] rows[i]@,
            query,
        ) implies after.contains(i as usize) by {
        if i == upto {
            assert(after[at] == upto);
        } else {
            assert(order.contains(i as usize));
            let k = choose|k: int| 0 <= k < order.len() && order[k] == i as usize;
            let l = if k < at { k } else { k + 1 };
            assert(after[l] == i as usize);
        }
    }
}

impl Store {
    /// Whether there are clips of a kind that lists show.
    fn shows_any(&self) -> (r: bool)
        requires
            self.wf(),
        ensures
            r == exists|id: i64| #[trigger]
                self@.clips.contains_key(id) && history::is_listable(self@.clips[id]),
    {
        let mut i: usize = 0;
        while i < self.rows.len()
            invariant
                self.wf(),
                i <= self.rows@.len(),
                forall|k: int| 0 <= k < i ==> !history::is_listable(#[trigger] self.rows@[k]@),
            decreases self.rows@.len() - i,
        {
            if is_shown(&self.rows[i]) {
                proof {
                    history::lemma_row(self.rows@, i as int);
                    assert(self@.clips.contains_key(self.rows@[i as int].id));
                }
                return true;
            }
            i = i + 1;
        }
        proof {
            assert forall|id: i64| #[trigger]
                self@.clips.contains_key(id) implies !history::is_listable(self@.clips[id]) by {
                let k = choose|k: int|
                    0 <= k < self.rows@.len() && #[trigger] self.rows@[k].id == id;
                history::lemma_row(self.rows@, k);
                assert(!history::is_listable(self.rows@[k]@));
            }
        }
        false
    }

    /// Whether the text of a row holds the searched one, or ends with it. The
    /// searched one is given in lower case.
    fn row_matches(&self, i: usize, needle: &Vec<char>, at_end: bool) -> (r: bool)
        requires
            i < self.rows@.len(),
        ensures
            ({
                let searched = text::lowered(
                    text::until_zero(self.rows@[i as int]@.text_content),
                );
                r == if at_end {
                    needle@.is_suffix_of(searched)
                } else {
                    text::has_part(searched, needle@)
                }
            }),
    {
        let searched = lower_chars(
            &cut_at_zero(&chars_of(self.rows[i].text_content.as_str())),
        );
        if at_end {
            ends_with(&searched, needle)
        } else {
            find_part(&searched, needle)
        }
    }

    /// Puts the row `i` at its place into the order of the rows before it.
    fn place(&self, query: Ghost<Seq<char>>, order: &mut Vec<usize>, i: usize)
        requires
            self.wf(),
            i < self.rows@.len(),
            is_order(self.rows@, query@, old(order)@, i as int),
            history::is_visible(self.rows@[i as int]@, query@),
        ensures
            is_order(self.rows@, query@, final(order)@, i + 1),
    {
        let mut at: usize = 0;
        while at < order.len() && row_precedes(&self.rows[order[at]], &self.rows[i])
            invariant
                self.wf(),
                i < self.rows@.len(),
                at <= order@.len(),
                is_order(self.rows@, query@, order@, i as int),
                forall|k: int|
                    0 <= k < at ==> history::precedes(
                        self.rows@[#[trigger] order@[k] as int]@,
                        self.rows@[i as int]@,
                    ),
            decreases order@.len() - at,
        {
            at = at + 1;
        }
        proof {
            if at < order@.len() {
                assert(order@[at as int] < i);
                assert(self.rows@[order@[at as int] as int].id != self.rows@[i as int].id);
            }
            lemma_placed(self.rows@, query@, order@, i, at as int);
        }
        order.insert(at, i);
    }

    /// The clips of the first rows of the order, no more than the limit where
    /// it is not negative.
    fn summaries(&self, order: &Vec<usize>, limit: i64) -> (r: Vec<Clip>)
        requires
            forall|k: int| 0 <= k < order@.len() ==> #[trigger] order@[k] < self.rows@.len(),
        ensures
            r@.len() <= order@.len(),
            limit >= 0 ==> r@.len() <= limit,
            r@.len() < order@.len() ==> r@.len() == limit,
            forall|k: int|
                0 <= k < r@.len() ==> (#[trigger] r@[k])@
                    == self.rows@[order@[k] as int]@.summary(),
    {
        let mut clips: Vec<Clip> = Vec::new();
        let mut k: usize = 0;
        while k < order.len() && (limit < 0 || (k as u64) < (limit as u64))
            invariant
                k <= order@.len(),
                limit >= 0 ==> k <= limit,
                clips@.len() == k,
                forall|j: int| 0 <= j < order@.len() ==> #[trigger] order@[j] < self.rows@.len(),
                forall|j: int|
                    0 <= j < k ==> (#[trigger] clips@[j])@
                        == self.rows@[order@[j] as int]@.summary(),
            decreases order@.len() - k,
        {
            clips.push(row_to_summary(&self.rows[order[k]]));
            k = k + 1;
        }
        clips
    }
}

impl Store {
    /// No two clips have the same id or the same content, and no two settings
    /// the same name; and the clips can be counted.
    pub closed spec fn wf(self) -> bool {
        &&& self.rows@.len() <= i64::MAX
        &&& history::distinct_ids(self.rows@)
        &&& history::distinct_contents(self.rows@)
        &&& settings::distinct_keys(self.settings@)
    }

    /// A store without clips and settings.
    pub fn new(path: String) -> (r: Self)
        ensures
            r.wf(),
            r@.path == path@,
            r@.clips == Map::<i64, RecordView>::empty(),
            r@.settings == Map::<Seq<char>, Seq<char>>::empty(),
    {
        let r = Store { path, rows: Vec::new(), settings: Vec::new() };
        proof {
            assert(history::by_id(r.rows@) =~= Map::<i64, RecordView>::empty());
            assert(settings::by_key(r.settings@) =~= Map::<Seq<char>, Seq<char>>::empty());
        }
        r
    }

    /// A store with the given clips and settings, if no two of them are the
    /// same and the clips can be counted.
    pub fn from_rows(path: String, rows: Vec<ClipRecord>, settings: Vec<Setting>) -> (r: Option<
        Self,
    >)
        ensures
            match r {
                Some(store) => {
                    &&& rows@.len() <= i64::MAX
                    &&& history::distinct_ids(rows@)
                    &&& history::distinct_contents(rows@)
                    &&& settings::distinct_keys(settings@)
                    &&& store.wf()
                    &&& store@ == (StoreView {
                        path: path@,
                        clips: history::by_id(rows@),
                        settings: settings::by_key(settings@),
                    })
                },
                None => rows@.len() > i64::MAX || !history::distinct_ids(rows@)
                    || !history::distinct_contents(rows@) || !settings::distinct_keys(settings@),
            },
    {
        if rows.len() as u64 > i64::MAX as u64 {
            return None;
        }
        let mut i: usize = 0;
        while i < rows.len()
            invariant
                i <= rows@.len(),
                forall|a: int, b: int|
                    0 <= a < i && 0 <= b < a ==> #[trigger] rows@[a].id != #[trigger] rows@[b].id,
                forall|a: int, b: int|
                    0 <= a < i && 0 <= b < a ==> #[trigger] rows@[a].content_hash@
                        != #[trigger] rows@[b].content_hash@,
            decreases rows@.len() - i,
        {
            let mut j: usize = 0;
            while j < i
                invariant
                    j <= i < rows@.len(),
                    forall|b: int| 0 <= b < j ==> rows@[i as int].id != #[trigger] rows@[b].id,
                    forall|b: int|
                        0 <= b < j ==> rows@[i as int].content_hash@
                            != #[trigger] rows@[b].content_hash@,
                decreases i - j,
            {
                if rows[i].id == rows[j].id {
                    assert(!history::distinct_ids(rows@));
                    return None;
                }
                if same_text(rows[i].content_hash.as_str(), rows[j].content_hash.as_str()) {
                    assert(!history::distinct_contents(rows@));
                    return None;
                }
                j = j + 1;
            }
            i = i + 1;
        }
        let mut i: usize = 0;
        while i < settings.len()
            invariant
                i <= settings@.len(),
                forall|a: int, b: int|
                    0 <= a < i && 0 <= b < a ==> #[trigger] settings@[a].key@
                        != #[trigger] settings@[b].key@,
            decreases settings@.len() - i,
        {
            let mut j: usize = 0;
            while j < i
                invariant
                    j <= i < settings@.len(),
                    forall|b: int|
                        0 <= b < j ==> settings@[i as int].key@ != #[trigger] settings@[b].key@,
                decreases i - j,
            {
                if same_text(settings[i].key.as_str(), settings[j].key.as_str()) {
                    assert(!settings::distinct_keys(settings@));
                    return None;
                }
                j = j + 1;
            }
            i = i + 1;
        }
        Some(Store { path, rows, settings })
    }

    /// A well-formed store holds a history that can be counted.
    pub proof fn holds_history(self)
        requires
            self.wf(),
        ensures
            history::is_history(self@.clips),
            self@.clips.dom().len() <= i64::MAX,
    {
        history::lemma_rows_make_history(self.rows@);
    }

    /// Where the store is kept.
    pub fn path(&self) -> (r: &str)
        ensures
            r@ == self@.path,
    {
        self.path.as_str()
    }

    /// The rows of the history.
    pub fn rows(&self) -> (r: &Vec<ClipRecord>)
        requires
            self.wf(),
        ensures
            history::distinct_ids(r@),
            history::by_id(r@) == self@.clips,
            r@.len() == self@.clips.dom().len(),
    {
        proof {
            history::lemma_rows_make_history(self.rows@);
        }
        &self.rows
    }

    /// The index of the row with the id.
    fn find(&self, id: i64) -> (r: Option<usize>)
        requires
            self.wf(),
        ensures
            match r {
                Some(i) => i < self.rows@.len() && self.rows@[i as int].id == id
                    && self@.clips.contains_key(id) && self@.clips[id] == self.rows@[i as int]@,
                None => !self@.clips.contains_key(id),
            },
    {
        let mut i: usize = 0;
        while i < self.rows.len()
            invariant
                self.wf(),
                i <= self.rows@.len(),
                forall|k: int| 0 <= k < i ==> #[trigger] self.rows@[k].id != id,
            decreases self.rows@.len() - i,
        {
            if self.rows[i].id == id {
                proof {
                    history::lemma_row(self.rows@, i as int);
                }
                return Some(i);
            }
            i = i + 1;
        }
        None
    }

    /// The index of the row with the content.
    fn find_content(&self, hash: &str) -> (r: Option<usize>)
        requires
            self.wf(),
        ensures
            match r {
                Some(i) => i < self.rows@.len() && self.rows@[i as int].content_hash@ == hash@
                    && holds_content(self@.clips, hash@),
                None => !holds_content(self@.clips, hash@)
                    && forall|k: int|
                    0 <= k < self.rows@.len() ==> #[trigger] self.rows@[k].content_hash@ != hash@,
            },
    {
        let mut i: usize = 0;
        while i < self.rows.len()
            invariant
                self.wf(),
                i <= self.rows@.len(),
                forall|k: int| 0 <= k < i ==> #[trigger] self.rows@[k].content_hash@ != hash@,
            decreases self.rows@.len() - i,
        {
            if same_text(self.rows[i].content_hash.as_str(), hash) {
                proof {
                    history::lemma_row(self.rows@, i as int);
                    assert(self@.clips.contains_key(self.rows@[i as int].id));
                }
                return Some(i);
            }
            i = i + 1;
        }
        proof {
            assert forall|id: i64| #[trigger]
                self@.clips.contains_key(id) implies self@.clips[id].content_hash != hash@ by {
                let k = choose|k: int|
                    0 <= k < self.rows@.len() && #[trigger] self.rows@[k].id == id;
                history::lemma_row(self.rows@, k);
            }
        }
        None
    }

    /// The clips that a query shows, pinned ones first, then the newest, no
    /// more than the limit. A blank query shows them all, and so does a
    /// negative limit. The full images are left out.
    pub fn list(&self, query: &str, limit: i64) -> (r: Result<Vec<Clip>, StoreError>)
        requires
            self.wf(),
        ensures
            match r {
                Ok(clips) => {
                    let listing = clip::clip_views(clips@);
                    &&& !search_fails(self@.clips, query@, limit as int)
                    &&& history::is_listing(self@.clips, query@, limit as int, listing)
                    &&& listing == history::listing(self@.clips, query@, limit as int)
                    &&& forall|i: int|
                        0 <= i < listing.len() ==> laws::is_blank(query@) || laws::like_finds(
                            query@,
                            (#[trigger] listing[i]).text,
                        )
                },
                Err(error) => error == StoreError::PatternTooLong && search_fails(
                    self@.clips,
                    query@,
                    limit as int,
                ),
            },
    {
        let wanted = trim(query);
        let searches = !wanted.as_str().is_empty();
        let all = chars_of(wanted.as_str());
        let cut = cut_at_zero(&all);
        let at_end = cut.len() < all.len();
        let needle = lower_chars(&cut);
        if limit != 0 && searches && exceeds_pattern_limit(wanted.as_str()) && self.shows_any() {
            return Err(StoreError::PatternTooLong);
        }
        let mut order: Vec<usize> = Vec::new();
        let mut i: usize = 0;
        while i < self.rows.len()
            invariant
                self.wf(),
                i <= self.rows@.len(),
                searches == (text::trimmed(query@).len() > 0),
                needle@ == text::lowered(text::until_zero(text::trimmed(query@))),
                at_end == text::trimmed(query@).contains('\0'),
                is_order(self.rows@, query@, order@, i as int),
            decreases self.rows@.len() - i,
        {
            if is_shown(&self.rows[i]) && (!searches || self.row_matches(i, &needle, at_end)) {
                self.place(Ghost(query@), &mut order, i);
            }
            i = i + 1;
        }
        let clips = self.summaries(&order, limit);
        proof {
            lemma_order_lists(self.rows@, query@, order@, limit as int, clips@);
            self.holds_history();
            laws::list_shows_what_like_finds(
                self@.clips,
                query@,
                limit as int,
                clip::clip_views(clips@),
            );
            history::listing_is_unique(
                self@.clips,
                query@,
                limit as int,
                clip::clip_views(clips@),
                history::listing(self@.clips, query@, limit as int),
            );
        }
        Ok(clips)
    }
}

impl Store {
    /// How many clips there are.
    pub fn count(&self) -> (r: i64)
        requires
            self.wf(),
        ensures
            r == self@.clips.dom().len(),
    {
        proof {
            history::lemma_rows_make_history(self.rows@);
        }
        self.rows.len() as i64
    }

    /// The clip with the id, with its full image.
    pub fn get(&self, id: i64) -> (r: Option<Clip>)
        requires
            self.wf(),
        ensures
            match r {
                Some(clip) => self@.clips.contains_key(id) && clip@ == self@.clips[id].clip(),
                None => !self@.clips.contains_key(id),
            },
    {
        match self.find(id) {
            Some(i) => Some(row_to_clip(&self.rows[i])),
            None => None,
        }
    }

    /// The id for a clip that is new in the history.
    fn new_id(&self) -> (r: i64)
        requires
            self.wf(),
            self@.clips.dom().len() < i64::MAX,
        ensures
            is_new_id(self@.clips, r),
    {
        if self.rows.len() == 0 {
            assert(self@.clips.dom() =~= Set::<i64>::empty());
            return 1;
        }
        let mut highest: i64 = self.rows[0].id;
        let mut i: usize = 1;
        proof {
            history::lemma_row(self.rows@, 0);
        }
        while i < self.rows.len()
            invariant
                self.wf(),
                1 <= i <= self.rows@.len(),
                self@.clips.contains_key(highest),
                forall|k: int| 0 <= k < i ==> #[trigger] self.rows@[k].id <= highest,
            decreases self.rows@.len() - i,
        {
            if self.rows[i].id > highest {
                highest = self.rows[i].id;
                proof {
                    history::lemma_row(self.rows@, i as int);
                }
            }
            i = i + 1;
        }
        proof {
            assert forall|id: i64| #[trigger]
                self@.clips.contains_key(id) implies id <= highest by {
                let k = choose|k: int|
                    0 <= k < self.rows@.len() && #[trigger] self.rows@[k].id == id;
            }
            assert(self@.clips.dom().contains(highest));
        }
        if highest < i64::MAX {
            highest + 1
        } else {
            self.free_id()
        }
    }

    /// The lowest positive id that is free.
    fn free_id(&self) -> (r: i64)
        requires
            self.wf(),
            self@.clips.dom().len() < i64::MAX,
        ensures
            r > 0,
            !self@.clips.contains_key(r),
    {
        let mut id: i64 = 1;
        while self.find(id).is_some()
            invariant
                self.wf(),
                self@.clips.dom().len() < i64::MAX,
                id >= 1,
                forall|k: i64| 1 <= k < id ==> #[trigger] self@.clips.contains_key(k),
            decreases i64::MAX - id,
        {
            proof {
                history::lemma_rows_make_history(self.rows@);
                let taken = Set::<i64>::range_inclusive(1, id);
                i64::range_properties(1, (id + 1) as i64);
                assert(taken.subset_of(self@.clips.dom()));
                lemma_len_subset(taken, self@.clips.dom());
            }
            id = id + 1;
        }
        id
    }
}

impl Store {
    /// Takes a clip into the history. What the row says of its id, its pin and
    /// its use is for a clip that is new.
    fn put(&mut self, row: ClipRecord) -> (r: i64)
        requires
            old(self).wf(),
            old(self)@.clips.dom().len() < i64::MAX,
        ensures
            final(self).wf(),
            takes_id(old(self)@.clips, row@.content_hash, r),
            final(self)@ == (StoreView {
                clips: stored(old(self)@.clips, r, row@),
                ..old(self)@
            }),
    {
        let mut row = row;
        proof {
            history::lemma_rows_make_history(self.rows@);
        }
        match self.find_content(row.content_hash.as_str()) {
            Some(i) => {
                let id: i64 = self.rows[i].id;
                row.id = id;
                row.last_used_at = self.rows[i].last_used_at;
                row.use_count = self.rows[i].use_count;
                row.pinned = self.rows[i].pinned;
                proof {
                    history::lemma_row(self.rows@, i as int);
                    history::lemma_rows_update(self.rows@, i as int, row);
                    lemma_same_contents(self.rows@, i as int, row);
                }
                self.rows.set(i, row);
                id
            },
            None => {
                let id = self.new_id();
                row.id = id;
                proof {
                    let after = self.rows@.push(row);
                    assert forall|a: int, b: int|
                        0 <= a < after.len() && 0 <= b < after.len() && #[trigger] after[a].id
                            == #[trigger] after[b].id implies a == b by {
                        if a < self.rows@.len() {
                            history::lemma_row(self.rows@, a);
                        }
                        if b < self.rows@.len() {
                            history::lemma_row(self.rows@, b);
                        }
                    }
                    history::lemma_rows_push(self.rows@, row);
                }
                self.rows.push(row);
                id
            },
        }
    }

    /// How many clips are not pinned, and the index of the oldest of them.
    fn oldest_unpinned(&self) -> (r: (usize, usize))
        requires
            self.wf(),
        ensures
            r.0 == history::unpinned(self@.clips).len(),
            r.0 > 0 ==> r.1 < self.rows@.len() && history::is_oldest(
                self@.clips,
                self.rows@[r.1 as int].id,
            ),
    {
        let mut count: usize = 0;
        let mut oldest: usize = 0;
        let mut i: usize = 0;
        proof {
            assert(history::unpinned(history::by_id(self.rows@.take(0))) =~= Set::<i64>::empty());
        }
        while i < self.rows.len()
            invariant
                self.wf(),
                i <= self.rows@.len(),
                count <= i,
                history::distinct_ids(self.rows@.take(i as int)),
                history::unpinned(history::by_id(self.rows@.take(i as int))).finite(),
                count == history::unpinned(history::by_id(self.rows@.take(i as int))).len(),
                count > 0 ==> oldest < i && self.rows@[oldest as int].pinned == 0,
                forall|k: int|
                    0 <= k < i && k != oldest && (#[trigger] self.rows@[k]).pinned == 0 ==> count
                        > 0 && history::outranks(self.rows@[k]@, self.rows@[oldest as int]@),
                count == 0 ==> forall|k: int| 0 <= k < i ==> (#[trigger] self.rows@[k]).pinned != 0,
            decreases self.rows@.len() - i,
        {
            proof {
                lemma_take_more(self.rows@, i as int);
            }
            if self.rows[i].pinned == 0 {
                if count == 0 || row_outranks(&self.rows[oldest], &self.rows[i]) {
                    oldest = i;
                } else {
                    assert(self.rows@[oldest as int].id != self.rows@[i as int].id);
                }
                count = count + 1;
            }
            i = i + 1;
        }
        proof {
            assert(self.rows@.take(self.rows@.len() as int) =~= self.rows@);
            if count > 0 {
                let id = self.rows@[oldest as int].id;
                history::lemma_row(self.rows@, oldest as int);
                assert forall|other: i64| #[trigger]
                    history::unpinned(self@.clips).contains(other) && other
                        != id implies history::outranks(
                    self@.clips[other],
                    self@.clips[id],
                ) by {
                    assert(self@.clips.contains_key(other));
                    let k = choose|k: int|
                        0 <= k < self.rows@.len() && #[trigger] self.rows@[k].id == other;
                    history::lemma_row(self.rows@, k);
                    assert(self.rows@[k].pinned == 0);
                }
            }
        }
        (count, oldest)
    }

    /// Drops the oldest of the clips that are not pinned until there are no
    /// more of them than the limit. A negative limit drops none.
    pub fn prune(&mut self, limit: i64)
        requires
            old(self).wf(),
        ensures
            final(self).wf(),
            final(self)@ == (StoreView {
                clips: history::pruned(old(self)@.clips, limit as int),
                ..old(self)@
            }),
    {
        if limit < 0 {
            proof {
                history::lemma_rows_make_history(self.rows@);
                history::nothing_pruned_within_limit(self@.clips, limit as int);
            }
            return;
        }
        loop
            invariant
                limit >= 0,
                self.wf(),
                self@.path == old(self)@.path,
                self@.settings == old(self)@.settings,
                history::pruned(self@.clips, limit as int) == history::pruned(
                    old(self)@.clips,
                    limit as int,
                ),
            ensures
                self@.clips == history::pruned(old(self)@.clips, limit as int),
            decreases self.rows@.len(),
        {
            let (count, oldest) = self.oldest_unpinned();
            proof {
                history::lemma_rows_make_history(self.rows@);
            }
            if (count as u64) <= (limit as u64) {
                proof {
                    history::nothing_pruned_within_limit(self@.clips, limit as int);
                }
                break;
            }
            proof {
                history::lemma_drop_oldest(
                    self@.clips,
                    limit as int,
                    self.rows@[oldest as int].id,
                );
                history::lemma_rows_remove(self.rows@, oldest as int);
            }
            self.rows.remove(oldest);
        }
    }

    /// Takes a text with the given hash into the history.
    pub fn put_text(&mut self, text: String, hash: String, now: i64) -> (r: i64)
        requires
            old(self).wf(),
            old(self)@.clips.dom().len() < i64::MAX,
        ensures
            final(self).wf(),
            takes_id(old(self)@.clips, hash@, r),
            final(self)@ == (StoreView {
                clips: history::pruned(
                    stored(old(self)@.clips, r, text_row(text@, hash@, now)),
                    settings::retention(old(self)@.settings),
                ),
                ..old(self)@
            }),
    {
        let limit = self.retention_limit();
        let id = self.put(
            ClipRecord {
                id: 0,
                kind: "text".to_owned(),
                text_content: text,
                image_bytes: None,
                image_encoding: None,
                image_width: None,
                image_height: None,
                thumbnail_bytes: None,
                thumbnail_width: None,
                thumbnail_height: None,
                content_hash: hash,
                created_at: now,
                last_used_at: None,
                use_count: 0,
                pinned: 0,
            },
        );
        self.prune(limit);
        id
    }

    /// Takes a copied text into the history, as its newest clip, and returns
    /// its id. Zero characters around the text are left out. A blank text is
    /// not taken.
    pub fn upsert_text(&mut self, text: &str, now: i64) -> (r: Option<i64>)
        requires
            old(self).wf(),
            old(self)@.clips.dom().len() < i64::MAX,
        ensures
            final(self).wf(),
            upserts_text(old(self)@, final(self)@, text@, now, r),
    {
        let text = normalize_text(text);
        if trim(text.as_str()).as_str().is_empty() {
            return None;
        }
        let hash = content_hash("text", text.as_str());
        Some(self.put_text(text, hash, now))
    }

    /// Takes an image with the given packed pixels, thumbnail and hash into the
    /// history.
    pub fn put_image(
        &mut self,
        width: usize,
        height: usize,
        packed: Vec<u8>,
        thumbnail: Option<(Vec<u8>, i64, i64)>,
        hash: String,
        now: i64,
    ) -> (r: i64)
        requires
            old(self).wf(),
            old(self)@.clips.dom().len() < i64::MAX,
        ensures
            final(self).wf(),
            takes_id(old(self)@.clips, hash@, r),
            final(self)@ == (StoreView {
                clips: history::pruned(
                    stored(
                        old(self)@.clips,
                        r,
                        image_row(
                            width,
                            height,
                            packed@,
                            image::thumbnail_view(thumbnail),
                            hash@,
                            now,
                        ),
                    ),
                    settings::retention(old(self)@.settings),
                ),
                ..old(self)@
            }),
    {
        let limit = self.retention_limit();
        let (thumbnail_bytes, thumbnail_width, thumbnail_height) = match thumbnail {
            Some((bytes, width, height)) => (Some(bytes), Some(width), Some(height)),
            None => (None, None, None),
        };
        let id = self.put(
            ClipRecord {
                id: 0,
                kind: "image".to_owned(),
                text_content: caption_text(width, height),
                image_bytes: Some(packed),
                image_encoding: Some("lz4-rgba".to_owned()),
                image_width: Some(width as i64),
                image_height: Some(height as i64),
                thumbnail_bytes,
                thumbnail_width,
                thumbnail_height,
                content_hash: hash,
                created_at: now,
                last_used_at: None,
                use_count: 0,
                pinned: 0,
            },
        );
        self.prune(limit);
        id
    }

    /// Takes a copied image into the history, as its newest clip, and returns
    /// its id. The scaled sides are those of the picture in its thumbnail. An
    /// image without pixels is not taken.
    pub fn upsert_image(
        &mut self,
        image: &ImageData,
        scaled_width: usize,
        scaled_height: usize,
        now: i64,
    ) -> (r: Option<i64>)
        requires
            old(self).wf(),
            old(self)@.clips.dom().len() < i64::MAX,
            image.width > 0 && image.height > 0 ==> image::is_packable(image.bytes@),
        ensures
            final(self).wf(),
            upserts_image(
                old(self)@,
                final(self)@,
                *image,
                scaled_width as nat,
                scaled_height as nat,
                now,
                r,
            ),
            match r {
                Some(id) => final(self)@.clips.contains_key(id) && image.bytes@.len() <= u32::MAX
                    ==> image::decoded(final(self)@.clips[id].clip()) == Ok::<
                    Seq<u8>,
                    image::ImageFault,
                >(image.bytes@),
                None => true,
            },
    {
        if image.width == 0 || image.height == 0 || image.bytes.len() == 0 {
            return None;
        }
        let hash = content_hash_image(image.width, image.height, &image.bytes);
        let packed = pack_pixels(&image.bytes);
        let thumbnail = build_thumbnail_rgba(
            image.width,
            image.height,
            &image.bytes,
            scaled_width,
            scaled_height,
        );
        let ghost kept_bytes = packed@;
        let id = self.put_image(image.width, image.height, packed, thumbnail, hash, now);
        proof {
            assert(image::is_packing(kept_bytes, image.bytes@));
            reveal_strlit("rgba");
            reveal_strlit("lz4-rgba");
            assert("rgba"@.len() != "lz4-rgba"@.len());
            if self@.clips.contains_key(id) {
                let kept = self@.clips[id].clip();
                assert(kept.image_bytes == Some(kept_bytes));
                assert(kept.image_encoding == "lz4-rgba"@);
            }
        }
        Some(id)
    }

    /// Notes that a clip was used.
    pub fn mark_used(&mut self, id: i64, now: i64)
        requires
            old(self).wf(),
            old(self)@.clips.contains_key(id) ==> old(self)@.clips[id].use_count < i64::MAX,
        ensures
            final(self).wf(),
            final(self)@ == (StoreView { clips: used(old(self)@.clips, id, now), ..old(self)@ }),
    {
        match self.find(id) {
            Some(i) => {
                let count: i64 = self.rows[i].use_count + 1;
                self.rows[i].last_used_at = Some(now);
                self.rows[i].use_count = count;
                proof {
                    assert(self.rows@ =~= old(self).rows@.update(i as int, self.rows@[i as int]));
                    history::lemma_rows_update(old(self).rows@, i as int, self.rows@[i as int]);
                    lemma_same_contents(old(self).rows@, i as int, self.rows@[i as int]);
                }
            },
            None => {},
        }
    }

    /// Pins a clip, or unpins it.
    pub fn toggle_pin(&mut self, id: i64)
        requires
            old(self).wf(),
        ensures
            final(self).wf(),
            final(self)@ == (StoreView { clips: toggled(old(self)@.clips, id), ..old(self)@ }),
    {
        match self.find(id) {
            Some(i) => {
                let flag: i64 = if self.rows[i].pinned == 0 {
                    1
                } else {
                    0
                };
                self.rows[i].pinned = flag;
                proof {
                    history::lemma_rows_update(old(self).rows@, i as int, self.rows@[i as int]);
                    lemma_same_contents(old(self).rows@, i as int, self.rows@[i as int]);
                }
            },
            None => {},
        }
    }

    /// Takes a clip out of the history.
    pub fn delete(&mut self, id: i64)
        requires
            old(self).wf(),
        ensures
            final(self).wf(),
            final(self)@ == (StoreView { clips: old(self)@.clips.remove(id), ..old(self)@ }),
    {
        match self.find(id) {
            Some(i) => {
                proof {
                    history::lemma_rows_remove(self.rows@, i as int);
                }
                self.rows.remove(i);
            },
            None => {
                assert(self@.clips.remove(id) =~= self@.clips);
            },
        }
    }

    /// Takes all clips that are not pinned out of the history.
    pub fn clear_unpinned(&mut self)
        requires
            old(self).wf(),
        ensures
            final(self).wf(),
            final(self)@ == (StoreView { clips: only_pinned(old(self)@.clips), ..old(self)@ }),
    {
        let mut i: usize = 0;
        while i < self.rows.len()
            invariant
                self.wf(),
                i <= self.rows@.len(),
                self@.path == old(self)@.path,
                self@.settings == old(self)@.settings,
                only_pinned(self@.clips) == only_pinned(old(self)@.clips),
                forall|k: int| 0 <= k < i ==> (#[trigger] self.rows@[k]).pinned != 0,
            decreases self.rows@.len() - i,
        {
            if self.rows[i].pinned == 0 {
                proof {
                    let id = self.rows@[i as int].id;
                    history::lemma_row(self.rows@, i as int);
                    history::lemma_rows_remove(self.rows@, i as int);
                    assert(only_pinned(self@.clips.remove(id)) =~= only_pinned(self@.clips));
                }
                self.rows.remove(i);
            } else {
                i = i + 1;
            }
        }
        proof {
            assert forall|id: i64| #[trigger]
                self@.clips.contains_key(id) implies self@.clips[id].pinned != 0 by {
                let k = choose|k: int|
                    0 <= k < self.rows@.len() && #[trigger] self.rows@[k].id == id;
                history::lemma_row(self.rows@, k);
            }
            assert(only_pinned(self@.clips) =~= self@.clips);
        }
    }
}

/// The rows up to an index, and one more.
proof fn lemma_take_more(rows: Seq<ClipRecord>, i: int)
    requires
        history::distinct_ids(rows),
        0 <= i < rows.len(),
        history::unpinned(history::by_id(rows.take(i))).finite(),
    ensures
        history::distinct_ids(rows.take(i + 1)),
        history::unpinned(history::by_id(rows.take(i + 1))).finite(),
        history::unpinned(history::by_id(rows.take(i + 1))).len() == history::unpinned(
            history::by_id(rows.take(i)),
        ).len() + if rows[i].pinned == 0 {
            1int
        } else {
            0int
        },
{
    let before = rows.take(i);
    let after = rows.take(i + 1);
    assert(after =~= before.push(rows[i]));
    assert forall|a: int, b: int|
        0 <= a < after.len() && 0 <= b < after.len() && #[trigger] after[a].id
            == #[trigger] after[b].id implies a == b by {
        assert(rows[a].id == rows[b].id);
    }
    history::lemma_rows_push(before, rows[i]);
    let old_set = history::unpinned(history::by_id(before));
    let new_set = history::unpinned(history::by_id(after));
    if rows[i].pinned == 0 {
        assert(new_set =~= old_set.insert(rows[i].id));
    } else {
        assert(new_set =~= old_set);
    }
}

/// The text without the zero characters around it.
pub fn normalize_text(text: &str) -> (r: String)
    ensures
        r@ == normalized(text@),
{
    strip_text(text, Strip::Only('\0'))
}

/// What stands in the list for an image.
fn caption_text(width: usize, height: usize) -> (r: String)
    ensures
        r@ == image_caption(width as nat, height as nat),
{
    let mut out = "[Image ".to_owned();
    push_decimal(&mut out, width as u64);
    out.append("x");
    push_decimal(&mut out, height as u64);
    out.append("]");
    out
}

// ---------------------------------------------------------------------------
// Settings
// ---------------------------------------------------------------------------

impl Store {
    /// The value of a setting.
    pub fn get_setting(&self, key: &str) -> (r: Option<String>)
        requires
            self.wf(),
        ensures
            match r {
                Some(value) => self@.settings.contains_key(key@) && value@
                    == self@.settings[key@],
                None => !self@.settings.contains_key(key@),
            },
    {
        let mut i: usize = 0;
        while i < self.settings.len()
            invariant
                self.wf(),
                i <= self.settings@.len(),
                forall|k: int| 0 <= k < i ==> #[trigger] self.settings@[k].key@ != key@,
            decreases self.settings@.len() - i,
        {
            if same_text(self.settings[i].key.as_str(), key) {
                proof {
                    settings::lemma_setting(self.settings@, i as int);
                }
                return Some(self.settings[i].value.clone());
            }
            i = i + 1;
        }
        None
    }

    /// Sets a setting.
    pub fn set_setting(&mut self, key: &str, value: &str)
        requires
            old(self).wf(),
        ensures
            final(self).wf(),
            final(self)@ == (StoreView {
                settings: old(self)@.settings.insert(key@, value@),
                ..old(self)@
            }),
    {
        let one = Setting { key: key.to_owned(), value: value.to_owned() };
        let mut i: usize = 0;
        while i < self.settings.len()
            invariant
                self.wf(),
                *self == *old(self),
                one.key@ == key@,
                one.value@ == value@,
                i <= self.settings@.len(),
                forall|k: int| 0 <= k < i ==> #[trigger] self.settings@[k].key@ != key@,
            decreases self.settings@.len() - i,
        {
            if same_text(self.settings[i].key.as_str(), key) {
                proof {
                    settings::lemma_settings_update(self.settings@, i as int, one);
                }
                self.settings.set(i, one);
                return;
            }
            i = i + 1;
        }
        proof {
            settings::lemma_settings_push(self.settings@, one);
        }
        self.settings.push(one);
    }

    /// How many clips that are not pinned are kept.
    pub fn retention_limit(&self) -> (r: i64)
        requires
            self.wf(),
        ensures
            r == settings::retention(self@.settings),
    {
        let raw: i64 = match self.get_setting("retention_limit") {
            Some(value) => match parse_i64(value.as_str()) {
                Some(n) => n,
                None => DEFAULT_RETENTION_LIMIT,
            },
            None => DEFAULT_RETENTION_LIMIT,
        };
        clamp_limit(raw)
    }

    /// Sets how many clips that are not pinned are kept, within the range of
    /// the limits, and drops those that are too many.
    pub fn set_retention_limit(&mut self, value: i64)
        requires
            old(self).wf(),
        ensures
            final(self).wf(),
            final(self)@ == limited(old(self)@, value),
    {
        let value: i64 = clamp_limit(value);
        self.set_setting("retention_limit", signed_text(value).as_str());
        self.prune(value);
    }

    /// The hotkey that opens the picker.
    pub fn hotkey(&self) -> (r: String)
        requires
            self.wf(),
        ensures
            r@ == settings::hotkey_text(self@.settings),
    {
        match self.get_setting("hotkey") {
            Some(value) => if trim(value.as_str()).as_str().is_empty() {
                "Ctrl+Alt+V".to_owned()
            } else {
                value
            },
            None => "Ctrl+Alt+V".to_owned(),
        }
    }

    /// Sets the hotkey that opens the picker.
    pub fn set_hotkey(&mut self, value: &str)
        requires
            old(self).wf(),
        ensures
            final(self).wf(),
            final(self)@ == (StoreView {
                settings: old(self)@.settings.insert("hotkey"@, text::trimmed(value@)),
                ..old(self)@
            }),
    {
        self.set_setting("hotkey", trim(value).as_str());
    }

    /// Whether a selected clip is pasted.
    pub fn paste_on_select(&self) -> (r: bool)
        requires
            self.wf(),
        ensures
            r == settings::pastes_on_select(self@.settings),
    {
        match self.get_setting("paste_on_select") {
            Some(value) => !same_text(value.as_str(), "false"),
            None => true,
        }
    }

    /// Sets whether a selected clip is pasted.
    pub fn set_paste_on_select(&mut self, value: bool)
        requires
            old(self).wf(),
        ensures
            final(self).wf(),
            final(self)@ == (StoreView {
                settings: old(self)@.settings.insert("paste_on_select"@, settings::switch(value)),
                ..old(self)@
            }),
    {
        self.set_setting("paste_on_select", switch_text(value).as_str());
    }

    /// The theme: dark, light, or that of the system.
    pub fn theme_mode(&self) -> (r: String)
        requires
            self.wf(),
        ensures
            r@ == settings::theme_text(self@.settings),
    {
        match self.get_setting("theme_mode") {
            Some(value) => value,
            None => "system".to_owned(),
        }
    }

    /// Sets the theme.
    pub fn set_theme_mode(&mut self, value: &str)
        requires
            old(self).wf(),
        ensures
            final(self).wf(),
            final(self)@ == (StoreView {
                settings: old(self)@.settings.insert("theme_mode"@, value@),
                ..old(self)@
            }),
    {
        self.set_setting("theme_mode", value);
    }

    /// Whether the introduction was seen.
    pub fn onboarding_seen(&self) -> (r: bool)
        requires
            self.wf(),
        ensures
            r == settings::has_seen_onboarding(self@.settings),
    {
        match self.get_setting("onboarding_seen") {
            Some(value) => same_text(value.as_str(), "true"),
            None => false,
        }
    }

    /// Sets whether the introduction was seen.
    pub fn set_onboarding_seen(&mut self, value: bool)
        requires
            old(self).wf(),
        ensures
            final(self).wf(),
            final(self)@ == (StoreView {
                settings: old(self)@.settings.insert("onboarding_seen"@, settings::switch(value)),
                ..old(self)@
            }),
    {
        self.set_setting("onboarding_seen", switch_text(value).as_str());
    }

    /// Whether to start with Windows, if it was set.
    pub fn start_with_windows_preference(&self) -> (r: Option<bool>)
        requires
            self.wf(),
        ensures
            r == settings::startup_preference(self@.settings),
    {
        match self.get_setting("start_with_windows") {
            Some(value) => Some(!same_text(value.as_str(), "false")),
            None => None,
        }
    }

    /// Sets whether to start with Windows.
    pub fn set_start_with_windows_preference(&mut self, value: bool)
        requires
            old(self).wf(),
        ensures
            final(self).wf(),
            final(self)@ == (StoreView {
                settings: old(self)@.settings.insert(
                    "start_with_windows"@,
                    settings::switch(value),
                ),
                ..old(self)@
            }),
    {
        self.set_setting("start_with_windows", switch_text(value).as_str());
    }
}

} // verus!
