//! What the history is: the clips by their ids, which of them a search shows
//! and in which order, and which of them the retention limit keeps.

use crate::clip::{ClipRecord, ClipView, RecordView};
use crate::text;
use vstd::prelude::*;
use vstd::set_lib::*;

verus! {

// ---------------------------------------------------------------------------
// Rows and the history they make up
// ---------------------------------------------------------------------------

/// No two rows have the same id.
pub open spec fn distinct_ids(rows: Seq<ClipRecord>) -> bool {
    forall|i: int, j: int|
        0 <= i < rows.len() && 0 <= j < rows.len() && #[trigger] rows[i].id == #[trigger] rows[j].id
            ==> i == j
}

/// No two rows have the same content.
pub open spec fn distinct_contents(rows: Seq<ClipRecord>) -> bool {
    forall|i: int, j: int|
        0 <= i < rows.len() && 0 <= j < rows.len() && #[trigger] rows[i].content_hash@
            == #[trigger] rows[j].content_hash@ ==> i == j
}

/// A row with the id is among the rows.
pub open spec fn has_id(rows: Seq<ClipRecord>, id: i64) -> bool {
    exists|i: int| 0 <= i < rows.len() && #[trigger] rows[i].id == id
}

/// The rows by their ids.
pub open spec fn by_id(rows: Seq<ClipRecord>) -> Map<i64, RecordView> {
    Map::new(
        |id: i64| has_id(rows, id),
        |id: i64| rows[choose|i: int| 0 <= i < rows.len() && #[trigger] rows[i].id == id]@,
    )
}

/// A history: finitely many clips, each under its id, no content twice.
pub open spec fn is_history(clips: Map<i64, RecordView>) -> bool {
    &&& clips.dom().finite()
    &&& forall|id: i64| #[trigger] clips.contains_key(id) ==> clips[id].id == id
    &&& forall|a: i64, b: i64| #[trigger]
        clips.contains_key(a) && #[trigger] clips.contains_key(b) && clips[a].content_hash
            == clips[b].content_hash ==> a == b
}

/// Each row is the clip under its id.
pub proof fn lemma_row(rows: Seq<ClipRecord>, i: int)
    requires
        distinct_ids(rows),
        0 <= i < rows.len(),
    ensures
        by_id(rows).contains_key(rows[i].id),
        by_id(rows)[rows[i].id] == rows[i]@,
{
    assert(has_id(rows, rows[i].id));
    let k = choose|k: int| 0 <= k < rows.len() && #[trigger] rows[k].id == rows[i].id;
    assert(k == i);
}

/// The rows of a table with distinct ids and contents make up a history.
pub proof fn lemma_rows_make_history(rows: Seq<ClipRecord>)
    requires
        distinct_ids(rows),
        distinct_contents(rows),
    ensures
        is_history(by_id(rows)),
        by_id(rows).dom().len() == rows.len(),
{
    let clips = by_id(rows);
    lemma_id_count(rows);
    assert forall|id: i64| #[trigger] clips.contains_key(id) implies clips[id].id == id by {
        let i = choose|i: int| 0 <= i < rows.len() && #[trigger] rows[i].id == id;
        lemma_row(rows, i);
    }
    assert forall|a: i64, b: i64| #[trigger]
        clips.contains_key(a) && #[trigger] clips.contains_key(b) && clips[a].content_hash
            == clips[b].content_hash implies a == b by {
        let i = choose|i: int| 0 <= i < rows.len() && #[trigger] rows[i].id == a;
        let j = choose|j: int| 0 <= j < rows.len() && #[trigger] rows[j].id == b;
        lemma_row(rows, i);
        lemma_row(rows, j);
        assert(rows[i].content_hash@ == rows[j].content_hash@);
    }
}

proof fn lemma_id_count(rows: Seq<ClipRecord>)
    requires
        distinct_ids(rows),
    ensures
        by_id(rows).dom().finite(),
        by_id(rows).dom().len() == rows.len(),
    decreases rows.len(),
{
    if rows.len() == 0 {
        assert(by_id(rows).dom() =~= Set::<i64>::empty());
    } else {
        let front = rows.drop_last();
        assert forall|i: int, j: int|
            0 <= i < front.len() && 0 <= j < front.len() && #[trigger] front[i].id
                == #[trigger] front[j].id implies i == j by {
            assert(rows[i].id == rows[j].id);
        }
        lemma_id_count(front);
        lemma_rows_push(front, rows.last());
        assert(front.push(rows.last()) =~= rows);
    }
}

/// To append a row with a new id is to insert its clip.
pub proof fn lemma_rows_push(rows: Seq<ClipRecord>, row: ClipRecord)
    requires
        distinct_ids(rows.push(row)),
    ensures
        distinct_ids(rows),
        !by_id(rows).contains_key(row.id),
        by_id(rows.push(row)) == by_id(rows).insert(row.id, row@),
{
    let after = rows.push(row);
    assert forall|i: int, j: int|
        0 <= i < rows.len() && 0 <= j < rows.len() && #[trigger] rows[i].id
            == #[trigger] rows[j].id implies i == j by {
        assert(after[i].id == after[j].id);
    }
    assert(!has_id(rows, row.id)) by {
        if has_id(rows, row.id) {
            let i = choose|i: int| 0 <= i < rows.len() && #[trigger] rows[i].id == row.id;
            assert(after[i].id == after[rows.len() as int].id);
        }
    }
    let right = by_id(rows).insert(row.id, row@);
    assert forall|id: i64|
        (#[trigger] by_id(after).contains_key(id) <==> right.contains_key(id)) && (
        by_id(after).contains_key(id) ==> by_id(after)[id] == right[id]) by {
        if has_id(after, id) {
            let i = choose|i: int| 0 <= i < after.len() && #[trigger] after[i].id == id;
            lemma_row(after, i);
            if i < rows.len() {
                assert(rows[i].id == id);
                lemma_row(rows, i);
            }
        }
        if has_id(rows, id) {
            let i = choose|i: int| 0 <= i < rows.len() && #[trigger] rows[i].id == id;
            assert(after[i].id == id);
        }
        assert(after[rows.len() as int].id == row.id);
    }
    assert(by_id(after) =~= right);
}

/// To change a row and keep its id is to replace its clip.
pub proof fn lemma_rows_update(rows: Seq<ClipRecord>, at: int, row: ClipRecord)
    requires
        distinct_ids(rows),
        0 <= at < rows.len(),
        row.id == rows[at].id,
    ensures
        distinct_ids(rows.update(at, row)),
        by_id(rows.update(at, row)) == by_id(rows).insert(row.id, row@),
{
    let after = rows.update(at, row);
    assert forall|i: int, j: int|
        0 <= i < after.len() && 0 <= j < after.len() && #[trigger] after[i].id
            == #[trigger] after[j].id implies i == j by {
        assert(rows[i].id == rows[j].id);
    }
    let right = by_id(rows).insert(row.id, row@);
    assert forall|id: i64|
        (#[trigger] by_id(after).contains_key(id) <==> right.contains_key(id)) && (
        by_id(after).contains_key(id) ==> by_id(after)[id] == right[id]) by {
        if has_id(after, id) {
            let i = choose|i: int| 0 <= i < after.len() && #[trigger] after[i].id == id;
            lemma_row(after, i);
            lemma_row(rows, i);
            assert(rows[i].id == id);
        }
        if has_id(rows, id) {
            let i = choose|i: int| 0 <= i < rows.len() && #[trigger] rows[i].id == id;
            assert(after[i].id == id);
        }
        assert(after[at].id == row.id);
    }
    assert(by_id(after) =~= right);
}

/// To take a row out is to remove its clip.
pub proof fn lemma_rows_remove(rows: Seq<ClipRecord>, at: int)
    requires
        distinct_ids(rows),
        0 <= at < rows.len(),
    ensures
        distinct_ids(rows.remove(at)),
        distinct_contents(rows) ==> distinct_contents(rows.remove(at)),
        by_id(rows.remove(at)) == by_id(rows).remove(rows[at].id),
{
    let after = rows.remove(at);
    assert forall|i: int, j: int|
        0 <= i < after.len() && 0 <= j < after.len() && #[trigger] after[i].id
            == #[trigger] after[j].id implies i == j by {
        let a = if i < at { i } else { i + 1 };
        let b = if j < at { j } else { j + 1 };
        assert(rows[a].id == rows[b].id);
    }
    if distinct_contents(rows) {
        assert forall|i: int, j: int|
            0 <= i < after.len() && 0 <= j < after.len() && #[trigger] after[i].content_hash@
                == #[trigger] after[j].content_hash@ implies i == j by {
            let a = if i < at { i } else { i + 1 };
            let b = if j < at { j } else { j + 1 };
            assert(rows[a].content_hash@ == rows[b].content_hash@);
        }
    }
    let right = by_id(rows).remove(rows[at].id);
    assert forall|id: i64|
        (#[trigger] by_id(after).contains_key(id) <==> right.contains_key(id)) && (
        by_id(after).contains_key(id) ==> by_id(after)[id] == right[id]) by {
        if has_id(after, id) {
            let i = choose|i: int| 0 <= i < after.len() && #[trigger] after[i].id == id;
            lemma_row(after, i);
            let a = if i < at { i } else { i + 1 };
            assert(rows[a].id == id);
            lemma_row(rows, a);
            assert(a != at);
        }
        if has_id(rows, id) && id != rows[at].id {
            let i = choose|i: int| 0 <= i < rows.len() && #[trigger] rows[i].id == id;
            let b = if i < at { i } else { i - 1 };
            assert(after[b].id == id);
        }
    }
    assert(by_id(after) =~= right);
}

// ---------------------------------------------------------------------------
// The list
// ---------------------------------------------------------------------------

/// The text holds the searched one. Letters match whatever their case is. Both
/// count up to their first zero character; where the searched one has one, the
/// text has to end with what stands before it.
pub open spec fn matches_query(text: Seq<char>, query: Seq<char>) -> bool {
    let searched = text::lowered(text::until_zero(text));
    let wanted = text::lowered(text::until_zero(query));
    if query.contains('\0') {
        wanted.is_suffix_of(searched)
    } else {
        text::has_part(searched, wanted)
    }
}

/// The clip is of a kind that lists show.
pub open spec fn is_listable(clip: RecordView) -> bool {
    clip.kind == "text"@ || clip.kind == "image"@
}

/// The list for a query shows the clip.
pub open spec fn is_visible(clip: RecordView, query: Seq<char>) -> bool {
    &&& is_listable(clip)
    &&& text::trimmed(query).len() > 0 ==> matches_query(clip.text_content, text::trimmed(query))
}

/// One clip stands before another in the list: pinned clips come first, then
/// the newer ones; of two that are equally new, the one with the lower id.
pub open spec fn precedes(a: RecordView, b: RecordView) -> bool {
    a.pinned > b.pinned || a.pinned == b.pinned && outranks(a, b)
}

/// One clip is newer than another; of two that are equally new, the one with
/// the lower id is.
pub open spec fn outranks(a: RecordView, b: RecordView) -> bool {
    a.created_at > b.created_at || a.created_at == b.created_at && a.id < b.id
}

/// A list holds the clip with the id.
pub open spec fn lists(listing: Seq<ClipView>, id: i64) -> bool {
    exists|i: int| 0 <= i < listing.len() && #[trigger] listing[i].id == id
}

/// The first clips that a query shows, in their order and without the full
/// images; no more than the limit where it is not negative.
pub open spec fn is_listing(
    clips: Map<i64, RecordView>,
    query: Seq<char>,
    limit: int,
    listing: Seq<ClipView>,
) -> bool {
    &&& forall|i: int|
        0 <= i < listing.len() ==> {
            &&& clips.contains_key(#[trigger] listing[i].id)
            &&& is_visible(clips[listing[i].id], query)
            &&& listing[i] == clips[listing[i].id].summary()
        }
    &&& forall|i: int, j: int|
        0 <= i < j < listing.len() ==> precedes(
            clips[#[trigger] listing[i].id],
            clips[#[trigger] listing[j].id],
        )
    &&& limit >= 0 ==> listing.len() <= limit
    &&& forall|id: i64| #[trigger]
        clips.contains_key(id) && is_visible(clips[id], query) && !lists(listing, id) ==> {
            &&& listing.len() == limit
            &&& forall|i: int|
                0 <= i < listing.len() ==> precedes(clips[#[trigger] listing[i].id], clips[id])
        }
}

/// The list for a query.
pub open spec fn listing(clips: Map<i64, RecordView>, query: Seq<char>, limit: int) -> Seq<
    ClipView,
> {
    choose|listing: Seq<ClipView>| is_listing(clips, query, limit, listing)
}

// ---------------------------------------------------------------------------
// Retention
// ---------------------------------------------------------------------------

/// The clips that are not pinned.
pub open spec fn unpinned(clips: Map<i64, RecordView>) -> Set<i64> {
    clips.dom().filter(|id: i64| clips[id].pinned == 0)
}

/// The clips that are not pinned and newer than the given one.
pub open spec fn newer(clips: Map<i64, RecordView>, id: i64) -> Set<i64> {
    unpinned(clips).filter(|other: i64| outranks(clips[other], clips[id]))
}

/// A limit keeps the clip: it is pinned, or fewer clips than the limit that are
/// not pinned are newer. A negative limit keeps every clip.
pub open spec fn is_kept(clips: Map<i64, RecordView>, limit: int, id: i64) -> bool {
    clips[id].pinned != 0 || limit < 0 || newer(clips, id).len() < limit
}

/// The clips that a limit keeps.
pub open spec fn pruned(clips: Map<i64, RecordView>, limit: int) -> Map<i64, RecordView> {
    clips.restrict(clips.dom().filter(|id: i64| is_kept(clips, limit, id)))
}

/// The clip is the oldest of those that are not pinned.
pub open spec fn is_oldest(clips: Map<i64, RecordView>, id: i64) -> bool {
    &&& unpinned(clips).contains(id)
    &&& forall|other: i64| #[trigger]
        unpinned(clips).contains(other) && other != id ==> outranks(clips[other], clips[id])
}

proof fn lemma_unpinned_finite(clips: Map<i64, RecordView>)
    requires
        clips.dom().finite(),
    ensures
        unpinned(clips).finite(),
        forall|id: i64| #[trigger] newer(clips, id).finite(),
        unpinned(clips).len() <= clips.dom().len(),
{
    clips.dom().lemma_len_filter(|id: i64| clips[id].pinned == 0);
    assert forall|id: i64| #[trigger] newer(clips, id).finite() by {
        unpinned(clips).lemma_len_filter(|other: i64| outranks(clips[other], clips[id]));
    }
}

/// Pruning drops nothing where no more clips than the limit are not pinned.
pub proof fn nothing_pruned_within_limit(clips: Map<i64, RecordView>, limit: int)
    requires
        clips.dom().finite(),
        limit < 0 || unpinned(clips).len() <= limit,
    ensures
        pruned(clips, limit) == clips,
{
    assert forall|id: i64| clips.contains_key(id) implies is_kept(clips, limit, id) by {
        if clips[id].pinned == 0 && limit >= 0 {
            lemma_unpinned_finite(clips);
            assert(unpinned(clips).contains(id));
            assert(newer(clips, id).subset_of(unpinned(clips).remove(id)));
            lemma_len_subset(newer(clips, id), unpinned(clips).remove(id));
        }
    }
    assert(pruned(clips, limit) =~= clips);
}

/// Where more clips than the limit are not pinned, the limit keeps the same
/// clips with and without the oldest of them.
pub proof fn lemma_drop_oldest(clips: Map<i64, RecordView>, limit: int, oldest: i64)
    requires
        clips.dom().finite(),
        0 <= limit < unpinned(clips).len(),
        is_oldest(clips, oldest),
    ensures
        pruned(clips.remove(oldest), limit) == pruned(clips, limit),
        unpinned(clips.remove(oldest)) == unpinned(clips).remove(oldest),
        unpinned(clips.remove(oldest)).len() + 1 == unpinned(clips).len(),
{
    let rest = clips.remove(oldest);
    lemma_unpinned_finite(clips);
    assert(unpinned(rest) =~= unpinned(clips).remove(oldest));
    assert(newer(clips, oldest) =~= unpinned(clips).remove(oldest)) by {
        assert forall|other: i64| unpinned(clips).remove(oldest).contains(other) implies newer(
            clips,
            oldest,
        ).contains(other) by {
            assert(unpinned(clips).contains(other));
        }
    }
    assert(!is_kept(clips, limit, oldest));
    assert forall|id: i64| rest.contains_key(id) && rest[id].pinned == 0 implies newer(rest, id)
        == newer(clips, id) by {
        assert(unpinned(clips).contains(id));
        assert(newer(rest, id) =~= newer(clips, id));
    }
    assert(pruned(rest, limit) =~= pruned(clips, limit));
}

/// Among clips of which at least one is not pinned, there is an oldest one.
proof fn lemma_oldest_exists(clips: Map<i64, RecordView>, among: Set<i64>) -> (oldest: i64)
    requires
        is_history(clips),
        among.finite(),
        among.len() > 0,
        among.subset_of(clips.dom()),
    ensures
        among.contains(oldest),
        forall|other: i64| #[trigger]
            among.contains(other) && other != oldest ==> outranks(clips[other], clips[oldest]),
    decreases among.len(),
{
    let one = among.choose();
    let rest = among.remove(one);
    if rest.len() == 0 {
        assert(rest =~= Set::empty());
        assert forall|other: i64| #[trigger] among.contains(other) implies other == one by {
            if other != one {
                assert(rest.contains(other));
            }
        }
        one
    } else {
        let old = lemma_oldest_exists(clips, rest);
        assert(clips.contains_key(one) && clips.contains_key(old));
        let r = if outranks(clips[one], clips[old]) {
            old
        } else {
            one
        };
        assert forall|other: i64| #[trigger] among.contains(other) && other != r implies outranks(
            clips[other],
            clips[r],
        ) by {
            if other != one {
                assert(rest.contains(other));
            }
        }
        r
    }
}

/// Pinned clips are never pruned, whatever the limit is.
pub proof fn pinned_clips_are_kept(clips: Map<i64, RecordView>, limit: int, id: i64)
    requires
        clips.contains_key(id),
        clips[id].pinned != 0,
    ensures
        pruned(clips, limit).contains_key(id),
        pruned(clips, limit)[id] == clips[id],
{
}

/// After pruning as many clips as the limit are not pinned, or all of them where
/// they are no more than the limit.
pub proof fn limit_bounds_unpinned(clips: Map<i64, RecordView>, limit: int)
    requires
        is_history(clips),
        limit >= 0,
    ensures
        unpinned(pruned(clips, limit)).finite(),
        unpinned(pruned(clips, limit)).len() == if unpinned(clips).len() <= limit {
            unpinned(clips).len() as int
        } else {
            limit
        },
    decreases unpinned(clips).len(),
{
    lemma_unpinned_finite(clips);
    if unpinned(clips).len() <= limit {
        nothing_pruned_within_limit(clips, limit);
    } else {
        let oldest = lemma_oldest_exists(clips, unpinned(clips));
        lemma_drop_oldest(clips, limit, oldest);
        limit_bounds_unpinned(clips.remove(oldest), limit);
    }
}

/// What pruning drops is older than everything unpinned that it keeps.
pub proof fn newest_clips_are_kept(clips: Map<i64, RecordView>, limit: int, kept: i64, dropped: i64)
    requires
        is_history(clips),
        pruned(clips, limit).contains_key(kept),
        clips[kept].pinned == 0,
        clips.contains_key(dropped),
        !pruned(clips, limit).contains_key(dropped),
    ensures
        outranks(clips[kept], clips[dropped]),
{
    if !outranks(clips[kept], clips[dropped]) {
        lemma_unpinned_finite(clips);
        assert(clips[kept].id == kept && clips[dropped].id == dropped);
        assert(outranks(clips[dropped], clips[kept]));
        assert(newer(clips, dropped).subset_of(newer(clips, kept)));
        lemma_len_subset(newer(clips, dropped), newer(clips, kept));
    }
}

/// Pruning a history leaves a history.
pub proof fn pruning_leaves_history(clips: Map<i64, RecordView>, limit: int)
    requires
        is_history(clips),
    ensures
        is_history(pruned(clips, limit)),
        pruned(clips, limit).submap_of(clips),
{
    clips.dom().lemma_len_filter(|id: i64| is_kept(clips, limit, id));
    assert(pruned(clips, limit).dom() =~= clips.dom().filter(|id: i64| is_kept(clips, limit, id)));
}

/// What a query shows is one list: two lists for the same history, query and
/// limit are the same.
pub proof fn listing_is_unique(
    clips: Map<i64, RecordView>,
    query: Seq<char>,
    limit: int,
    a: Seq<ClipView>,
    b: Seq<ClipView>,
)
    requires
        is_history(clips),
        is_listing(clips, query, limit, a),
        is_listing(clips, query, limit, b),
    ensures
        a == b,
{
    if a.len() <= b.len() {
        lemma_listing_prefix(clips, query, limit, a, b, a.len());
        lemma_listing_len(clips, query, limit, a, b);
    } else {
        lemma_listing_prefix(clips, query, limit, b, a, b.len());
        lemma_listing_len(clips, query, limit, b, a);
    }
    assert(a =~= b);
}

proof fn lemma_listing_prefix(
    clips: Map<i64, RecordView>,
    query: Seq<char>,
    limit: int,
    a: Seq<ClipView>,
    b: Seq<ClipView>,
    n: nat,
)
    requires
        is_history(clips),
        is_listing(clips, query, limit, a),
        is_listing(clips, query, limit, b),
        n <= a.len() <= b.len(),
    ensures
        forall|i: int| 0 <= i < n ==> #[trigger] a[i] == b[i],
    decreases n,
{
    if n > 0 {
        let k = n - 1;
        lemma_listing_prefix(clips, query, limit, a, b, k as nat);
        if a[k].id != b[k].id {
            lemma_listing_not_before(clips, query, limit, a, b, k);
            lemma_listing_not_before(clips, query, limit, b, a, k);
        }
    }
}

/// Where two lists agree up to a place, the clip at that place of the second
/// does not stand before that of the first.
proof fn lemma_listing_not_before(
    clips: Map<i64, RecordView>,
    query: Seq<char>,
    limit: int,
    a: Seq<ClipView>,
    b: Seq<ClipView>,
    k: int,
)
    requires
        is_history(clips),
        is_listing(clips, query, limit, a),
        is_listing(clips, query, limit, b),
        0 <= k < a.len(),
        k < b.len(),
        forall|i: int| 0 <= i < k ==> #[trigger] a[i] == b[i],
        a[k].id != b[k].id,
    ensures
        precedes(clips[a[k].id], clips[b[k].id]),
{
    let id = b[k].id;
    assert(clips.contains_key(id) && is_visible(clips[id], query));
    assert(clips.contains_key(a[k].id));
    if lists(a, id) {
        let i = choose|i: int| 0 <= i < a.len() && #[trigger] a[i].id == id;
        if i < k {
            assert(a[i] == b[i]);
            assert(precedes(clips[b[i].id], clips[b[k].id]));
        } else {
            assert(i > k);
            assert(precedes(clips[a[k].id], clips[a[i].id]));
        }
    } else {
        assert(precedes(clips[a[k].id], clips[id]));
    }
}

proof fn lemma_listing_len(
    clips: Map<i64, RecordView>,
    query: Seq<char>,
    limit: int,
    a: Seq<ClipView>,
    b: Seq<ClipView>,
)
    requires
        is_history(clips),
        is_listing(clips, query, limit, a),
        is_listing(clips, query, limit, b),
        a.len() <= b.len(),
        forall|i: int| 0 <= i < a.len() ==> #[trigger] a[i] == b[i],
    ensures
        a.len() == b.len(),
{
    if a.len() < b.len() {
        let k = a.len() as int;
        let id = b[k].id;
        assert(clips.contains_key(id) && is_visible(clips[id], query));
        if lists(a, id) {
            let i = choose|i: int| 0 <= i < a.len() && #[trigger] a[i].id == id;
            assert(a[i] == b[i]);
            assert(precedes(clips[b[i].id], clips[b[k].id]));
        }
    }
}

/// In a list the pinned clips stand before the others.
pub proof fn pinned_clips_come_first(
    clips: Map<i64, RecordView>,
    query: Seq<char>,
    limit: int,
    listing: Seq<ClipView>,
    i: int,
    j: int,
)
    requires
        is_listing(clips, query, limit, listing),
        forall|id: i64| #[trigger] clips.contains_key(id) ==> clips[id].pinned >= 0,
        0 <= i < listing.len(),
        0 <= j < listing.len(),
        listing[i].pinned,
        !listing[j].pinned,
    ensures
        i < j,
{
    assert(clips.contains_key(listing[i].id) && clips.contains_key(listing[j].id));
    if j < i {
        assert(precedes(clips[listing[j].id], clips[listing[i].id]));
    }
}

} // verus!
