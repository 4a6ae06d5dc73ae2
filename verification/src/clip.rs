//! Clips: the entries of the clipboard history, as they are stored and as they
//! are handed out.

use crate::text;
use vstd::prelude::*;

verus! {

/// A clip of the history.
#[derive(Clone, Debug)]
pub struct Clip {
    pub id: i64,
    pub kind: String,
    pub text: String,
    pub image_bytes: Option<Vec<u8>>,
    pub image_encoding: String,
    pub image_width: Option<i64>,
    pub image_height: Option<i64>,
    pub thumbnail_bytes: Option<Vec<u8>>,
    pub thumbnail_width: Option<i64>,
    pub thumbnail_height: Option<i64>,
    pub created_at: i64,
    pub last_used_at: Option<i64>,
    pub use_count: i64,
    pub pinned: bool,
}

/// A clip, its texts and bytes as sequences.
#[verifier::ext_equal]
pub struct ClipView {
    pub id: i64,
    pub kind: Seq<char>,
    pub text: Seq<char>,
    pub image_bytes: Option<Seq<u8>>,
    pub image_encoding: Seq<char>,
    pub image_width: Option<i64>,
    pub image_height: Option<i64>,
    pub thumbnail_bytes: Option<Seq<u8>>,
    pub thumbnail_width: Option<i64>,
    pub thumbnail_height: Option<i64>,
    pub created_at: i64,
    pub last_used_at: Option<i64>,
    pub use_count: i64,
    pub pinned: bool,
}

/// Bytes that may be missing, as a sequence.
pub open spec fn bytes_view(bytes: Option<Vec<u8>>) -> Option<Seq<u8>> {
    match bytes {
        Some(bytes) => Some(bytes@),
        None => None,
    }
}

impl View for Clip {
    type V = ClipView;

    open spec fn view(&self) -> ClipView {
        ClipView {
            id: self.id,
            kind: self.kind@,
            text: self.text@,
            image_bytes: bytes_view(self.image_bytes),
            image_encoding: self.image_encoding@,
            image_width: self.image_width,
            image_height: self.image_height,
            thumbnail_bytes: bytes_view(self.thumbnail_bytes),
            thumbnail_width: self.thumbnail_width,
            thumbnail_height: self.thumbnail_height,
            created_at: self.created_at,
            last_used_at: self.last_used_at,
            use_count: self.use_count,
            pinned: self.pinned,
        }
    }
}

/// Clips, each by its view.
pub open spec fn clip_views(clips: Seq<Clip>) -> Seq<ClipView> {
    Seq::new(clips.len(), |i: int| clips[i]@)
}

/// A row of the clip table: the columns in which a clip is kept.
#[derive(Debug)]
pub struct ClipRecord {
    pub id: i64,
    pub kind: String,
    pub text_content: String,
    pub image_bytes: Option<Vec<u8>>,
    pub image_encoding: Option<String>,
    pub image_width: Option<i64>,
    pub image_height: Option<i64>,
    pub thumbnail_bytes: Option<Vec<u8>>,
    pub thumbnail_width: Option<i64>,
    pub thumbnail_height: Option<i64>,
    pub content_hash: String,
    pub created_at: i64,
    pub last_used_at: Option<i64>,
    pub use_count: i64,
    pub pinned: i64,
}

/// A row of the clip table, its texts and bytes as sequences.
#[verifier::ext_equal]
pub struct RecordView {
    pub id: i64,
    pub kind: Seq<char>,
    pub text_content: Seq<char>,
    pub image_bytes: Option<Seq<u8>>,
    pub image_encoding: Option<Seq<char>>,
    pub image_width: Option<i64>,
    pub image_height: Option<i64>,
    pub thumbnail_bytes: Option<Seq<u8>>,
    pub thumbnail_width: Option<i64>,
    pub thumbnail_height: Option<i64>,
    pub content_hash: Seq<char>,
    pub created_at: i64,
    pub last_used_at: Option<i64>,
    pub use_count: i64,
    pub pinned: i64,
}

impl View for ClipRecord {
    type V = RecordView;

    open spec fn view(&self) -> RecordView {
        RecordView {
            id: self.id,
            kind: self.kind@,
            text_content: self.text_content@,
            image_bytes: bytes_view(self.image_bytes),
            image_encoding: text::text_view(self.image_encoding),
            image_width: self.image_width,
            image_height: self.image_height,
            thumbnail_bytes: bytes_view(self.thumbnail_bytes),
            thumbnail_width: self.thumbnail_width,
            thumbnail_height: self.thumbnail_height,
            content_hash: self.content_hash@,
            created_at: self.created_at,
            last_used_at: self.last_used_at,
            use_count: self.use_count,
            pinned: self.pinned,
        }
    }
}

impl RecordView {
    /// The clip of a row. An image without an encoding holds plain pixels;
    /// every pin flag but zero is a pin.
    pub open spec fn clip(self) -> ClipView {
        ClipView {
            id: self.id,
            kind: self.kind,
            text: self.text_content,
            image_bytes: self.image_bytes,
            image_encoding: match self.image_encoding {
                Some(encoding) => encoding,
                None => "rgba"@,
            },
            image_width: self.image_width,
            image_height: self.image_height,
            thumbnail_bytes: self.thumbnail_bytes,
            thumbnail_width: self.thumbnail_width,
            thumbnail_height: self.thumbnail_height,
            created_at: self.created_at,
            last_used_at: self.last_used_at,
            use_count: self.use_count,
            pinned: self.pinned != 0,
        }
    }

    /// The clip of a row as a list shows it: without the full image.
    pub open spec fn summary(self) -> ClipView {
        ClipView { image_bytes: None, ..self.clip() }
    }
}

/// A copy of bytes that may be missing.
pub fn copy_bytes(bytes: &Option<Vec<u8>>) -> (r: Option<Vec<u8>>)
    ensures
        bytes_view(r) == bytes_view(*bytes),
{
    match bytes {
        Some(bytes) => {
            let copy = bytes.clone();
            assert(copy@ =~= bytes@);
            Some(copy)
        },
        None => None,
    }
}

/// The clip of a row.
pub fn row_to_clip(row: &ClipRecord) -> (r: Clip)
    ensures
        r@ == row@.clip(),
{
    let mut clip = row_to_summary(row);
    clip.image_bytes = copy_bytes(&row.image_bytes);
    clip
}

/// The clip of a row, without the full image.
pub fn row_to_summary(row: &ClipRecord) -> (r: Clip)
    ensures
        r@ == row@.summary(),
{
    Clip {
        id: row.id,
        kind: row.kind.clone(),
        text: row.text_content.clone(),
        image_bytes: None,
        image_encoding: match &row.image_encoding {
            Some(encoding) => encoding.clone(),
            None => "rgba".to_owned(),
        },
        image_width: row.image_width,
        image_height: row.image_height,
        thumbnail_bytes: copy_bytes(&row.thumbnail_bytes),
        thumbnail_width: row.thumbnail_width,
        thumbnail_height: row.thumbnail_height,
        created_at: row.created_at,
        last_used_at: row.last_used_at,
        use_count: row.use_count,
        pinned: row.pinned != 0,
    }
}

} // verus!
