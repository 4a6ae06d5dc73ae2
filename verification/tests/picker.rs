use a_fast_clipboard::clip::Clip;
use a_fast_clipboard::picker::{
    age_label, clamp_index, clamp_selection, clip_id_at_index, clip_row, clip_thumbnail,
    picker_key, preview_text, refresh_ui, subtitle_text, truncate_chars, PickerAction, PickerKey,
};
use a_fast_clipboard::store::Store;

fn text_clip(text: &str) -> Clip {
    Clip {
        id: 5,
        kind: "text".to_string(),
        text: text.to_string(),
        image_bytes: None,
        image_encoding: "rgba".to_string(),
        image_width: None,
        image_height: None,
        thumbnail_bytes: None,
        thumbnail_width: None,
        thumbnail_height: None,
        created_at: 0,
        last_used_at: None,
        use_count: 0,
        pinned: true,
    }
}

#[test]
fn long_texts_are_cut() {
    assert_eq!(truncate_chars("abc", 3), "abc");
    assert_eq!(truncate_chars("abcd", 3), "abc...");
    assert_eq!(truncate_chars("äöü", 2), "äö...");
    assert_eq!(truncate_chars("", 0), "");
    assert_eq!(truncate_chars("a", 0), "...");
    assert_eq!(preview_text(" a\n b "), "a b");
    assert_eq!(preview_text(&"x".repeat(150)), "x".repeat(150));
    assert_eq!(preview_text(&"x".repeat(151)), format!("{}...", "x".repeat(150)));
}

#[test]
fn ages() {
    let minute = 60_000;
    assert_eq!(age_label(59_999, 0), "now");
    assert_eq!(age_label(0, 59_999), "now");
    assert_eq!(age_label(minute, 0), "1m ago");
    assert_eq!(age_label(60 * minute - 1, 0), "59m ago");
    assert_eq!(age_label(60 * minute, 0), "1h ago");
    assert_eq!(age_label(24 * 60 * minute - 1, 0), "23h ago");
    assert_eq!(age_label(48 * 60 * minute, 0), "2d ago");
    assert_eq!(age_label(i64::MAX, i64::MIN), "213503982334d ago");
}

#[test]
fn subtitles() {
    let mut clip = text_clip("äbc");
    assert_eq!(subtitle_text(&clip, 0), "now | 3 chars");
    clip.use_count = 4;
    assert_eq!(subtitle_text(&clip, 60_000), "1m ago | used 4x | 3 chars");
    clip.last_used_at = Some(60_000);
    assert_eq!(subtitle_text(&clip, 3_660_000), "1h ago | used 4x | last 1h ago");
    clip.kind = "image".to_string();
    clip.use_count = 0;
    assert_eq!(subtitle_text(&clip, 0), "now | image");
    clip.image_width = Some(640);
    clip.image_height = Some(480);
    assert_eq!(subtitle_text(&clip, 0), "now | 640x480");
}

#[test]
fn thumbnails_that_can_be_drawn() {
    let mut clip = text_clip("");
    assert!(clip_thumbnail(&clip).is_none());
    clip.thumbnail_bytes = Some(vec![1; 10]);
    assert!(clip_thumbnail(&clip).is_none());
    clip.thumbnail_width = Some(2);
    clip.thumbnail_height = Some(1);
    let drawn = clip_thumbnail(&clip).unwrap();
    assert_eq!((drawn.width, drawn.height, drawn.bytes), (2, 1, vec![1; 8]));
    clip.thumbnail_height = Some(2);
    assert!(clip_thumbnail(&clip).is_none());
    clip.thumbnail_height = Some(-2);
    assert!(clip_thumbnail(&clip).is_none());
    clip.thumbnail_width = Some(0xffff_ffff);
    clip.thumbnail_height = Some(0xffff_ffff);
    assert!(clip_thumbnail(&clip).is_none());
}

#[test]
fn rows() {
    let mut clip = text_clip("a  b");
    clip.thumbnail_bytes = Some(vec![]);
    let row = clip_row(&clip, 0);
    assert_eq!((row.id, row.kind.as_str(), row.preview.as_str()), (5, "text", "a b"));
    assert_eq!(row.subtitle, "now | 4 chars");
    assert!(row.pinned && row.has_thumbnail && row.thumbnail.is_none());
}

#[test]
fn indices_are_brought_into_range() {
    assert_eq!(clamp_index(5, 0), 0);
    assert_eq!(clamp_index(-5, 3), 0);
    assert_eq!(clamp_index(2, 3), 2);
    assert_eq!(clamp_index(3, 3), 2);
    assert_eq!(clamp_index(i32::MAX, 250), 249);
}

#[test]
fn pages() {
    let mut store = Store::new("p".to_string());
    let page = refresh_ui(&store, "", 4, 0).unwrap();
    assert_eq!((page.rows.len(), page.selected_index), (0, 0));
    assert_eq!(page.count_text, "0 saved");
    assert_eq!(clip_id_at_index(&store, "", 4).unwrap(), (0, None));
    for i in 0..3 {
        store.upsert_text(&format!("t{i}"), i);
    }
    let page = refresh_ui(&store, "", 4, 0).unwrap();
    assert_eq!((page.rows.len(), page.selected_index), (3, 2));
    assert_eq!(page.rows[0].preview, "t2");
    assert_eq!(page.count_text, "3 saved");
    let page = refresh_ui(&store, "t1", 4, 0).unwrap();
    assert_eq!((page.rows.len(), page.selected_index), (1, 0));
    assert_eq!(page.count_text, "3 saved");
    assert_eq!(clip_id_at_index(&store, "", 1).unwrap(), (1, Some(2)));
    assert_eq!(clip_id_at_index(&store, "none", 1).unwrap(), (0, None));
    assert_eq!(clamp_selection(&store, "", 9), 2);
    let long = "a".repeat(50_000);
    assert!(refresh_ui(&store, &long, 0, 0).is_err());
    assert!(clip_id_at_index(&store, &long, 0).is_err());
    assert_eq!(clamp_selection(&store, &long, 2), 0);
}

#[test]
fn page_shows_no_more_than_its_rows() {
    let mut store = Store::new("p".to_string());
    store.set_retention_limit(1_000);
    for i in 0..260 {
        store.put_text(format!("t{i}"), format!("h{i}"), i);
    }
    let page = refresh_ui(&store, "", 0, 0).unwrap();
    assert_eq!(page.rows.len(), 250);
    assert_eq!(page.rows[249].preview, "t10");
    assert_eq!(page.count_text, "260 saved");
}

#[test]
fn keys_of_the_picker() {
    assert_eq!(picker_key(PickerKey::Enter, false), PickerAction::SelectCurrent);
    assert_eq!(picker_key(PickerKey::Delete, false), PickerAction::DeleteCurrent);
    assert_eq!(picker_key(PickerKey::Character('p'), true), PickerAction::TogglePin);
    assert_eq!(picker_key(PickerKey::Character('p'), false), PickerAction::Nothing);
    assert_eq!(picker_key(PickerKey::Character('1'), true), PickerAction::SelectAt(0));
    assert_eq!(picker_key(PickerKey::Character('9'), true), PickerAction::SelectAt(8));
    assert_eq!(picker_key(PickerKey::Character('0'), true), PickerAction::Nothing);
}
