use a_fast_clipboard::clip::ClipRecord;
use a_fast_clipboard::image::{decode_image_bytes, ImageData};
use a_fast_clipboard::settings::Setting;
use a_fast_clipboard::store::{normalize_text, Store, StoreError};

fn empty() -> Store {
    Store::new("clips.sqlite3".to_string())
}

fn texts(store: &Store, query: &str, limit: i64) -> Vec<String> {
    store.list(query, limit).unwrap().into_iter().map(|clip| clip.text).collect()
}

fn record(id: i64, hash: &str, created_at: i64, pinned: i64) -> ClipRecord {
    ClipRecord {
        id,
        kind: "text".to_string(),
        text_content: format!("clip {id}"),
        image_bytes: None,
        image_encoding: None,
        image_width: None,
        image_height: None,
        thumbnail_bytes: None,
        thumbnail_width: None,
        thumbnail_height: None,
        content_hash: hash.to_string(),
        created_at,
        last_used_at: None,
        use_count: 0,
        pinned,
    }
}

fn setting(key: &str, value: &str) -> Setting {
    Setting { key: key.to_string(), value: value.to_string() }
}

#[test]
fn new_store_is_empty() {
    let store = empty();
    assert_eq!(store.path(), "clips.sqlite3");
    assert_eq!(store.count(), 0);
    assert!(store.rows().is_empty());
    assert!(store.get(1).is_none());
    assert!(store.list("", 10).unwrap().is_empty());
}

#[test]
fn copied_text_is_read_back() {
    let mut store = empty();
    assert_eq!(store.upsert_text("hello", 1_000), Some(1));
    let clip = store.get(1).unwrap();
    assert_eq!((clip.kind.as_str(), clip.text.as_str()), ("text", "hello"));
    assert_eq!((clip.created_at, clip.last_used_at, clip.use_count), (1_000, None, 0));
    assert_eq!(clip.image_encoding, "rgba");
    assert!(!clip.pinned && clip.image_bytes.is_none());
    assert_eq!(store.count(), 1);
    assert_eq!(store.rows()[0].content_hash.len(), 64);
}

#[test]
fn blank_text_is_not_taken() {
    let mut store = empty();
    assert_eq!(store.upsert_text(" \n\t", 1), None);
    assert_eq!(store.upsert_text("\0 \0", 1), None);
    assert_eq!(store.count(), 0);
    assert_eq!(normalize_text("\0\0a\0b\0"), "a\0b");
    assert_eq!(store.upsert_text("\0 x\0", 1), Some(1));
    assert_eq!(store.get(1).unwrap().text, " x");
}

#[test]
fn same_text_keeps_its_id_pin_and_use() {
    let mut store = empty();
    store.upsert_text("a", 1);
    store.upsert_text("b", 2);
    store.toggle_pin(1);
    store.mark_used(1, 50);
    assert_eq!(store.upsert_text("\0a", 3), Some(1));
    let clip = store.get(1).unwrap();
    assert_eq!((clip.created_at, clip.use_count, clip.last_used_at), (3, 1, Some(50)));
    assert!(clip.pinned);
    assert_eq!(store.count(), 2);
}

#[test]
fn given_hashes_decide_what_is_the_same() {
    let mut store = empty();
    assert_eq!(store.put_text("a".to_string(), "h1".to_string(), 1), 1);
    assert_eq!(store.put_text("b".to_string(), "h2".to_string(), 2), 2);
    assert_eq!(store.put_text("c".to_string(), "h1".to_string(), 3), 1);
    assert_eq!(store.get(1).unwrap().text, "c");
    assert_eq!(
        store.put_image(2, 3, vec![9], Some((vec![1], 48, 48)), "h2".to_string(), 4),
        2
    );
    let clip = store.get(2).unwrap();
    assert_eq!((clip.kind.as_str(), clip.text.as_str()), ("image", "[Image 2x3]"));
    assert_eq!((clip.image_width, clip.image_height), (Some(2), Some(3)));
    assert_eq!((clip.thumbnail_width, clip.thumbnail_height), (Some(48), Some(48)));
    assert_eq!(clip.thumbnail_bytes, Some(vec![1]));
    assert_eq!(store.put_text("d".to_string(), "h2".to_string(), 5), 2);
    let clip = store.get(2).unwrap();
    assert!(clip.image_bytes.is_none() && clip.thumbnail_bytes.is_none());
    assert_eq!(clip.kind, "text");
}

#[test]
fn copied_image_is_read_back() {
    let mut store = empty();
    let bytes: Vec<u8> = (0..24).collect();
    let image = ImageData { width: 3, height: 2, bytes: bytes.clone() };
    assert_eq!(store.upsert_image(&image, 48, 32, 7), Some(1));
    let clip = store.get(1).unwrap();
    assert_eq!(clip.kind, "image");
    assert_eq!(clip.text, "[Image 3x2]");
    assert_eq!(clip.image_encoding, "lz4-rgba");
    assert_eq!((clip.image_width, clip.image_height), (Some(3), Some(2)));
    assert_eq!(clip.thumbnail_bytes.as_ref().unwrap().len(), 48 * 48 * 4);
    assert_eq!(decode_image_bytes(&clip).unwrap(), bytes);
    let listed = store.list("image", 10).unwrap();
    assert!(listed[0].image_bytes.is_none());
    assert!(listed[0].thumbnail_bytes.is_some());
    assert_eq!(store.upsert_image(&image, 48, 32, 9), Some(1));
}

#[test]
fn image_without_pixels_is_not_taken() {
    let mut store = empty();
    for (width, height, bytes) in [(0, 1, vec![1]), (1, 0, vec![1]), (1, 1, vec![])] {
        assert_eq!(store.upsert_image(&ImageData { width, height, bytes }, 1, 1, 1), None);
    }
    let short = ImageData { width: 2, height: 2, bytes: vec![1] };
    assert_eq!(store.upsert_image(&short, 1, 1, 1), Some(1));
    assert!(store.get(1).unwrap().thumbnail_bytes.is_none());
}

#[test]
fn list_is_pinned_first_and_newest_first() {
    let mut store = empty();
    for (i, text) in ["a", "b", "c", "d"].iter().enumerate() {
        store.upsert_text(text, i as i64);
    }
    store.toggle_pin(2);
    assert_eq!(texts(&store, "", 10), vec!["b", "d", "c", "a"]);
    assert_eq!(texts(&store, "", 2), vec!["b", "d"]);
    assert_eq!(texts(&store, "", 0), Vec::<String>::new());
    assert_eq!(texts(&store, "  ", -1).len(), 4);
}

#[test]
fn equally_new_clips_are_listed_by_id() {
    let mut store = empty();
    for text in ["a", "b", "c"] {
        store.upsert_text(text, 5);
    }
    assert_eq!(texts(&store, "", 10), vec!["a", "b", "c"]);
}

#[test]
fn search_ignores_case_and_takes_every_character() {
    let mut store = empty();
    store.upsert_text("100% Sure", 1);
    store.upsert_text("under_score", 2);
    store.upsert_text("back\\slash", 3);
    store.upsert_text("ÄRGER", 4);
    assert_eq!(texts(&store, " sURE ", 10), vec!["100% Sure"]);
    assert_eq!(texts(&store, "%", 10), vec!["100% Sure"]);
    assert_eq!(texts(&store, "_", 10), vec!["under_score"]);
    assert_eq!(texts(&store, "\\", 10), vec!["back\\slash"]);
    assert_eq!(texts(&store, "Är", 10), vec!["ÄRGER"]);
    assert_eq!(texts(&store, "är", 10), Vec::<String>::new());
    assert_eq!(texts(&store, "s", 10), vec!["back\\slash", "under_score", "100% Sure"]);
}

#[test]
fn search_reads_up_to_a_zero_character() {
    let mut store = empty();
    store.upsert_text("a\0b", 1);
    store.upsert_text("xa", 2);
    store.upsert_text("ax", 3);
    assert_eq!(texts(&store, "b", 10), Vec::<String>::new());
    assert_eq!(texts(&store, "a", 10), vec!["ax", "xa", "a\0b"]);
    assert_eq!(texts(&store, "A\0x", 10), vec!["xa", "a\0b"]);
    assert_eq!(texts(&store, "\0", 10).len(), 3);
}

#[test]
fn search_that_is_too_long() {
    let mut store = empty();
    let query = "a".repeat(50_000);
    assert!(store.list(&query, 10).unwrap().is_empty());
    store.upsert_text("a", 1);
    assert_eq!(store.list(&query, 10).err(), Some(StoreError::PatternTooLong));
    assert_eq!(StoreError::PatternTooLong.message(), "LIKE or GLOB pattern too complex");
    assert!(store.list(&query, 0).unwrap().is_empty());
}

#[test]
fn other_kinds_are_not_listed() {
    let mut row = record(3, "x", 1, 0);
    row.kind = "file".to_string();
    let store = Store::from_rows("p".to_string(), vec![row, record(4, "y", 2, 0)], vec![]).unwrap();
    assert_eq!(store.count(), 2);
    assert_eq!(texts(&store, "", 10), vec!["clip 4"]);
}

#[test]
fn rows_must_be_distinct() {
    let build = |rows, settings| Store::from_rows("p".to_string(), rows, settings);
    assert!(build(vec![record(1, "a", 1, 0), record(1, "b", 1, 0)], vec![]).is_none());
    assert!(build(vec![record(1, "a", 1, 0), record(2, "a", 1, 0)], vec![]).is_none());
    assert!(build(vec![], vec![setting("k", "1"), setting("k", "2")]).is_none());
    assert!(build(vec![record(1, "a", 1, 0), record(2, "b", 1, 0)], vec![setting("k", "1")]).is_some());
}

#[test]
fn new_ids_follow_the_highest() {
    let rows = vec![record(7, "a", 1, 0), record(-3, "b", 1, 0)];
    let mut store = Store::from_rows("p".to_string(), rows, vec![]).unwrap();
    assert_eq!(store.upsert_text("x", 2), Some(8));
    store.delete(8);
    assert_eq!(store.upsert_text("y", 2), Some(8));
    let rows = vec![record(-5, "a", 1, 0)];
    let mut store = Store::from_rows("p".to_string(), rows, vec![]).unwrap();
    assert_eq!(store.upsert_text("x", 2), Some(-4));
    let rows = vec![record(i64::MAX, "a", 1, 0), record(1, "b", 1, 0)];
    let mut store = Store::from_rows("p".to_string(), rows, vec![]).unwrap();
    let id = store.upsert_text("x", 2).unwrap();
    assert!(id > 1 && id < i64::MAX);
}

#[test]
fn retention_drops_the_oldest_unpinned() {
    let mut store = empty();
    store.set_retention_limit(10);
    for i in 0..15 {
        store.upsert_text(&format!("t{i}"), i);
        if i == 0 {
            store.toggle_pin(1);
        }
    }
    assert_eq!(store.count(), 11);
    assert!(store.get(1).unwrap().pinned);
    assert!(store.get(2).is_none() && store.get(5).is_none());
    assert!(store.get(6).is_some() && store.get(15).is_some());
}

#[test]
fn retention_of_equally_new_clips_keeps_low_ids() {
    let mut store = empty();
    for i in 0..14 {
        store.upsert_text(&format!("t{i}"), 5);
    }
    store.prune(12);
    assert!(store.get(12).is_some() && store.get(13).is_none() && store.get(14).is_none());
    store.prune(-1);
    assert_eq!(store.count(), 12);
    store.prune(0);
    assert_eq!(store.count(), 0);
}

#[test]
fn retention_setting_is_kept_in_range() {
    let mut store = empty();
    assert_eq!(store.retention_limit(), 100);
    for (value, kept) in [(5, 10), (10, 10), (500, 500), (20_000, 10_000), (i64::MIN, 10)] {
        store.set_retention_limit(value);
        assert_eq!(store.retention_limit(), kept);
    }
    store.set_setting("retention_limit", "many");
    assert_eq!(store.retention_limit(), 100);
    store.set_setting("retention_limit", "3");
    assert_eq!(store.retention_limit(), 10);
    assert_eq!(store.get_setting("retention_limit"), Some("3".to_string()));
}

#[test]
fn new_limit_prunes_at_once() {
    let mut store = empty();
    for i in 0..20 {
        store.upsert_text(&format!("t{i}"), i);
    }
    store.set_retention_limit(12);
    assert_eq!(store.count(), 12);
}

#[test]
fn use_is_counted() {
    let mut store = empty();
    store.upsert_text("a", 1);
    store.mark_used(1, 10);
    store.mark_used(1, 20);
    store.mark_used(99, 30);
    let clip = store.get(1).unwrap();
    assert_eq!((clip.use_count, clip.last_used_at), (2, Some(20)));
}

#[test]
fn pinning_twice_changes_nothing() {
    let mut store = empty();
    store.upsert_text("a", 1);
    store.toggle_pin(1);
    assert!(store.get(1).unwrap().pinned);
    store.toggle_pin(1);
    assert!(!store.get(1).unwrap().pinned);
    store.toggle_pin(99);
    let rows = vec![record(1, "a", 1, 5)];
    let mut store = Store::from_rows("p".to_string(), rows, vec![]).unwrap();
    store.toggle_pin(1);
    assert_eq!(store.rows()[0].pinned, 0);
}

#[test]
fn deleting_and_clearing() {
    let mut store = empty();
    for (i, text) in ["a", "b", "c"].iter().enumerate() {
        store.upsert_text(text, i as i64);
    }
    store.delete(2);
    store.delete(2);
    assert!(store.get(2).is_none());
    store.toggle_pin(3);
    store.clear_unpinned();
    assert_eq!(texts(&store, "", 10), vec!["c"]);
}

#[test]
fn hotkey_setting() {
    let mut store = empty();
    assert_eq!(store.hotkey(), "Ctrl+Alt+V");
    store.set_hotkey("  Win+V ");
    assert_eq!(store.hotkey(), "Win+V");
    store.set_hotkey("   ");
    assert_eq!(store.hotkey(), "Ctrl+Alt+V");
    store.set_setting("hotkey", " F5 ");
    assert_eq!(store.hotkey(), " F5 ");
}

#[test]
fn switches() {
    let mut store = empty();
    assert!(store.paste_on_select());
    assert!(!store.onboarding_seen());
    assert_eq!(store.start_with_windows_preference(), None);
    store.set_paste_on_select(false);
    store.set_onboarding_seen(true);
    store.set_start_with_windows_preference(false);
    assert!(!store.paste_on_select());
    assert!(store.onboarding_seen());
    assert_eq!(store.start_with_windows_preference(), Some(false));
    assert_eq!(store.retention_limit(), 100);
    store.set_paste_on_select(true);
    store.set_onboarding_seen(false);
    store.set_start_with_windows_preference(true);
    assert!(store.paste_on_select());
    assert!(!store.onboarding_seen());
    assert_eq!(store.start_with_windows_preference(), Some(true));
    store.set_setting("paste_on_select", "odd");
    store.set_setting("onboarding_seen", "odd");
    assert!(store.paste_on_select() && !store.onboarding_seen());
}

#[test]
fn theme_setting() {
    let mut store = empty();
    assert_eq!(store.theme_mode(), "system");
    store.set_theme_mode("dark");
    assert_eq!(store.theme_mode(), "dark");
}
