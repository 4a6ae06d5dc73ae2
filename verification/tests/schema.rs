use a_fast_clipboard::schema::{ensure_column, initialize};

fn names(columns: &[&str]) -> Vec<String> {
    columns.iter().map(|c| c.to_string()).collect()
}

#[test]
fn missing_column_is_added() {
    assert_eq!(
        ensure_column(&names(&["id"]), "clips", "image_width", "INTEGER"),
        Some("ALTER TABLE clips ADD COLUMN image_width INTEGER".to_string())
    );
    assert_eq!(
        ensure_column(&names(&["id", "image_width"]), "clips", "image_width", "INTEGER"),
        None
    );
}

#[test]
fn old_table_is_brought_up_to_date() {
    let statements = initialize(&names(&["id", "image_bytes", "thumbnail_height"]));
    assert_eq!(
        statements,
        vec![
            "ALTER TABLE clips ADD COLUMN image_encoding TEXT",
            "ALTER TABLE clips ADD COLUMN image_width INTEGER",
            "ALTER TABLE clips ADD COLUMN image_height INTEGER",
            "ALTER TABLE clips ADD COLUMN thumbnail_bytes BLOB",
            "ALTER TABLE clips ADD COLUMN thumbnail_width INTEGER",
        ]
    );
    let all = names(&[
        "image_bytes", "image_encoding", "image_width", "image_height", "thumbnail_bytes",
        "thumbnail_width", "thumbnail_height",
    ]);
    assert!(initialize(&all).is_empty());
    assert_eq!(initialize(&vec![]).len(), 7);
}
