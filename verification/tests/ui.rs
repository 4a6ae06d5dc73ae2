use a_fast_clipboard::picker::PickerPage;
use a_fast_clipboard::session::{AfterCopy, AppState, HotkeyAttempt, Theme};
use a_fast_clipboard::store::Store;
use a_fast_clipboard::ui::{
    tray_menu_action, tray_shows_picker, Failure, TrayAction, TrayEvent, Ui,
};
use a_fast_clipboard::updater::UpdateInfo;

fn ui() -> Ui {
    Ui {
        query: String::new(),
        page: PickerPage { rows: vec![], selected_index: 0, count_text: String::new() },
        status_text: String::new(),
        settings_visible: true,
        quit_confirm_visible: false,
        hotkey_text: "F1".to_string(),
        start_with_windows: true,
        theme: Theme::System,
        update_available: false,
        update_version: String::new(),
        update_status: String::new(),
    }
}

fn filled() -> Store {
    let mut store = Store::new("p".to_string());
    for (i, text) in ["a", "b", "c"].iter().enumerate() {
        store.upsert_text(text, i as i64);
    }
    store
}

fn previews(ui: &Ui) -> Vec<String> {
    ui.page.rows.iter().map(|row| row.preview.clone()).collect()
}

#[test]
fn closing_asks_whether_to_quit() {
    let mut ui = ui();
    ui.close_requested();
    assert!(!ui.settings_visible && ui.quit_confirm_visible);
    ui.hide_requested();
    assert!(!ui.settings_visible && !ui.quit_confirm_visible);
}

#[test]
fn searching() {
    let store = filled();
    let mut ui = ui();
    ui.page.selected_index = 2;
    ui.search_changed("B", &store, 0);
    assert_eq!(previews(&ui), vec!["b"]);
    assert_eq!((ui.page.selected_index, ui.status_text.as_str()), (0, "Ready"));
    ui.search_changed(&"x".repeat(50_000), &store, 0);
    assert_eq!(ui.status_text, "Search failed: LIKE or GLOB pattern too complex");
    assert_eq!(previews(&ui), vec!["b"]);
}

#[test]
fn showing_the_picker() {
    let store = filled();
    let mut state = AppState::new();
    let mut ui = ui();
    ui.query = "a".to_string();
    ui.page.selected_index = 9;
    ui.show_palette(&store, &mut state, 0);
    assert_eq!(state.show_grace_ticks, 12);
    assert_eq!(previews(&ui), vec!["c", "b", "a"]);
    assert!(ui.query.is_empty() && !ui.settings_visible);
    ui.move_selection(&store, 50);
    assert_eq!(ui.page.selected_index, 2);
    assert_eq!(ui.page.count_text, "3 saved");
}

#[test]
fn selecting_rows() {
    let store = filled();
    let mut ui = ui();
    assert_eq!(ui.clip_at(&store, 1, Failure::Selection), Some(2));
    assert_eq!(ui.page.selected_index, 1);
    ui.query = "none".to_string();
    assert_eq!(ui.clip_at(&store, 1, Failure::Selection), None);
    assert_eq!((ui.page.selected_index, ui.status_text.as_str()), (0, "No clip selected"));
    ui.query = "x".repeat(50_000);
    assert_eq!(ui.clip_at(&store, 1, Failure::Selection), None);
    assert_eq!(ui.status_text, "Selection failed: LIKE or GLOB pattern too complex");
}

#[test]
fn deleting_rows() {
    let mut store = filled();
    let mut ui = ui();
    ui.page.selected_index = 1;
    assert_eq!(ui.delete_selected(&mut store, 0), Some(2));
    assert_eq!(previews(&ui), vec!["c", "a"]);
    ui.delete_clip(&mut store, 3, 0);
    assert_eq!(previews(&ui), vec!["a"]);
    ui.delete_clip(&mut store, 1, 0);
    assert_eq!(ui.delete_selected(&mut store, 0), None);
    assert_eq!(ui.status_text, "No clip selected");
}

#[test]
fn pinning_rows() {
    let mut store = filled();
    let mut ui = ui();
    ui.page.selected_index = 2;
    assert_eq!(ui.toggle_selected_pin(&mut store, 0), Some(1));
    assert_eq!(previews(&ui), vec!["a", "c", "b"]);
    ui.toggle_pin(&mut store, 1, 0);
    assert_eq!(previews(&ui), vec!["c", "b", "a"]);
}

#[test]
fn clearing_the_history() {
    let mut store = filled();
    store.toggle_pin(2);
    let mut state = AppState::new();
    let mut ui = ui();
    assert!(!ui.clear_unpinned(&mut store, &mut state, 0, 0));
    assert_eq!(ui.status_text, "Click Clear again within 5s to delete unpinned clips");
    assert_eq!(store.count(), 3);
    assert!(ui.clear_unpinned(&mut store, &mut state, 4_000, 0));
    assert_eq!(ui.status_text, "Cleared unpinned clips");
    assert_eq!(previews(&ui), vec!["b"]);
}

#[test]
fn setting_the_limit() {
    let mut store = filled();
    let mut ui = ui();
    ui.retention_changed(&mut store, 3, 0);
    assert_eq!(store.retention_limit(), 10);
    assert_eq!(ui.status_text, "Keeping 10 clips");
    assert_eq!(previews(&ui).len(), 3);
}

#[test]
fn setting_the_hotkey() {
    let mut ui = ui();
    assert_eq!(ui.hotkey_changed("  "), None);
    assert_eq!(ui.status_text, "Hotkey cannot be empty");
    assert_eq!(ui.hotkey_changed(" F2 "), Some("F2".to_string()));
    assert_eq!(ui.hotkey_recorded("v", false, false, false, false), None);
    assert_eq!(
        ui.status_text,
        "Record a key with Ctrl, Alt, Shift, or Win; raw VK_0xNN also works"
    );
    assert_eq!(ui.hotkey_recorded("v", true, false, false, false), Some("Ctrl+V".to_string()));
    assert_eq!(ui.hotkey_text, "Ctrl+V");
    ui.hotkey_applied(&HotkeyAttempt::Refused("gone".to_string()), "F1");
    assert_eq!((ui.hotkey_text.as_str(), ui.status_text.as_str()), ("F1", "Hotkey update failed: gone"));
    ui.hotkey_applied(&HotkeyAttempt::Applied, "F9");
    assert_eq!(ui.hotkey_text, "F1");
}

#[test]
fn setting_paste_and_theme() {
    let mut store = filled();
    let mut ui = ui();
    ui.paste_setting_changed(&mut store, false);
    assert!(!store.paste_on_select());
    assert_eq!(ui.status_text, "Copy only");
    ui.theme_setting_changed(&mut store, " Dark");
    assert_eq!((ui.theme, store.theme_mode().as_str()), (Theme::Dark, "dark"));
    assert_eq!(ui.status_text, "Theme: dark");
}

#[test]
fn setting_the_startup() {
    let mut store = filled();
    let mut ui = ui();
    store.set_start_with_windows_preference(true);
    assert!(!ui.startup_setting_applied(&mut store, true, None, None));
    assert_eq!(ui.status_text, "Starts with Windows");
    assert!(ui.startup_setting_applied(&mut store, true, None, Some("denied")));
    assert_eq!(store.start_with_windows_preference(), Some(false));
    assert!(!ui.start_with_windows);
    assert_eq!(ui.status_text, "Startup setting failed: denied");
    assert!(!ui.startup_setting_applied(&mut store, false, Some("full"), None));
    assert!(ui.start_with_windows);
    assert_eq!(ui.status_text, "Startup preference failed: full");
}

#[test]
fn looking_for_updates() {
    let mut state = AppState::new();
    let mut ui = ui();
    assert!(ui.install_update_requested(&mut state).is_none());
    assert_eq!(ui.update_status, "Check for updates first");
    assert!(ui.check_update_requested(&mut state));
    assert_eq!(ui.update_status, "Checking...");
    assert!(!ui.check_update_requested(&mut state));
    assert_eq!(ui.update_status, "Update task already running");
    let info = UpdateInfo {
        version: "2.0.0".to_string(),
        asset_name: "n".to_string(),
        download_url: "u".to_string(),
        digest: Some("d".to_string()),
    };
    ui.update_checked(&mut state, Ok(Some(info)));
    assert!(ui.update_available);
    assert_eq!((ui.update_version.as_str(), ui.update_status.as_str()), ("2.0.0", "2.0.0 available"));
    let info = ui.install_update_requested(&mut state).unwrap();
    assert_eq!((info.version.as_str(), info.digest.as_deref()), ("2.0.0", Some("d")));
    assert_eq!(ui.update_status, "Downloading 2.0.0...");
    assert!(ui.install_update_requested(&mut state).is_none());
    assert_eq!(ui.update_status, "Update task already running");
    assert!(!ui.update_installed(&mut state, Some("net")));
    assert_eq!(ui.update_status, "Update failed: net");
    assert!(ui.update_installed(&mut state, None));
}

#[test]
fn using_a_clip() {
    let mut store = filled();
    let mut state = AppState::new();
    let mut ui = ui();
    assert_eq!(ui.clip_copied(&mut store, &state, 1, 70), AfterCopy::NoTarget);
    assert_eq!(ui.status_text, "Copied; no target window");
    assert_eq!(store.get(1).unwrap().use_count, 1);
    assert_eq!(previews(&ui).len(), 3);
    state.set_paste_target(6);
    ui.set_status("before");
    assert_eq!(ui.clip_copied(&mut store, &state, 1, 80), AfterCopy::Paste(6));
    assert_eq!(ui.status_text, "before");
    assert_eq!(ui.copy_finished(&store, &state, 85), AfterCopy::Paste(6));
    assert_eq!(store.get(1).unwrap().use_count, 2);
    store.set_paste_on_select(false);
    assert_eq!(ui.copy_finished(&store, &state, 85), AfterCopy::Copied);
    assert_eq!(ui.status_text, "Copied");
    assert_eq!(store.get(1).unwrap().use_count, 2);
    assert_eq!(ui.clip_copied(&mut store, &state, 1, 90), AfterCopy::Copied);
    assert_eq!(store.get(1).unwrap().last_used_at, Some(90));
}

#[test]
fn captures_are_shown() {
    let store = filled();
    let mut ui = ui();
    ui.captured(&store, Ok(None), 0);
    assert!(previews(&ui).is_empty());
    ui.captured(&store, Ok(Some(1)), 0);
    assert_eq!(previews(&ui).len(), 3);
    ui.captured(&store, Err("busy".to_string()), 0);
    assert_eq!(ui.status_text, "Clipboard capture failed: busy");
    ui.show_clips(&store, 0);
    ui.fail(Failure::Paste, "x");
    assert_eq!(ui.status_text, "Paste skipped: x");
}

#[test]
fn every_failure_has_its_words() {
    for (failure, words) in [
        (Failure::Search, "Search failed: "),
        (Failure::Selection, "Selection failed: "),
        (Failure::Delete, "Delete failed: "),
        (Failure::Pin, "Pin failed: "),
        (Failure::Clear, "Clear failed: "),
        (Failure::Retention, "Retention failed: "),
        (Failure::Refresh, "Refresh failed: "),
        (Failure::PasteSetting, "Paste setting failed: "),
        (Failure::ThemeSetting, "Theme setting failed: "),
        (Failure::Load, "Load failed: "),
        (Failure::Copy, "Copy failed: "),
        (Failure::Usage, "Usage update failed: "),
        (Failure::Capture, "Clipboard capture failed: "),
        (Failure::FirstRun, "First-run save failed: "),
        (Failure::Paste, "Paste skipped: "),
    ] {
        assert_eq!(failure.prefix(), words);
    }
}

#[test]
fn the_tray() {
    assert_eq!(tray_menu_action("show"), TrayAction::Show);
    assert_eq!(tray_menu_action("hide"), TrayAction::Hide);
    assert_eq!(tray_menu_action("quit"), TrayAction::Quit);
    assert_eq!(tray_menu_action("Quit"), TrayAction::Nothing);
    assert!(tray_shows_picker(TrayEvent::Click(true, true)));
    assert!(!tray_shows_picker(TrayEvent::Click(true, false)));
    assert!(!tray_shows_picker(TrayEvent::Click(false, true)));
    assert!(tray_shows_picker(TrayEvent::DoubleClick(true)));
    assert!(!tray_shows_picker(TrayEvent::DoubleClick(false)));
    assert!(!tray_shows_picker(TrayEvent::Other));
}
