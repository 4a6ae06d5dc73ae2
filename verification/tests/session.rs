use a_fast_clipboard::clip::Clip;
use a_fast_clipboard::image::ImageData;
use a_fast_clipboard::session::{
    after_copy, apply_hotkey, capture_image, capture_text, clip_payload, finish_batch,
    hotkey_step, initialize_ui, normalized_theme_mode, paste_setting_status, retention_status, select_clip,
    should_start_hidden, startup_setting_changed, startup_step, startup_wish,
    sync_startup_registration,
    typed_hotkey, AfterCopy, AppState, AutoHide, BatchAction, CaptureStep, ClipboardReader,
    HotkeyAttempt, HotkeyChange, HotkeyEvent, HotkeyStep, InstallStart, Payload, ReadEvent,
    ReadStep, StartupStep, StartupSync, Theme, TickAction,
    WindowFacts,
};
use a_fast_clipboard::store::Store;
use a_fast_clipboard::updater::UpdateInfo;

fn info() -> UpdateInfo {
    UpdateInfo {
        version: "1.2.3".to_string(),
        asset_name: "a".to_string(),
        download_url: "u".to_string(),
        digest: None,
    }
}

#[test]
fn own_writes_are_skipped_once() {
    let mut state = AppState::new();
    assert!(!state.should_skip_self_write());
    state.mark_self_write();
    state.mark_self_write();
    assert!(state.should_skip_self_write());
    state.cancel_self_write();
    assert!(!state.should_skip_self_write());
    state.cancel_self_write();
    assert_eq!(state.self_write_events, 0);
}

#[test]
fn picker_is_no_paste_target() {
    let mut state = AppState::new();
    state.remember_app_window(Some(7));
    state.remember_app_window(None);
    state.set_paste_target(9);
    assert_eq!(state.paste_target_hwnd, 9);
    state.set_paste_target(7);
    assert_eq!(state.paste_target_hwnd, 0);
    state.set_paste_target(9);
    state.clear_paste_target();
    assert_eq!(state.paste_target_hwnd, 0);
}

#[test]
fn clearing_takes_two_clicks() {
    let mut state = AppState::new();
    assert!(!state.confirm_clear(100));
    assert!(state.confirm_clear(5_100));
    assert!(!state.confirm_clear(5_101));
    assert!(!state.confirm_clear(10_102));
    assert!(state.confirm_clear(10_103));
    assert!(!state.confirm_clear(u64::MAX));
    assert!(state.confirm_clear(u64::MAX));
}

#[test]
fn updates_one_at_a_time() {
    let mut state = AppState::new();
    assert!(matches!(state.begin_install(), InstallStart::Unknown));
    let report = state.begin_update_check().unwrap();
    assert_eq!((report.available, report.status.as_str()), (Some(false), "Checking..."));
    assert_eq!(state.begin_update_check().unwrap_err().status, "Update task already running");
    assert!(matches!(state.begin_install(), InstallStart::Busy));
    let report = state.finish_update_check(Ok(Some(info())));
    assert_eq!(report.available, Some(true));
    assert_eq!(report.version, Some("1.2.3".to_string()));
    assert_eq!(report.status, "1.2.3 available");
    let start = state.begin_install();
    assert_eq!(start.status(), "Downloading 1.2.3...");
    assert!(state.update_busy);
    assert_eq!(state.finish_install(Some("no")), ("Update failed: no".to_string(), false));
    assert_eq!(state.finish_install(None), ("Restarting to update...".to_string(), true));
    let report = state.finish_update_check(Ok(None));
    assert_eq!((report.available, report.version), (Some(false), Some(String::new())));
    assert_eq!(report.status, "Up to date");
    let report = state.finish_update_check(Err("off".to_string()));
    assert_eq!((report.version, report.status.as_str()), (None, "Update check failed: off"));
    assert!(state.update_info.is_none());
    assert_eq!(InstallStart::Unknown.status(), "Check for updates first");
    assert_eq!(InstallStart::Busy.status(), "Update task already running");
}

const AWAY: WindowFacts = WindowFacts { visible: true, minimized: false, foreground: false };
const FRONT: WindowFacts = WindowFacts { visible: true, minimized: false, foreground: true };

#[test]
fn picker_hides_after_it_was_in_front() {
    let mut state = AppState::new();
    let mut hide = AutoHide::new();
    assert_eq!(hide.tick(&mut state, AWAY), TickAction::FindWindow);
    state.remember_app_window(Some(1));
    assert_eq!(hide.tick(&mut state, FRONT), TickAction::Nothing);
    assert_eq!(hide.tick(&mut state, AWAY), TickAction::Nothing);
    assert_eq!(hide.tick(&mut state, AWAY), TickAction::Hide);
    assert_eq!(hide, AutoHide { seen_foreground: false, away_ticks: 0 });
}

#[test]
fn picker_waits_to_come_to_the_front() {
    let mut state = AppState::new();
    state.remember_app_window(Some(1));
    state.show_palette();
    let mut hide = AutoHide::new();
    for _ in 0..12 + 7 {
        assert_eq!(hide.tick(&mut state, AWAY), TickAction::Nothing);
    }
    assert_eq!(hide.tick(&mut state, AWAY), TickAction::Hide);
}

#[test]
fn hidden_and_minimized_pickers() {
    let mut state = AppState::new();
    state.remember_app_window(Some(1));
    state.show_palette();
    let mut hide = AutoHide { seen_foreground: true, away_ticks: 1 };
    let gone = WindowFacts { visible: false, minimized: false, foreground: false };
    assert_eq!(hide.tick(&mut state, gone), TickAction::Nothing);
    assert_eq!(hide.away_ticks, 0);
    let minimized = WindowFacts { visible: true, minimized: true, foreground: false };
    assert_eq!(hide.tick(&mut state, minimized), TickAction::HideMinimized);
    assert_eq!(state.show_grace_ticks, 12);
    assert_eq!(hide.tick(&mut state, FRONT), TickAction::Nothing);
    assert_eq!(state.show_grace_ticks, 11);
    assert!(!hide.seen_foreground);
}

#[test]
fn clipboard_is_tried_six_times() {
    let mut reader = ClipboardReader::new();
    for _ in 0..5 {
        assert_eq!(reader.attempt(ReadEvent::OpenOccupied), ReadStep::RetryAfter(20));
    }
    assert_eq!(reader.attempt(ReadEvent::OpenOccupied), ReadStep::FailOpen);
    let mut reader = ClipboardReader { attempts: 4 };
    assert_eq!(reader.attempt(ReadEvent::ReadOccupied), ReadStep::RetryAfter(20));
    assert_eq!(reader.attempt(ReadEvent::ReadOccupied), ReadStep::FailRead);
    for (event, step) in [
        (ReadEvent::Found, ReadStep::Take),
        (ReadEvent::NotAvailable, ReadStep::Nothing),
        (ReadEvent::OpenFailed, ReadStep::FailOpen),
        (ReadEvent::ReadFailed, ReadStep::FailRead),
    ] {
        assert_eq!(ClipboardReader::new().attempt(event), step);
    }
}

#[test]
fn captured_images_come_before_texts() {
    let mut store = Store::new("p".to_string());
    let image = ImageData { width: 1, height: 1, bytes: vec![1, 2, 3, 4] };
    let step = capture_image(&mut store, Ok(Some(image)), 48, 48, 5);
    assert!(matches!(step, CaptureStep::Done(Some(1))));
    let empty = ImageData { width: 0, height: 1, bytes: vec![] };
    assert!(matches!(
        capture_image(&mut store, Ok(Some(empty)), 48, 48, 5),
        CaptureStep::Done(None)
    ));
    assert!(matches!(capture_image(&mut store, Ok(None), 1, 1, 5), CaptureStep::ReadText(None)));
    assert!(matches!(
        capture_image(&mut store, Err("busy".to_string()), 1, 1, 5),
        CaptureStep::ReadText(Some(error)) if error == "busy"
    ));
    assert_eq!(store.count(), 1);
}

#[test]
fn captured_texts() {
    let mut store = Store::new("p".to_string());
    let busy = || Some("busy".to_string());
    assert_eq!(capture_text(&mut store, busy(), Ok(Some("a".to_string())), 5), Ok(Some(1)));
    assert_eq!(capture_text(&mut store, None, Ok(Some(" ".to_string())), 5), Ok(None));
    assert_eq!(capture_text(&mut store, None, Ok(None), 5), Ok(None));
    assert_eq!(capture_text(&mut store, busy(), Ok(None), 5), Err("busy".to_string()));
    assert_eq!(
        capture_text(&mut store, busy(), Err("text".to_string()), 5),
        Err("text".to_string())
    );
    assert_eq!(store.count(), 1);
}

fn image_clip() -> Clip {
    Clip {
        id: 1,
        kind: "image".to_string(),
        text: "[Image 1x1]".to_string(),
        image_bytes: Some(vec![1, 2, 3, 4]),
        image_encoding: "rgba".to_string(),
        image_width: Some(1),
        image_height: Some(2),
        thumbnail_bytes: None,
        thumbnail_width: None,
        thumbnail_height: None,
        created_at: 0,
        last_used_at: None,
        use_count: 0,
        pinned: false,
    }
}

#[test]
fn payloads() {
    let mut clip = image_clip();
    match clip_payload(&clip) {
        Ok(Payload::Image(image)) => {
            assert_eq!((image.width, image.height, image.bytes), (1, 2, vec![1, 2, 3, 4]))
        }
        other => panic!("{other:?}"),
    }
    clip.image_bytes = None;
    assert_eq!(clip_payload(&clip).unwrap_err().message(), "image clip is missing image data");
    clip.image_height = None;
    assert_eq!(clip_payload(&clip).unwrap_err().message(), "image clip is missing height");
    clip.image_width = None;
    assert_eq!(clip_payload(&clip).unwrap_err().message(), "image clip is missing width");
    clip.kind = "text".to_string();
    assert!(matches!(clip_payload(&clip), Ok(Payload::Text(text)) if text == "[Image 1x1]"));
}

#[test]
fn selected_clips() {
    let mut store = Store::new("p".to_string());
    store.upsert_text("hi", 1);
    assert!(select_clip(&store, 2).is_none());
    assert!(matches!(select_clip(&store, 1), Some(Ok(Payload::Text(text))) if text == "hi"));
}

#[test]
fn after_a_copy() {
    assert_eq!(after_copy(true, 5), AfterCopy::Paste(5));
    assert_eq!(after_copy(true, 0), AfterCopy::NoTarget);
    assert_eq!(after_copy(false, 5), AfterCopy::Copied);
    assert_eq!(AfterCopy::Paste(5).status(), None);
    assert_eq!(AfterCopy::NoTarget.status(), Some("Copied; no target window".to_string()));
    assert_eq!(AfterCopy::Copied.status(), Some("Copied".to_string()));
}

#[test]
fn several_clips() {
    assert!(matches!(finish_batch(vec![], true, 5), BatchAction::Nothing));
    assert!(matches!(
        finish_batch(vec![3, 1, 2], true, 5),
        BatchAction::PasteAll(ids) if ids == vec![3, 1, 2]
    ));
    assert!(matches!(finish_batch(vec![3, 1, 2], false, 5), BatchAction::CopyLast(2)));
    assert!(matches!(finish_batch(vec![3, 1], true, 0), BatchAction::CopyLast(1)));
}

#[test]
fn attempts_to_set_the_hotkey() {
    let shown = |attempt: HotkeyAttempt| apply_hotkey(&attempt, "F5").map(|(_, status)| status);
    assert_eq!(
        apply_hotkey(&HotkeyAttempt::NotReady, "F5"),
        Some(("F5".to_string(), "Native listener is not ready".to_string()))
    );
    assert_eq!(
        shown(HotkeyAttempt::Refused("x".to_string())),
        Some("Hotkey update failed: x".to_string())
    );
    assert_eq!(
        shown(HotkeyAttempt::NotSaved("x".to_string(), None)),
        Some("Hotkey save failed; restored previous: x".to_string())
    );
    assert_eq!(
        shown(HotkeyAttempt::NotSaved("x".to_string(), Some("y".to_string()))),
        Some("Hotkey save failed: x; rollback failed: y".to_string())
    );
    assert_eq!(shown(HotkeyAttempt::Applied), None);
    assert_eq!(typed_hotkey(" F5 "), Some("F5".to_string()));
    assert_eq!(typed_hotkey("  "), None);
}

#[test]
fn hotkey_is_told_saved_and_rolled_back() {
    let begin = || HotkeyChange::new("new".to_string(), "old".to_string());
    let text = |s: &str| Some(s.to_string());

    let mut change = begin();
    assert!(matches!(
        hotkey_step(&mut change, HotkeyEvent::Listener(false)),
        HotkeyStep::Report(HotkeyAttempt::NotReady)
    ));
    assert!(matches!(hotkey_step(&mut change, HotkeyEvent::Told(None)), HotkeyStep::Wait));

    let mut change = begin();
    assert!(matches!(hotkey_step(&mut change, HotkeyEvent::Saved(None)), HotkeyStep::Wait));
    assert!(matches!(
        hotkey_step(&mut change, HotkeyEvent::Listener(true)),
        HotkeyStep::Tell(h) if h == "new"
    ));
    assert!(matches!(
        hotkey_step(&mut change, HotkeyEvent::Told(text("busy"))),
        HotkeyStep::Report(HotkeyAttempt::Refused(e)) if e == "busy"
    ));

    for (rollback, expected) in [(None, None), (text("gone"), text("gone"))] {
        let mut change = begin();
        hotkey_step(&mut change, HotkeyEvent::Listener(true));
        assert!(matches!(
            hotkey_step(&mut change, HotkeyEvent::Told(None)),
            HotkeyStep::Save(h) if h == "new"
        ));
        assert!(matches!(
            hotkey_step(&mut change, HotkeyEvent::Saved(text("full"))),
            HotkeyStep::Tell(h) if h == "old"
        ));
        assert!(matches!(
            hotkey_step(&mut change, HotkeyEvent::Told(rollback)),
            HotkeyStep::Report(HotkeyAttempt::NotSaved(e, r)) if e == "full" && r == expected
        ));
    }

    let mut change = begin();
    hotkey_step(&mut change, HotkeyEvent::Listener(true));
    hotkey_step(&mut change, HotkeyEvent::Told(None));
    assert!(matches!(
        hotkey_step(&mut change, HotkeyEvent::Saved(None)),
        HotkeyStep::Report(HotkeyAttempt::Applied)
    ));
}

#[test]
fn registration_follows_a_saved_wish() {
    assert_eq!(startup_step(true, None), StartupStep::Register(true));
    assert_eq!(startup_step(false, None), StartupStep::Register(false));
    assert_eq!(startup_step(true, Some("full")), StartupStep::GiveUp);
}

#[test]
fn startup_is_on_by_default() {
    assert_eq!(startup_wish(&Ok(None)), (true, true));
    assert_eq!(startup_wish(&Ok(Some(false))), (false, false));
    assert_eq!(startup_wish(&Err("x".to_string())), (true, false));
}

#[test]
fn startup_registration_is_summed_up() {
    let text = |s: &str| Some(s.to_string());
    let sync = sync_startup_registration(&Ok(None), &None, &None, Some(true));
    assert_eq!((sync.enabled, sync.error), (true, None));
    let sync = sync_startup_registration(&Ok(None), &text("a"), &text("b"), None);
    assert!(!sync.enabled);
    assert_eq!(sync.error, text("Startup preference save failed: a; Startup sync failed: b"));
    let sync = sync_startup_registration(&Err("l".to_string()), &None, &None, Some(false));
    assert_eq!(sync.error, text("Startup preference load failed: l"));
    let sync = sync_startup_registration(&Ok(Some(true)), &text("a"), &text("b"), None);
    assert_eq!((sync.enabled, sync.error), (false, text("Startup sync failed: b")));
    let sync = sync_startup_registration(&Ok(Some(true)), &None, &None, None);
    assert!(sync.enabled);
    let sync = sync_startup_registration(&Ok(Some(false)), &None, &None, None);
    assert!(!sync.enabled);
}

#[test]
fn startup_switch() {
    let change = startup_setting_changed(true, None, None);
    assert_eq!(change.status, "Starts with Windows");
    assert!(!change.flip_back && !change.restore_preference);
    assert_eq!(startup_setting_changed(false, None, None).status, "Startup disabled");
    let change = startup_setting_changed(true, Some("x"), None);
    assert_eq!(change.status, "Startup preference failed: x");
    assert!(change.flip_back && !change.restore_preference);
    let change = startup_setting_changed(true, None, Some("y"));
    assert_eq!(change.status, "Startup setting failed: y");
    assert!(change.flip_back && change.restore_preference);
}

#[test]
fn background_start() {
    let args = |list: &[&str]| list.iter().map(|a| a.to_string()).collect::<Vec<_>>();
    assert!(should_start_hidden(false, &args(&["exe", "--background"])));
    assert!(should_start_hidden(false, &args(&["--hidden"])));
    assert!(!should_start_hidden(true, &args(&["exe", "--background"])));
    assert!(!should_start_hidden(false, &args(&["exe", "--Background"])));
    assert!(!should_start_hidden(false, &args(&[])));
}

#[test]
fn themes() {
    assert_eq!(normalized_theme_mode(" DARK "), Theme::Dark);
    assert_eq!(normalized_theme_mode("light"), Theme::Light);
    assert_eq!(normalized_theme_mode("blue"), Theme::System);
    for theme in [Theme::Dark, Theme::Light, Theme::System] {
        assert_eq!(normalized_theme_mode(theme.name()), theme);
    }
    assert!(Theme::Dark.is_dark(Some(false)) && !Theme::Light.is_dark(Some(true)));
    assert!(Theme::System.is_dark(Some(true)) && !Theme::System.is_dark(None));
    assert_eq!(Theme::System.status(), "Theme: system");
}

#[test]
fn statuses_of_settings() {
    assert_eq!(retention_status(5), "Keeping 10 clips");
    assert_eq!(retention_status(250), "Keeping 250 clips");
    assert_eq!(paste_setting_status(true), "Auto-paste enabled");
    assert_eq!(paste_setting_status(false), "Copy only");
}

#[test]
fn what_is_shown_at_the_start() {
    let mut store = Store::new("C:\\clips".to_string());
    let fine = StartupSync { enabled: true, error: None };
    let ui = initialize_ui(&store, true, &fine);
    assert_eq!((ui.retention_limit, ui.hotkey_text.as_str()), (100, "Ctrl+Alt+V"));
    assert!(ui.paste_on_select && ui.start_with_windows && ui.onboarding_visible);
    assert_eq!(ui.status_text, "Startup is on. Set a hotkey, then Hide keeps it in the tray.");
    store.set_theme_mode("dark");
    store.set_paste_on_select(false);
    let ui = initialize_ui(&store, false, &fine);
    assert_eq!((ui.theme, ui.status_text.as_str()), (Theme::Dark, "History: C:\\clips"));
    assert!(!ui.paste_on_select && !ui.onboarding_visible);
    let failed = StartupSync { enabled: false, error: Some("bad".to_string()) };
    assert_eq!(initialize_ui(&store, true, &failed).status_text, "bad");
}
