use a_fast_clipboard::hotkey::{MOD_ALT, MOD_CONTROL};
use a_fast_clipboard::native::ActivationStep::{Attach, Detach, Raise};
use a_fast_clipboard::native::{
    activate_foreground, activate_window, autostart_enabled, disable_autostart, enable_autostart,
    focus_and_paste, instance_outcome, is_foreground_window, is_window_minimized,
    is_window_visible, listener_event, listener_stopped_status, send_ctrl_v,
    set_autostart_enabled, start_native_listener, unsupported_status, wide_null,
    AutostartChange, HotkeyRegistration, InstanceOutcome, KeyEvent, ListenerEvent, ListenerStep,
    NativeError, PasteStep, MOD_NOREPEAT, WM_CLIPBOARDUPDATE, WM_FAST_CLIPBOARD_COMMAND, WM_HOTKEY,
};

#[test]
fn commands_are_taken_in_order() {
    let mut controller = start_native_listener(Some(Ok(42))).unwrap();
    assert_eq!(controller.thread_id(), 42);
    assert!(matches!(controller.handle_commands(), ListenerStep::Wait));
    controller.set_hotkey("a".to_string()).unwrap();
    controller.set_hotkey("b".to_string()).unwrap();
    controller.stop().unwrap();
    controller.set_hotkey("c".to_string()).unwrap();
    assert!(matches!(controller.handle_commands(), ListenerStep::Register(h) if h == "a"));
    assert!(matches!(controller.handle_commands(), ListenerStep::Register(h) if h == "b"));
    assert!(matches!(controller.handle_commands(), ListenerStep::Stop));
    let error = controller.set_hotkey("d".to_string()).unwrap_err();
    assert_eq!(error.message(), "native listener is not running");
    assert!(controller.stop().is_err());
}

#[test]
fn ended_listener_takes_no_commands() {
    let mut controller = start_native_listener(Some(Ok(1))).unwrap();
    controller.mark_ended();
    assert!(matches!(controller.stop(), Err(NativeError::NotRunning)));
}

#[test]
fn listener_that_does_not_start() {
    let silent = start_native_listener(None).unwrap_err();
    assert_eq!(silent.message(), "native listener did not start");
    let failed = start_native_listener(Some(Err("no window".to_string()))).unwrap_err();
    assert_eq!(failed.message(), "no window");
    assert_eq!(listener_stopped_status("gone"), "Native listener stopped: gone");
    assert_eq!(
        unsupported_status(),
        "Native clipboard listener is only implemented on Windows"
    );
}

#[test]
fn messages() {
    assert_eq!(listener_event(-1, WM_HOTKEY, 1), ListenerEvent::Failed);
    assert_eq!(listener_event(0, WM_HOTKEY, 1), ListenerEvent::Quit);
    assert_eq!(listener_event(1, WM_CLIPBOARDUPDATE, 0), ListenerEvent::Clipboard);
    assert_eq!(listener_event(1, WM_HOTKEY, 1), ListenerEvent::Hotkey);
    assert_eq!(listener_event(1, WM_HOTKEY, 2), ListenerEvent::Other);
    assert_eq!(listener_event(1, WM_FAST_CLIPBOARD_COMMAND, 0), ListenerEvent::Commands);
    assert_eq!(WM_FAST_CLIPBOARD_COMMAND, 0x8000 + 41);
    assert_eq!(listener_event(1, 0x0113, 0), ListenerEvent::Other);
}

#[test]
fn hotkey_is_registered_anew() {
    let mut registration = HotkeyRegistration::new();
    let plan = registration.register_hotkey_spec("ctrl+alt+v");
    assert!(!plan.unregister);
    let request = plan.request.unwrap();
    assert_eq!(request.modifiers, MOD_CONTROL | MOD_ALT | MOD_NOREPEAT);
    assert_eq!((request.vk, request.label.as_str()), (0x56, "Ctrl+Alt+V"));
    assert_eq!(registration.finish("Ctrl+Alt+V", None), "Hotkey active: Ctrl+Alt+V");
    assert!(registration.registered);

    let plan = registration.register_hotkey_spec("ctrl+nope");
    assert!(plan.unregister);
    assert_eq!(plan.request.unwrap_err(), "Hotkey not active: unknown key 'nope'");
    assert!(!registration.registered);

    assert!(!registration.register_hotkey_spec("f5").unregister);
    assert_eq!(registration.finish("F5", Some("in use")), "Hotkey failed: F5 (in use)");
    assert!(!registration.registered);
}

fn run_paste(in_front_after: u32) -> Vec<PasteStep> {
    let mut sequence = focus_and_paste(7, true, false).unwrap();
    let mut steps = Vec::new();
    let mut activations = 0;
    loop {
        let step = sequence.advance(activations >= in_front_after);
        if step == PasteStep::Activate {
            activations += 1;
        }
        if step == PasteStep::Done {
            return steps;
        }
        steps.push(step);
    }
}

#[test]
fn paste_into_a_window_that_comes_to_the_front() {
    assert_eq!(
        run_paste(2),
        vec![
            PasteStep::Activate,
            PasteStep::Wait(30),
            PasteStep::Activate,
            PasteStep::Wait(80),
            PasteStep::SendKeys,
        ]
    );
}

#[test]
fn paste_into_a_window_that_stays_behind() {
    let steps = run_paste(u32::MAX);
    assert_eq!(steps.len(), 18);
    assert_eq!(steps.iter().filter(|s| **s == PasteStep::Activate).count(), 8);
    assert_eq!(steps.iter().filter(|s| **s == PasteStep::Wait(30)).count(), 8);
    assert_eq!(steps[16..], [PasteStep::Wait(80), PasteStep::SendKeys]);
}

#[test]
fn nothing_is_pasted_into_no_window() {
    assert!(focus_and_paste(0, true, false).is_none());
    assert!(focus_and_paste(7, false, false).is_none());
    assert!(focus_and_paste(7, true, true).is_none());
}

#[test]
fn facts_about_windows() {
    assert!(activate_window(3, true));
    assert!(!activate_window(0, true));
    assert!(!activate_window(3, false));
    assert!(is_foreground_window(3, true, 3, 1, 2));
    assert!(is_foreground_window(3, true, 4, 5, 5));
    assert!(!is_foreground_window(3, true, 4, 5, 6));
    assert!(!is_foreground_window(3, true, 0, 5, 5));
    assert!(!is_foreground_window(3, false, 3, 5, 5));
    assert!(!is_foreground_window(0, true, 0, 5, 5));
    assert!(is_window_minimized(3, true) && !is_window_minimized(0, true));
    assert!(is_window_visible(3, true) && !is_window_visible(3, false));
}

#[test]
fn shared_input_is_taken_back_in_the_other_order() {
    assert_eq!(
        activate_foreground(1, 2, 3),
        vec![Attach(2), Attach(3), Raise, Detach(3), Detach(2)]
    );
    assert_eq!(activate_foreground(1, 1, 3), vec![Attach(3), Raise, Detach(3)]);
    assert_eq!(activate_foreground(1, 0, 1), vec![Raise]);
}

#[test]
fn keys_that_paste() {
    assert_eq!(
        send_ctrl_v(),
        vec![KeyEvent::Down(0x11), KeyEvent::Down(b'V'), KeyEvent::Up(b'V'), KeyEvent::Up(0x11)]
    );
}

#[test]
fn only_one_instance() {
    assert_eq!(instance_outcome(false, 183), InstanceOutcome::Failed);
    assert_eq!(instance_outcome(true, 183), InstanceOutcome::AlreadyRunning);
    assert_eq!(instance_outcome(true, 0), InstanceOutcome::Acquired);
}

#[test]
fn startup_entry() {
    assert!(autostart_enabled(0, 0));
    assert!(!autostart_enabled(0, 2));
    assert!(!autostart_enabled(2, 0));
    assert!(matches!(
        set_autostart_enabled(true, "C:\\a b.exe"),
        AutostartChange::Write(command) if command == "\"C:\\a b.exe\" --background"
    ));
    assert!(matches!(set_autostart_enabled(false, "x"), AutostartChange::Delete));
    assert_eq!(enable_autostart(0, 0), Ok(()));
    assert_eq!(enable_autostart(5, 7), Err(5));
    assert_eq!(enable_autostart(0, 7), Err(7));
    assert_eq!(disable_autostart(2, 7), Ok(()));
    assert_eq!(disable_autostart(0, 0), Ok(()));
    assert_eq!(disable_autostart(0, 2), Ok(()));
    assert_eq!(disable_autostart(0, 5), Err(5));
}

#[test]
fn wide_strings() {
    for text in ["", "abc", "é\u{ffff}", "x\u{1F4CB}\u{10FFFF}y"] {
        let mut expected: Vec<u16> = text.encode_utf16().collect();
        expected.push(0);
        assert_eq!(wide_null(text), expected);
    }
}
