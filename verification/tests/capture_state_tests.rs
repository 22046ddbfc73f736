use light_translator::capture::{capture_plan, delivery_text, parse_cursor_location, parse_i32};
use light_translator::gateway::CommandOutcome;
use light_translator::request::ProxySettings;
use light_translator::state::{should_start_hidden, tray_action, AppState, TrayAction};

#[test]
fn cursor_location_resolves_both_coordinates() {
    assert_eq!(parse_cursor_location("x:640 y:480 screen:0 window:999"), (640, 480));
}

#[test]
fn malformed_cursor_output_falls_back_to_default() {
    assert_eq!(parse_cursor_location("bad data"), (100, 100));
    assert_eq!(parse_cursor_location(""), (100, 100));
    assert_eq!(parse_cursor_location("x:abc y:5"), (100, 5));
    assert_eq!(parse_cursor_location("y:-20"), (100, -20));
}

#[test]
fn later_cursor_tokens_override_earlier_ones() {
    assert_eq!(parse_cursor_location("x:12 x:34 y:1 y:2"), (34, 2));
    assert_eq!(parse_cursor_location("x:12 x:oops"), (100, 100));
}

#[test]
fn integer_parse_matches_decimal_syntax() {
    assert_eq!(parse_i32("0"), Some(0));
    assert_eq!(parse_i32("640"), Some(640));
    assert_eq!(parse_i32("-17"), Some(-17));
    assert_eq!(parse_i32("+17"), Some(17));
    assert_eq!(parse_i32("2147483647"), Some(i32::MAX));
    assert_eq!(parse_i32("-2147483648"), Some(i32::MIN));
    assert_eq!(parse_i32("2147483648"), None);
    assert_eq!(parse_i32("-2147483649"), None);
    assert_eq!(parse_i32(""), None);
    assert_eq!(parse_i32("-"), None);
    assert_eq!(parse_i32("12a"), None);
    assert_eq!(parse_i32(" 12"), None);
}

#[test]
fn capture_plan_places_surface_and_schedules_delivery() {
    let query = CommandOutcome::Launched {
        exit_success: true,
        stdout: "x:640 y:480 screen:0 window:999".to_string(),
        stderr: String::new(),
    };
    let plan = capture_plan("copied text".to_string(), &query);
    assert_eq!(plan.position, Some((640, 480)));
    assert_eq!(plan.deliver.as_deref(), Some("copied text"));
}

#[test]
fn capture_plan_degrades_without_cursor_or_text() {
    let plan = capture_plan(
        String::new(),
        &CommandOutcome::LaunchFailed { message: "xdotool missing".to_string() },
    );
    assert_eq!(plan.position, None);
    assert_eq!(plan.deliver, None);
}

#[test]
fn empty_clipboard_delivers_nothing() {
    assert_eq!(delivery_text(String::new()), None);
    assert_eq!(delivery_text("hi".to_string()).as_deref(), Some("hi"));
}

#[test]
fn default_state_has_the_standard_binding_and_no_proxy() {
    let state = AppState::default();
    assert_eq!(state.current_shortcut, "CommandOrControl+Shift+X");
    assert!(state.proxy_settings.is_none());
    assert!(state.registered_binding.is_none());
}

#[test]
fn invalid_new_binding_leaves_the_old_one_active() {
    let mut state = AppState::default();
    state
        .setup_global_shortcut(Ok(()), Ok(()))
        .expect("startup registration succeeds");
    let r = state.update_shortcut(
        "Not+A+Key".to_string(),
        Err("couldn't recognize \"Not+A+Key\"".to_string()),
        Ok(()),
    );
    assert_eq!(r.unwrap_err(), "couldn't recognize \"Not+A+Key\"");
    assert_eq!(state.current_shortcut, "CommandOrControl+Shift+X");
    assert_eq!(state.registered_binding.as_deref(), Some("CommandOrControl+Shift+X"));
}

#[test]
fn successful_update_commits_the_new_binding() {
    let mut state = AppState::default();
    state
        .setup_global_shortcut(Ok(()), Ok(()))
        .expect("startup registration succeeds");
    let r = state.update_shortcut("Alt+T".to_string(), Ok(()), Ok(()));
    assert_eq!(r.unwrap(), true);
    assert_eq!(state.current_shortcut, "Alt+T");
    assert_eq!(state.registered_binding.as_deref(), Some("Alt+T"));
}

#[test]
fn failed_registration_keeps_the_committed_string() {
    let mut state = AppState::default();
    let r = state.update_shortcut(
        "Alt+T".to_string(),
        Ok(()),
        Err("already taken".to_string()),
    );
    assert_eq!(r.unwrap_err(), "already taken");
    assert_eq!(state.current_shortcut, "CommandOrControl+Shift+X");
    assert!(state.registered_binding.is_none());
}

#[test]
fn set_proxy_replaces_the_stored_configuration() {
    let mut state = AppState::default();
    state.set_proxy(ProxySettings {
        enabled: true,
        protocol: "socks5".to_string(),
        host: "127.0.0.1".to_string(),
        port: 1080,
        username: None,
        password: None,
    });
    let stored = state.proxy_settings.expect("configuration stored");
    assert!(stored.enabled);
    assert_eq!(stored.protocol, "socks5");
    assert_eq!(stored.port, 1080);
}

#[test]
fn hidden_start_flags_are_recognized() {
    let plain = vec!["light-translator".to_string()];
    let hidden = vec!["light-translator".to_string(), "--hidden".to_string()];
    let auto = vec!["light-translator".to_string(), "--autostart".to_string()];
    assert!(!should_start_hidden(&plain));
    assert!(should_start_hidden(&hidden));
    assert!(should_start_hidden(&auto));
}

#[test]
fn tray_menu_ids_dispatch_to_their_actions() {
    assert_eq!(tray_action("show"), TrayAction::ShowMain);
    assert_eq!(tray_action("settings"), TrayAction::OpenSettings);
    assert_eq!(tray_action("ocr"), TrayAction::OcrCapture);
    assert_eq!(tray_action("quit"), TrayAction::Quit);
    assert_eq!(tray_action("other"), TrayAction::Ignore);
}
