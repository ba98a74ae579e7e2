use port_monitor::port_enum::{kill_request, KillRequest, KillSignal, PortEntry};
use port_monitor::settings::{
    fixed_dark_mode, normalized_range, Appearance, DEFAULT_PORT_RANGE_MAX, DEFAULT_PORT_RANGE_MIN,
};
use port_monitor::state::{
    menu_command, tray_click_command, ClickButton, ClickPhase, TrayMenuItem,
    handle_command, kill_command, on_close_request, settings_save_due, theme_check_due,
    visuals_switch, PortList, UiCommand, UiEffect, WindowFlags,
};

fn flags(visible: bool, quitting: bool) -> WindowFlags {
    WindowFlags { window_visible: visible, quitting }
}

#[test]
fn default_port_range_and_appearance() {
    assert_eq!(DEFAULT_PORT_RANGE_MIN, 1024);
    assert_eq!(DEFAULT_PORT_RANGE_MAX, 65535);
    assert_eq!(Appearance::default(), Appearance::System);
}

#[test]
fn normalized_swaps_inverted_range() {
    let (min, max) = normalized_range(9000, 1000);
    assert_eq!(min, 1000);
    assert_eq!(max, 9000);
}

#[test]
fn normalized_keeps_ordered_range() {
    assert_eq!(normalized_range(1024, 65535), (1024, 65535));
    assert_eq!(normalized_range(80, 80), (80, 80));
    let once = normalized_range(65535, 0);
    assert_eq!(once, (0, 65535));
    assert_eq!(normalized_range(once.0, once.1), once);
}

#[test]
fn appearance_fixes_dark_mode_unless_system() {
    assert_eq!(fixed_dark_mode(Appearance::Dark), Some(true));
    assert_eq!(fixed_dark_mode(Appearance::Light), Some(false));
    assert_eq!(fixed_dark_mode(Appearance::System), None);
}

#[test]
fn kill_request_picks_signal_by_force() {
    assert_eq!(kill_request(4242, false), KillRequest { pid: 4242, signal: KillSignal::Terminate });
    assert_eq!(kill_request(4242, true), KillRequest { pid: 4242, signal: KillSignal::Kill });
    assert_eq!(kill_request(u32::MAX, false).pid, -1);
}

#[test]
fn toggle_twice_restores_visibility() {
    let mut f = flags(true, false);
    assert!(matches!(handle_command(&mut f, UiCommand::ToggleWindow), UiEffect::Repaint));
    assert!(!f.window_visible);
    assert!(matches!(handle_command(&mut f, UiCommand::ToggleWindow), UiEffect::Repaint));
    assert!(f.window_visible);
    assert!(!f.quitting);
}

#[test]
fn show_hide_and_pass_through_commands() {
    let mut f = flags(false, false);
    handle_command(&mut f, UiCommand::ShowWindow);
    assert!(f.window_visible);
    handle_command(&mut f, UiCommand::HideWindow);
    assert!(!f.window_visible);
    assert!(matches!(handle_command(&mut f, UiCommand::Refresh), UiEffect::Refresh));
    assert!(matches!(
        handle_command(&mut f, UiCommand::Kill { pid: 12, force: true }),
        UiEffect::Kill { pid: 12, force: true }
    ));
    assert!(!f.window_visible && !f.quitting);
}

#[test]
fn quit_closes_and_sticks() {
    let mut f = flags(true, false);
    assert!(matches!(handle_command(&mut f, UiCommand::Quit), UiEffect::Close));
    assert!(f.quitting);
    handle_command(&mut f, UiCommand::ToggleWindow);
    assert!(f.quitting);
    // Closing after Quit really closes.
    assert!(!on_close_request(&mut f));
}

#[test]
fn close_button_hides_instead_of_quitting() {
    let mut f = flags(true, false);
    assert!(on_close_request(&mut f));
    assert!(!f.window_visible);
    assert!(!f.quitting);
}

#[test]
fn only_own_processes_get_a_kill_command() {
    let mine = PortEntry {
        port: 3000,
        pid: 55,
        process_name: "node".into(),
        user: "me".into(),
        is_current_user: true,
    };
    let theirs = PortEntry { is_current_user: false, ..mine.clone() };
    assert!(matches!(kill_command(&mine, false), Some(UiCommand::Kill { pid: 55, force: false })));
    assert!(matches!(kill_command(&mine, true), Some(UiCommand::Kill { pid: 55, force: true })));
    assert!(kill_command(&theirs, true).is_none());
}

#[test]
fn failed_scan_keeps_previous_ports() {
    let entry = PortEntry {
        port: 8080,
        pid: 1,
        process_name: "srv".into(),
        user: "me".into(),
        is_current_user: true,
    };
    let mut list = PortList::new();
    list.record_scan(Ok(vec![entry.clone()]));
    assert_eq!(list.ports, vec![entry.clone()]);
    assert_eq!(list.last_error, None);
    list.record_scan(Err("Scan failed: boom".into()));
    assert_eq!(list.ports, vec![entry]);
    assert_eq!(list.last_error.as_deref(), Some("Scan failed: boom"));
    list.record_scan(Ok(vec![]));
    assert!(list.ports.is_empty());
    assert_eq!(list.last_error, None);
}

#[test]
fn theme_and_save_timing() {
    assert!(theme_check_due(None));
    assert!(!theme_check_due(Some(999)));
    assert!(theme_check_due(Some(1000)));
    assert_eq!(visuals_switch(None, Some(true)), Some(true));
    assert_eq!(visuals_switch(Some(true), Some(true)), None);
    assert_eq!(visuals_switch(Some(true), Some(false)), Some(false));
    assert_eq!(visuals_switch(Some(false), None), None);
    assert!(!settings_save_due(499));
    assert!(settings_save_due(500));
}

#[test]
fn tray_menu_items_map_to_commands() {
    assert!(matches!(menu_command(TrayMenuItem::ShowHide), UiCommand::ToggleWindow));
    assert!(matches!(menu_command(TrayMenuItem::Refresh), UiCommand::Refresh));
    assert!(matches!(menu_command(TrayMenuItem::Settings), UiCommand::ShowWindow));
    assert!(matches!(menu_command(TrayMenuItem::Quit), UiCommand::Quit));
}

#[test]
fn only_left_button_release_toggles_the_window() {
    assert!(matches!(
        tray_click_command(ClickButton::Left, ClickPhase::Up),
        Some(UiCommand::ToggleWindow)
    ));
    assert!(tray_click_command(ClickButton::Left, ClickPhase::Down).is_none());
    assert!(tray_click_command(ClickButton::Right, ClickPhase::Up).is_none());
    assert!(tray_click_command(ClickButton::Middle, ClickPhase::Down).is_none());
}

#[test]
fn kill_outcome_sets_error_or_asks_for_rescan() {
    let entry = PortEntry {
        port: 8080,
        pid: 4242,
        process_name: "srv".into(),
        user: "me".into(),
        is_current_user: true,
    };
    let mut list = PortList::new();
    list.record_scan(Ok(vec![entry.clone()]));
    assert!(list.record_kill(4242, Ok(())));
    assert_eq!(list.last_error, None);
    assert!(!list.record_kill(4242, Err("EPERM: Operation not permitted".into())));
    assert_eq!(list.last_error.as_deref(), Some("Kill 4242 failed: EPERM: Operation not permitted"));
    assert_eq!(list.ports, vec![entry.clone()]);
    assert!(!list.record_kill(0, Err("x".into())));
    assert_eq!(list.last_error.as_deref(), Some("Kill 0 failed: x"));
    assert!(!list.record_kill(u32::MAX, Err("y".into())));
    assert_eq!(list.last_error.as_deref(), Some("Kill 4294967295 failed: y"));
    assert!(list.record_kill(7, Ok(())));
    assert_eq!(list.last_error.as_deref(), Some("Kill 4294967295 failed: y"));
    assert_eq!(list.ports, vec![entry]);
}
