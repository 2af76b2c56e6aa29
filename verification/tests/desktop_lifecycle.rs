use coding_tools::desktop_lifecycle::{
    close_decision, prevent_app_exit, should_prevent_app_exit, tray_click_shows_window,
    tray_menu_action, window_close_decision, CloseDecision, LifecycleFlags, TrayMenuAction,
    MAIN_WINDOW_LABEL, QUIT_MENU_ID, SHOW_MENU_ID,
};

#[test]
fn main_window_hides_only_when_tray_is_ready() {
    assert_eq!(close_decision(true, true, false), CloseDecision::HideToTray);
    assert_eq!(
        close_decision(true, false, false),
        CloseDecision::AllowClose
    );
}

#[test]
fn non_main_window_and_explicit_exit_are_never_hidden() {
    assert_eq!(
        close_decision(false, true, false),
        CloseDecision::AllowClose
    );
    assert_eq!(close_decision(true, true, true), CloseDecision::AllowClose);
}

#[test]
fn explicit_exit_overrides_ui_recreate_keepalive() {
    assert!(prevent_app_exit(true, false));
    assert!(!prevent_app_exit(true, true));
    assert!(!prevent_app_exit(false, false));
}

#[test]
fn close_decision_covers_every_combination() {
    for main in [false, true] {
        for tray in [false, true] {
            for exit in [false, true] {
                let expected = if main && tray && !exit {
                    CloseDecision::HideToTray
                } else {
                    CloseDecision::AllowClose
                };
                assert_eq!(close_decision(main, tray, exit), expected);
            }
        }
    }
}

#[test]
fn lifecycle_starts_without_tray_and_allows_close() {
    let flags = LifecycleFlags::new();
    assert!(!flags.tray_ready());
    assert!(!flags.explicit_exit_requested());
    assert_eq!(window_close_decision(&flags, "main"), CloseDecision::AllowClose);
    assert!(should_prevent_app_exit(&flags, true));
}

#[test]
fn main_window_hides_after_tray_is_installed() {
    let mut flags = LifecycleFlags::new();
    flags.mark_tray_ready();
    assert!(flags.tray_ready());
    assert_eq!(window_close_decision(&flags, MAIN_WINDOW_LABEL), CloseDecision::HideToTray);
    assert_eq!(window_close_decision(&flags, "keepalive"), CloseDecision::AllowClose);
    assert_eq!(window_close_decision(&flags, "Main"), CloseDecision::AllowClose);
}

#[test]
fn explicit_exit_request_ends_hiding_and_keepalive() {
    let mut flags = LifecycleFlags::new();
    flags.mark_tray_ready();
    flags.request_explicit_exit();
    assert!(flags.tray_ready());
    assert!(flags.explicit_exit_requested());
    assert_eq!(window_close_decision(&flags, "main"), CloseDecision::AllowClose);
    assert!(!should_prevent_app_exit(&flags, true));
    assert!(!should_prevent_app_exit(&flags, false));
}

#[test]
fn tray_menu_items_map_to_actions() {
    assert_eq!(tray_menu_action(SHOW_MENU_ID), TrayMenuAction::ShowMainWindow);
    assert_eq!(tray_menu_action("show-main-window"), TrayMenuAction::ShowMainWindow);
    assert_eq!(tray_menu_action(QUIT_MENU_ID), TrayMenuAction::RequestExit);
    assert_eq!(tray_menu_action("quit-application"), TrayMenuAction::RequestExit);
    assert_eq!(tray_menu_action("other"), TrayMenuAction::Ignore);
    assert_eq!(tray_menu_action(""), TrayMenuAction::Ignore);
}

#[test]
fn only_left_button_release_shows_window() {
    assert!(tray_click_shows_window(true, true));
    assert!(!tray_click_shows_window(true, false));
    assert!(!tray_click_shows_window(false, true));
    assert!(!tray_click_shows_window(false, false));
}
