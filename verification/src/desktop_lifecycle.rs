use vstd::prelude::*;
use crate::text::str_eq;

verus! {

/// Label of the application's main window.
pub const MAIN_WINDOW_LABEL: &'static str = "main";

/// Tray menu item that brings the main window back.
pub const SHOW_MENU_ID: &'static str = "show-main-window";

/// Tray menu item that quits the application.
pub const QUIT_MENU_ID: &'static str = "quit-application";

/// Identifier of the tray icon.
pub const TRAY_ID: &'static str = "coding-tools-mcp";

/// What happens to a window whose close was requested.
#[derive(Debug, Clone, Copy, PartialEq, Eq, Structural)]
pub enum CloseDecision {
    HideToTray,
    AllowClose,
}

/// The close policy: a window hides to the tray only when it is the main
/// window, the tray exists and the user has not asked to quit.
pub open spec fn close_policy(is_main_window: bool, tray_ready: bool, explicit_exit_requested: bool) -> CloseDecision {
    if is_main_window && tray_ready && !explicit_exit_requested {
        CloseDecision::HideToTray
    } else {
        CloseDecision::AllowClose
    }
}

/// Decides what a close request does (see [`close_policy`]).
pub fn close_decision(is_main_window: bool, tray_ready: bool, explicit_exit_requested: bool) -> (d: CloseDecision)
    ensures
        d == close_policy(is_main_window, tray_ready, explicit_exit_requested),
{
    if is_main_window && tray_ready && !explicit_exit_requested {
        CloseDecision::HideToTray
    } else {
        CloseDecision::AllowClose
    }
}

/// Whether the process stays alive when asked to exit: only while the UI is
/// being recreated, and never once the user asked to quit.
pub fn prevent_app_exit(ui_recreating: bool, explicit_exit_requested: bool) -> (r: bool)
    ensures
        r == (ui_recreating && !explicit_exit_requested),
{
    ui_recreating && !explicit_exit_requested
}

/// The process-wide lifecycle state: whether the tray icon was created and
/// whether the user asked to quit.
///
/// The flags only ever go from unset to set: no method clears them.
#[derive(Debug, Clone, Copy)]
pub struct LifecycleFlags {
    tray_ready: bool,
    explicit_exit_requested: bool,
}

/// What [`LifecycleFlags`] records.
pub ghost struct LifecycleState {
    pub tray_ready: bool,
    pub explicit_exit_requested: bool,
}

impl View for LifecycleFlags {
    type V = LifecycleState;

    closed spec fn view(&self) -> LifecycleState {
        LifecycleState { tray_ready: self.tray_ready, explicit_exit_requested: self.explicit_exit_requested }
    }
}

impl LifecycleFlags {
    /// The state at start-up: no tray yet, no exit requested.
    pub fn new() -> (r: LifecycleFlags)
        ensures
            !r@.tray_ready,
            !r@.explicit_exit_requested,
    {
        LifecycleFlags { tray_ready: false, explicit_exit_requested: false }
    }

    /// Records that the tray icon was built.
    pub fn mark_tray_ready(&mut self)
        ensures
            final(self)@.tray_ready,
            final(self)@.explicit_exit_requested == old(self)@.explicit_exit_requested,
    {
        self.tray_ready = true;
    }

    /// Records that the user asked to quit.
    pub fn request_explicit_exit(&mut self)
        ensures
            final(self)@.explicit_exit_requested,
            final(self)@.tray_ready == old(self)@.tray_ready,
    {
        self.explicit_exit_requested = true;
    }

    /// Whether the tray icon was built.
    pub fn tray_ready(&self) -> (r: bool)
        ensures
            r == self@.tray_ready,
    {
        self.tray_ready
    }

    /// Whether the user asked to quit.
    pub fn explicit_exit_requested(&self) -> (r: bool)
        ensures
            r == self@.explicit_exit_requested,
    {
        self.explicit_exit_requested
    }
}

/// What a close request on the window labelled `label` does in state `flags`.
pub open spec fn window_close_policy(flags: LifecycleFlags, label: Seq<char>) -> CloseDecision {
    close_policy(label == MAIN_WINDOW_LABEL@, flags@.tray_ready, flags@.explicit_exit_requested)
}

/// Decides what a close request on the window labelled `window_label` does.
pub fn window_close_decision(flags: &LifecycleFlags, window_label: &str) -> (d: CloseDecision)
    ensures
        d == window_close_policy(*flags, window_label@),
{
    close_decision(
        str_eq(window_label, MAIN_WINDOW_LABEL),
        flags.tray_ready,
        flags.explicit_exit_requested,
    )
}

/// Whether an exit request is refused in state `flags` while the UI is
/// (or is not) being recreated.
pub fn should_prevent_app_exit(flags: &LifecycleFlags, ui_recreating: bool) -> (r: bool)
    ensures
        r == (ui_recreating && !flags@.explicit_exit_requested),
{
    prevent_app_exit(ui_recreating, flags.explicit_exit_requested)
}

/// What a tray menu item does.
#[derive(Debug, Clone, Copy, PartialEq, Eq, Structural)]
pub enum TrayMenuAction {
    ShowMainWindow,
    RequestExit,
    Ignore,
}

pub open spec fn tray_menu_policy(id: Seq<char>) -> TrayMenuAction {
    if id == SHOW_MENU_ID@ {
        TrayMenuAction::ShowMainWindow
    } else if id == QUIT_MENU_ID@ {
        TrayMenuAction::RequestExit
    } else {
        TrayMenuAction::Ignore
    }
}

/// What the tray menu item `id` does.
pub fn tray_menu_action(id: &str) -> (a: TrayMenuAction)
    ensures
        a == tray_menu_policy(id@),
{
    if str_eq(id, SHOW_MENU_ID) {
        TrayMenuAction::ShowMainWindow
    } else if str_eq(id, QUIT_MENU_ID) {
        TrayMenuAction::RequestExit
    } else {
        TrayMenuAction::Ignore
    }
}

/// Whether a click on the tray icon shows the main window: a release of the
/// left button does.
pub fn tray_click_shows_window(is_left_button: bool, is_button_up: bool) -> (r: bool)
    ensures
        r == (is_left_button && is_button_up),
{
    is_left_button && is_button_up
}

/// Once the user asked to quit, no window hides to the tray and no exit
/// request is refused, whatever the tray state, window or UI state.
pub proof fn explicit_exit_is_never_overridden(flags: LifecycleFlags, label: Seq<char>, ui_recreating: bool)
    requires
        flags@.explicit_exit_requested,
    ensures
        window_close_policy(flags, label) == CloseDecision::AllowClose,
        !(ui_recreating && !flags@.explicit_exit_requested),
{
}

/// A close request hides a window exactly when it is the main window, the
/// tray is ready and no exit was requested; otherwise the window closes.
pub proof fn only_the_main_window_hides_and_only_with_a_tray(flags: LifecycleFlags, label: Seq<char>)
    ensures
        window_close_policy(flags, label) == CloseDecision::HideToTray <==> (label
            == MAIN_WINDOW_LABEL@ && flags@.tray_ready && !flags@.explicit_exit_requested),
        window_close_policy(flags, label) == CloseDecision::HideToTray || window_close_policy(
            flags,
            label,
        ) == CloseDecision::AllowClose,
{
}

} // verus!
