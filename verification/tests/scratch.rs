use coding_tools::tools::scratch::{
    looks_like_transient_root_helper, session_dir_name, stale_entry_action, ScratchDir,
    StaleEntryAction, SCRATCH_RELATIVE_ROOT, SCRATCH_TTL_SECS,
};

#[test]
fn detects_obvious_transient_root_helpers_only() {
    assert!(looks_like_transient_root_helper("tmp_probe.py"));
    assert!(looks_like_transient_root_helper("weston_keyboard_probe.py"));
    assert!(looks_like_transient_root_helper("inspect_current_ns.py"));
    assert!(!looks_like_transient_root_helper("scripts/check_health.py"));
    assert!(!looks_like_transient_root_helper("build.py"));
    assert!(!looks_like_transient_root_helper("README.md"));
}

#[test]
fn transient_detection_ignores_ascii_case() {
    assert!(looks_like_transient_root_helper("TMP_X.PY"));
    assert!(looks_like_transient_root_helper("Debug_run.Sh"));
    assert!(looks_like_transient_root_helper("SCRATCH_a.ps1"));
    assert!(looks_like_transient_root_helper("temp_x.js"));
    assert!(looks_like_transient_root_helper("tmp_x.ts"));
    assert!(looks_like_transient_root_helper("x_PROBE.js"));
}

#[test]
fn transient_detection_rejects_separators_and_other_extensions() {
    assert!(!looks_like_transient_root_helper("dir\\tmp_probe.py"));
    assert!(!looks_like_transient_root_helper("./tmp_probe.py"));
    assert!(!looks_like_transient_root_helper("tmp_probe.rs"));
    assert!(!looks_like_transient_root_helper("tmp_"));
    assert!(!looks_like_transient_root_helper(""));
    assert!(!looks_like_transient_root_helper("probe.py"));
    assert!(!looks_like_transient_root_helper("mytmp_x.py"));
}

#[test]
fn session_directory_name_carries_pid_and_time() {
    assert_eq!(session_dir_name(1234, 1700000000123).as_str(), "session-1234-1700000000123");
    assert_eq!(session_dir_name(0, 0).as_str(), "session-0-0");
    assert_eq!(
        session_dir_name(u32::MAX, u128::MAX).as_str(),
        format!("session-{}-{}", u32::MAX, u128::MAX)
    );
}

#[test]
fn stale_entries_are_removed_by_kind() {
    assert_eq!(SCRATCH_TTL_SECS, 172800);
    assert_eq!(stale_entry_action(0, false, true, false), StaleEntryAction::Keep);
    assert_eq!(stale_entry_action(172799, true, false, false), StaleEntryAction::Keep);
    assert_eq!(stale_entry_action(172800, false, true, false), StaleEntryAction::RemoveFile);
    assert_eq!(stale_entry_action(172800, true, false, true), StaleEntryAction::RemoveFile);
    assert_eq!(stale_entry_action(200000, false, false, true), StaleEntryAction::RemoveDirAll);
    assert_eq!(stale_entry_action(200000, false, false, false), StaleEntryAction::Keep);
}

#[test]
fn scratch_dir_reports_path_and_availability() {
    assert_eq!(SCRATCH_RELATIVE_ROOT, ".coding-tools/scratch");
    let dir = ScratchDir::new(String::from("/nonexistent/scratch/session-1-2"), true);
    assert_eq!(dir.path(), "/nonexistent/scratch/session-1-2");
    assert!(dir.available_given(true));
    assert!(!dir.available_given(false));
    assert!(!dir.available());
    let not_created = ScratchDir::new(String::from("/"), false);
    assert!(!not_created.available_given(true));
    assert!(!not_created.available());
    let root = ScratchDir::new(String::from("/"), true);
    assert!(root.available());
}
