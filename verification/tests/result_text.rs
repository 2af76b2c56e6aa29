use coding_tools::json::{JsonNumber, JsonValue};
use coding_tools::tools::result_text::{
    bounded_model_text, display_scalar, history_search_with_query, render_tool_text,
    MODEL_TEXT_SAFETY_LIMIT_BYTES,
};

fn obj(members: Vec<(&str, JsonValue)>) -> JsonValue {
    JsonValue::Object(members.into_iter().map(|(k, v)| (k.to_string(), v)).collect())
}

fn text(s: &str) -> JsonValue {
    JsonValue::String(s.to_string())
}

fn num(n: u64) -> JsonValue {
    JsonValue::Number(JsonNumber::PosInt(n))
}

fn flag(b: bool) -> JsonValue {
    JsonValue::Bool(b)
}

fn list(items: Vec<JsonValue>) -> JsonValue {
    JsonValue::Array(items)
}

#[test]
fn history_bootstrap_text_does_not_mirror_structured_history() {
    let payload = obj(vec![
        ("ok", flag(true)),
        ("history_count", num(42)),
        ("current_path", text("docs/history-session/43.md")),
        ("history_read_mode", text("project_state_plus_latest_delta")),
        ("project_state_path", text("docs/history-state/PROJECT_STATE.md")),
        ("project_state", text("VERY_LARGE_PRIVATE_STATE_SHOULD_STAY_STRUCTURED")),
        ("latest_delta", text("VERY_LARGE_LATEST_DELTA_SHOULD_STAY_STRUCTURED")),
    ]);
    let text = render_tool_text("history_session_bootstrap", &payload, false);
    assert!(text.contains("42 prior session"));
    assert!(!text.contains("VERY_LARGE_PRIVATE_STATE_SHOULD_STAY_STRUCTURED"));
    assert!(!text.contains("VERY_LARGE_LATEST_DELTA_SHOULD_STAY_STRUCTURED"));
}

#[test]
fn large_read_file_model_text_is_bounded() {
    let payload = obj(vec![
        ("ok", flag(true)),
        ("path", text("large.txt")),
        ("content", text(&"界".repeat(20_000))),
        ("start_line", num(1)),
        ("end_line", num(1)),
        ("total_lines", num(1)),
        ("truncated", flag(false)),
    ]);

    let text = render_tool_text("read_file", &payload, false);

    assert!(text.len() <= MODEL_TEXT_SAFETY_LIMIT_BYTES);
    assert!(text.contains("model text reached"));
    assert!(text.contains("retry with narrower paths or limits"));
}

#[test]
fn history_read_model_text_keeps_page_content_and_continuation_cursor() {
    let payload = obj(vec![
        ("ok", flag(true)),
        ("number", num(20)),
        ("path", text("docs/history-session/20.md")),
        ("content", text(&"历史正文 marker\n".repeat(400))),
        ("cursor", num(4096)),
        ("next_cursor", num(8192)),
        ("total_bytes", num(12000)),
        ("content_hash", text("sha256:test")),
    ]);

    let text = render_tool_text("history_session_read", &payload, false);

    assert!(text.len() <= MODEL_TEXT_SAFETY_LIMIT_BYTES);
    assert!(text.contains("历史正文 marker"));
    assert!(text.contains("next_cursor=8192"));
    assert!(text.contains("content_hash=sha256:test"));
}

#[test]
fn history_search_model_text_keeps_hits_and_next_cursor() {
    let payload = obj(vec![
        ("ok", flag(true)),
        ("query", text("FG-350")),
        ("total_matches", num(3)),
        ("cursor", num(0)),
        ("next_cursor", num(2)),
        (
            "results",
            list(vec![obj(vec![
                ("number", num(20)),
                ("path", text("docs/history-session/20.md")),
                ("title", text("Read current project progress")),
                ("snippet", text("FG-350 exact CGF verification")),
            ])]),
        ),
    ]);

    let text = render_tool_text("history_session_search", &payload, false);

    assert!(text.contains("next_cursor=2"));
    assert!(text.contains("docs/history-session/20.md"));
    assert!(text.contains("FG-350 exact CGF verification"));
}

#[test]
fn history_search_quotes_the_query_exactly() {
    let payload = obj(vec![
        ("query", text("say \"hi\"")),
        ("total_matches", num(1)),
        (
            "results",
            list(vec![obj(vec![
                ("number", num(7)),
                ("path", text("a.md")),
                ("title", text("T")),
                ("snippet", text("S")),
            ])]),
        ),
    ]);
    let text = render_tool_text("history_session_search", &payload, false);
    assert_eq!(
        text,
        "History search: query=\"say \\\"hi\\\"\"; total=1; cursor=0; next_cursor=none.\n#7 a.md — T\nS"
    );
    let empty = render_tool_text("history_session_search", &obj(vec![]), false);
    assert_eq!(empty, "History search: query=\"\"; total=0; cursor=0; next_cursor=none.");
}

#[test]
fn history_search_text_from_a_quoted_query() {
    let payload = obj(vec![("total_matches", num(0)), ("next_cursor", num(9))]);
    assert_eq!(
        history_search_with_query(&payload, "<q>"),
        "History search: query=<q>; total=0; cursor=0; next_cursor=9."
    );
}

#[test]
fn error_form_takes_precedence() {
    let payload = obj(vec![
        ("ok", flag(false)),
        ("summary", text("fallback summary")),
        (
            "error",
            obj(vec![
                ("code", text("E_PATH")),
                ("message", text("bad path")),
                ("details", obj(vec![("retry_hint", text("use a relative path"))])),
            ]),
        ),
    ]);
    assert_eq!(
        render_tool_text("read_file", &payload, false),
        "E_PATH: bad path\nRetry: use a relative path"
    );
    let plain = obj(vec![("summary", text("it broke"))]);
    assert_eq!(render_tool_text("git_log", &plain, true), "TOOL_ERROR: it broke");
    assert_eq!(render_tool_text("git_log", &obj(vec![]), true), "TOOL_ERROR: Tool call failed.");
    let empty_hint = obj(vec![(
        "error",
        obj(vec![("details", obj(vec![("retry_hint", text(""))]))]),
    )]);
    assert_eq!(render_tool_text("x", &empty_hint, true), "TOOL_ERROR: Tool call failed.");
}

#[test]
fn fixed_form_results() {
    assert_eq!(
        render_tool_text("server_info", &obj(vec![("version", text("1.2"))]), false),
        "coding-tools-mcp 1.2\nWorkspace: ."
    );
    assert_eq!(
        render_tool_text(
            "history_session_checkpoint",
            &obj(vec![("path", text("p.md")), ("turn_id", text("t9"))]),
            false
        ),
        "History checkpoint saved: p.md (turn t9)."
    );
    assert_eq!(
        render_tool_text(
            "history_session_validate",
            &obj(vec![("sequence_valid", flag(true)), ("latest_number", num(5))]),
            false
        ),
        "History validation: PASS; latest session: 5; index: unknown."
    );
    assert_eq!(
        render_tool_text("history_session_validate", &obj(vec![]), false),
        "History validation: FAIL; latest session: none; index: unknown."
    );
    assert_eq!(
        render_tool_text(
            "check_exec_environment",
            &obj(vec![("filesystem_sandbox", obj(vec![("enforced", flag(true))]))]),
            false
        ),
        "Execution environment checked. Filesystem sandbox: enforced; execution boundary: unknown."
    );
    assert_eq!(
        render_tool_text("set_default_cwd", &obj(vec![("default_cwd", text("/w"))]), false),
        "Default working directory: /w"
    );
    assert_eq!(
        render_tool_text("get_default_cwd", &obj(vec![]), false),
        "Default working directory: ."
    );
    assert_eq!(
        render_tool_text("kill_session", &obj(vec![("session_id", text("s1"))]), false),
        "Session s1: completed."
    );
    assert_eq!(
        render_tool_text("view_image", &obj(vec![("path", text("a.png"))]), false),
        "Image: a.png (unknown)"
    );
    assert_eq!(
        render_tool_text("request_permissions", &obj(vec![("status", text("granted"))]), false),
        "Permission request: granted."
    );
    assert_eq!(
        render_tool_text("history_session_bootstrap", &obj(vec![]), false),
        "History initialized: 0 prior session(s); current handoff: unknown.\nContext mode: compact; canonical state: not present. Older history is available on demand by path."
    );
}

#[test]
fn git_diff_and_show_fall_back_when_empty() {
    assert_eq!(render_tool_text("git_diff", &obj(vec![("diff", text(""))]), false), "No diff.");
    assert_eq!(render_tool_text("git_diff", &obj(vec![("diff", text("+a"))]), false), "+a");
    assert_eq!(render_tool_text("git_show", &obj(vec![]), false), "No output.");
}

#[test]
fn unknown_tools_use_summary_or_status() {
    assert_eq!(
        render_tool_text("custom", &obj(vec![("summary", text("did it"))]), false),
        "did it"
    );
    assert_eq!(
        render_tool_text("custom", &obj(vec![("summary", text("")), ("status", text("queued"))]), false),
        "custom: queued."
    );
    assert_eq!(render_tool_text("custom", &JsonValue::Null, false), "custom: completed.");
}

#[test]
fn read_file_shows_range_when_truncated() {
    let payload = obj(vec![
        ("content", text("body")),
        ("truncated", flag(true)),
        ("start_line", num(3)),
        ("end_line", text("9")),
    ]);
    assert_eq!(
        render_tool_text("read_file", &payload, false),
        "[Showing lines 3-9 of ?; content truncated, request a narrower range or continue from the returned line metadata.]\nbody"
    );
    assert_eq!(render_tool_text("read_file", &obj(vec![("content", text("x"))]), false), "x");
    assert_eq!(render_tool_text("read_file", &obj(vec![]), false), "");
}

#[test]
fn listings_show_entries_and_truncation() {
    let payload = obj(vec![
        (
            "entries",
            list(vec![
                obj(vec![("path", text("src")), ("type", text("dir"))]),
                obj(vec![("name", text("a.rs"))]),
            ]),
        ),
        ("truncated", flag(true)),
    ]);
    assert_eq!(
        render_tool_text("list_dir", &payload, false),
        "src [dir]\na.rs\n… results truncated; narrow the path/patterns or raise the entry limit."
    );
    let files = obj(vec![("files", list(vec![obj(vec![("path", text("x"))])]))]);
    assert_eq!(render_tool_text("list_files", &files, false), "x");
    assert_eq!(render_tool_text("list_files", &obj(vec![("entries", list(vec![]))]), false), "No entries found.");
    assert_eq!(render_tool_text("list_dir", &obj(vec![]), false), "No entries found.");
}

#[test]
fn search_results_show_locations_and_context() {
    let payload = obj(vec![(
        "matches",
        list(vec![
            obj(vec![
                ("path", text("a.rs")),
                ("line", num(4)),
                ("column", num(2)),
                ("preview", text("fn a()")),
                ("before", list(vec![text("// c"), num(1)])),
                ("after", list(vec![text("}")])),
            ]),
            obj(vec![("path", text("b.rs")), ("line", num(1)), ("preview", text("x"))]),
        ]),
    )]);
    assert_eq!(
        render_tool_text("search_text", &payload, false),
        "a.rs:4:2: fn a()\n  // c\n  }\nb.rs:1: x"
    );
    assert_eq!(render_tool_text("grep_text", &obj(vec![]), false), "No matches found.");
    let truncated = obj(vec![
        ("matches", list(vec![obj(vec![("column", text(""))])])),
        ("truncated", flag(true)),
    ]);
    assert_eq!(
        render_tool_text("grep_text", &truncated, false),
        ":?: \n… results truncated; narrow the query/path or raise max_results."
    );
}

#[test]
fn patches_count_files() {
    let payload = obj(vec![
        ("dry_run", flag(true)),
        ("affected_files", list(vec![text("a"), text("b")])),
        ("summary", text("2 hunks")),
    ]);
    assert_eq!(render_tool_text("apply_patch", &payload, false), "Patch validated for 2 file(s).\n2 hunks");
    assert_eq!(render_tool_text("apply_patch", &obj(vec![]), false), "Patch applied for 0 file(s).");
}

#[test]
fn command_results_show_status_streams_and_hints() {
    let payload = obj(vec![
        ("status", text("exited")),
        ("exit_code", JsonValue::Number(JsonNumber::NegInt(-2))),
        ("signal", text("TERM")),
        ("timed_out", flag(true)),
        ("elapsed_ms", num(15)),
        ("stdout", text("out")),
        ("stderr", text("err")),
        ("stdout_truncated", flag(true)),
    ]);
    assert_eq!(
        render_tool_text("exec_command", &payload, false),
        "Status: exited | exit code -2 | signal TERM | timed out | 15 ms\nout\nstderr:\nerr\nOutput truncated; use read_output with the returned output_ref to read more."
    );
    let running = obj(vec![
        ("status", text("running")),
        ("session_id", text("s7")),
        ("preview", text("partial")),
    ]);
    assert_eq!(
        render_tool_text("write_stdin", &running, false),
        "Status: running\npartial\nSession still running; poll with write_stdin(session_id=\"s7\", chars=\"\")."
    );
    assert_eq!(render_tool_text("exec_command", &obj(vec![]), false), "Status: unknown");
}

#[test]
fn read_output_points_to_more() {
    assert_eq!(
        render_tool_text("read_output", &obj(vec![("stdout", text("x")), ("next_offset", num(3))]), false),
        "x\n[more output is available; continue with read_output using next_offset]"
    );
    assert_eq!(render_tool_text("read_output", &obj(vec![("content", text("c"))]), false), "c");
}

#[test]
fn git_results() {
    assert_eq!(
        render_tool_text("git_status", &obj(vec![("is_repo", flag(false))]), false),
        "Not a Git repository."
    );
    let status = obj(vec![
        ("branch", text("main")),
        ("entries", list(vec![obj(vec![("index_status", text("M")), ("path", text("a.rs"))])])),
    ]);
    assert_eq!(render_tool_text("git_status", &status, false), "## main\nM  a.rs");
    assert_eq!(
        render_tool_text("git_status", &obj(vec![("entries", list(vec![]))]), false),
        "## detached\nWorking tree clean."
    );
    assert_eq!(render_tool_text("git_status", &obj(vec![]), false), "## detached");
    let log = obj(vec![(
        "commits",
        list(vec![
            obj(vec![("short_hash", text("abc")), ("subject", text("one"))]),
            obj(vec![("short_hash", text("def"))]),
        ]),
    )]);
    assert_eq!(render_tool_text("git_log", &log, false), "abc one\ndef ");
    assert_eq!(render_tool_text("git_log", &obj(vec![]), false), "No commits found.");
    let blame = obj(vec![(
        "lines",
        list(vec![obj(vec![("line", num(1)), ("commit", text("c1")), ("content", text("x"))])]),
    )]);
    assert_eq!(render_tool_text("git_blame", &blame, false), "1 c1 x");
    assert_eq!(render_tool_text("git_blame", &obj(vec![]), false), "No blame lines found.");
    assert_eq!(render_tool_text("git_blame", &obj(vec![("lines", list(vec![]))]), false), "");
}

#[test]
fn scalars_display_like_json_numbers() {
    assert_eq!(display_scalar(Some(&num(0))), "0");
    assert_eq!(display_scalar(Some(&num(u64::MAX))), "18446744073709551615");
    assert_eq!(display_scalar(Some(&JsonValue::Number(JsonNumber::NegInt(i64::MIN)))), "-9223372036854775808");
    assert_eq!(display_scalar(Some(&JsonValue::Number(JsonNumber::Float("1.5".to_string())))), "1.5");
    assert_eq!(display_scalar(Some(&flag(true))), "true");
    assert_eq!(display_scalar(Some(&flag(false))), "false");
    assert_eq!(display_scalar(Some(&text("t"))), "t");
    assert_eq!(display_scalar(Some(&JsonValue::Null)), "?");
    assert_eq!(display_scalar(None), "?");
}

#[test]
fn short_text_passes_the_ceiling_unchanged() {
    let exact = "a".repeat(MODEL_TEXT_SAFETY_LIMIT_BYTES);
    assert_eq!(bounded_model_text(&exact, "t"), exact);
    assert_eq!(bounded_model_text("", "t"), "");
}

#[test]
fn long_text_is_cut_on_a_character_boundary() {
    let value = "界".repeat(2000);
    let out = bounded_model_text(&value, "read_file");
    let notice = "\n… read_file model text reached the 4096-byte safety ceiling; retry with narrower paths or limits.";
    assert!(out.ends_with(notice));
    let kept = &out[..out.len() - notice.len()];
    assert!(value.starts_with(kept));
    assert!(out.len() <= MODEL_TEXT_SAFETY_LIMIT_BYTES);
    // The room left is 4096 - notice bytes; the cut rounds down to a multiple of three.
    let room = MODEL_TEXT_SAFETY_LIMIT_BYTES - notice.len();
    assert_eq!(kept.len(), room - room % 3);
    let one_over = "b".repeat(MODEL_TEXT_SAFETY_LIMIT_BYTES + 1);
    let cut = bounded_model_text(&one_over, "x");
    assert_eq!(cut.len(), MODEL_TEXT_SAFETY_LIMIT_BYTES);
}

#[test]
fn oversized_tool_name_is_left_out_of_the_notice() {
    let name = "n".repeat(5000);
    let value = "v".repeat(5000);
    let out = bounded_model_text(&value, &name);
    let notice = "\n… model text reached the 4096-byte safety ceiling; retry with narrower paths or limits.";
    assert!(out.len() <= MODEL_TEXT_SAFETY_LIMIT_BYTES);
    assert!(out.ends_with(notice));
    assert!(!out.contains("nnn"));
    assert_eq!(out.len(), MODEL_TEXT_SAFETY_LIMIT_BYTES);
    assert!(value.starts_with(&out[..out.len() - notice.len()]));
}

#[test]
fn every_tool_result_stays_within_the_ceiling() {
    let long_error = obj(vec![("summary", text(&"e".repeat(9000)))]);
    for name in ["git_log".to_string(), "x".repeat(4005), "x".repeat(4006), "界".repeat(3000)] {
        let out = render_tool_text(&name, &long_error, true);
        assert!(out.len() <= MODEL_TEXT_SAFETY_LIMIT_BYTES);
        assert!(out.contains("model text reached the 4096-byte safety ceiling"));
    }
    assert!(render_tool_text("git_log", &long_error, true).starts_with("TOOL_ERROR: eee"));
    // A name whose notice fills the ceiling exactly leaves no room for the text.
    let exact = render_tool_text(&"x".repeat(4005), &long_error, true);
    assert_eq!(exact.len(), MODEL_TEXT_SAFETY_LIMIT_BYTES);
    assert!(exact.starts_with("\n… xxx"));
}

#[test]
fn first_member_wins_on_duplicate_keys() {
    let payload = obj(vec![("default_cwd", text("/first")), ("default_cwd", text("/second"))]);
    assert_eq!(render_tool_text("get_default_cwd", &payload, false), "Default working directory: /first");
}
