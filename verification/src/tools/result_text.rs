use vstd::prelude::*;
use vstd::utf8::*;
use vstd::string::*;
use crate::json::{
    JsonNumber, JsonValue, array_member, array_value, bool_member, bool_value, opt_deref,
    opt_view, spec_as_array, spec_as_bool, spec_as_i64, spec_as_str, spec_get, spec_get_opt,
    string_member, string_value, u64_member, u64_value,
};
use crate::text::{byte_len, decimal, join, lemma_join_starts_with_first, lemma_join_starts_with_first_two, begins_with, push_decimal, push_signed_decimal, signed_decimal, str_eq, views, join_strings};

verus! {

/// Hard ceiling, in bytes, for the text of one tool result.
pub const MODEL_TEXT_SAFETY_LIMIT_BYTES: usize = 4 * 1024;

/// `o`, or `d` when it is absent.
pub open spec fn or_default(o: Option<Seq<char>>, d: Seq<char>) -> Seq<char> {
    match o {
        Some(s) => s,
        None => d,
    }
}

/// `o` when it holds a non-empty text.
pub open spec fn non_empty(o: Option<Seq<char>>) -> Option<Seq<char>> {
    match o {
        Some(s) => if s.len() > 0 { Some(s) } else { None },
        None => None,
    }
}

/// A number or zero.
pub open spec fn or_zero(o: Option<u64>) -> nat {
    match o {
        Some(n) => n as nat,
        None => 0,
    }
}

/// A cursor in decimal, or `none`.
pub open spec fn cursor_text(o: Option<u64>) -> Seq<char> {
    match o {
        Some(n) => decimal(n as nat),
        None => "none"@,
    }
}

fn str_or<'a>(o: Option<&'a str>, d: &'a str) -> (r: &'a str)
    ensures
        r@ == or_default(opt_view(o), d@),
{
    match o {
        Some(s) => s,
        None => d,
    }
}

fn push_cursor(out: &mut String, o: Option<u64>)
    ensures
        final(out)@ == old(out)@ + cursor_text(o),
{
    match o {
        Some(n) => push_decimal(out, n as u128),
        None => out.append("none"),
    }
}

fn u64_or_zero(o: Option<u64>) -> (r: u64)
    ensures
        r == or_zero(o),
{
    match o {
        Some(n) => n,
        None => 0,
    }
}

// ---------------------------------------------------------------------------
// Scalars

/// How a scalar member reads in text: strings as they are, numbers in
/// their display form, booleans as `true`/`false`, anything else as `?`.
pub open spec fn scalar_text(v: Option<JsonValue>) -> Seq<char> {
    match v {
        Some(JsonValue::String(s)) => s@,
        Some(JsonValue::Number(JsonNumber::PosInt(n))) => decimal(n as nat),
        Some(JsonValue::Number(JsonNumber::NegInt(n))) => signed_decimal(n as int),
        Some(JsonValue::Number(JsonNumber::Float(t))) => t@,
        Some(JsonValue::Bool(b)) => if b { "true"@ } else { "false"@ },
        _ => "?"@,
    }
}

/// Text of a scalar member (see [`scalar_text`]).
pub fn display_scalar(v: Option<&JsonValue>) -> (r: String)
    ensures
        r@ == scalar_text(opt_deref(v)),
{
    let mut s = String::new();
    match v {
        Some(JsonValue::String(t)) => s.append(t.as_str()),
        Some(JsonValue::Number(JsonNumber::PosInt(n))) => push_decimal(&mut s, *n as u128),
        Some(JsonValue::Number(JsonNumber::NegInt(n))) => push_signed_decimal(&mut s, *n),
        Some(JsonValue::Number(JsonNumber::Float(t))) => s.append(t.as_str()),
        Some(JsonValue::Bool(b)) => {
            if *b {
                s.append("true")
            } else {
                s.append("false")
            }
        },
        _ => s.append("?"),
    }
    s
}

// ---------------------------------------------------------------------------
// Fixed-form results

pub open spec fn server_info_text(p: JsonValue) -> Seq<char> {
    or_default(string_member(p, "server"@), "coding-tools-mcp"@) + " "@
        + or_default(string_member(p, "version"@), "unknown"@) + "\nWorkspace: "@
        + or_default(string_member(p, "workspace"@), "."@)
}

pub fn render_server_info(p: &JsonValue) -> (r: String)
    ensures
        r@ == server_info_text(*p),
{
    let mut s = String::new();
    s.append(str_or(string_value(p, "server"), "coding-tools-mcp"));
    s.append(" ");
    s.append(str_or(string_value(p, "version"), "unknown"));
    s.append("\nWorkspace: ");
    s.append(str_or(string_value(p, "workspace"), "."));
    s
}

pub open spec fn history_bootstrap_text(p: JsonValue) -> Seq<char> {
    "History initialized: "@ + decimal(or_zero(u64_member(p, "history_count"@)))
        + " prior session(s); current handoff: "@
        + or_default(string_member(p, "current_path"@), "unknown"@) + ".\nContext mode: "@
        + or_default(string_member(p, "history_read_mode"@), "compact"@)
        + "; canonical state: "@
        + or_default(string_member(p, "project_state_path"@), "not present"@)
        + ". Older history is available on demand by path."@
}

pub fn render_history_bootstrap(p: &JsonValue) -> (r: String)
    ensures
        r@ == history_bootstrap_text(*p),
{
    let count = u64_or_zero(u64_value(p, "history_count"));
    let mut s = String::new();
    s.append("History initialized: ");
    push_decimal(&mut s, count as u128);
    s.append(" prior session(s); current handoff: ");
    s.append(str_or(string_value(p, "current_path"), "unknown"));
    s.append(".\nContext mode: ");
    s.append(str_or(string_value(p, "history_read_mode"), "compact"));
    s.append("; canonical state: ");
    s.append(str_or(string_value(p, "project_state_path"), "not present"));
    s.append(". Older history is available on demand by path.");
    s
}

pub open spec fn history_checkpoint_text(p: JsonValue) -> Seq<char> {
    "History checkpoint saved: "@ + or_default(string_member(p, "path"@), "unknown"@)
        + " (turn "@ + or_default(string_member(p, "turn_id"@), "unknown"@) + ")."@
}

pub fn render_history_checkpoint(p: &JsonValue) -> (r: String)
    ensures
        r@ == history_checkpoint_text(*p),
{
    let mut s = String::new();
    s.append("History checkpoint saved: ");
    s.append(str_or(string_value(p, "path"), "unknown"));
    s.append(" (turn ");
    s.append(str_or(string_value(p, "turn_id"), "unknown"));
    s.append(").");
    s
}

pub open spec fn history_validate_text(p: JsonValue) -> Seq<char> {
    "History validation: "@
        + (if bool_member(p, "sequence_valid"@) == Some(true) { "PASS"@ } else { "FAIL"@ })
        + "; latest session: "@ + cursor_text(u64_member(p, "latest_number"@)) + "; index: "@
        + or_default(string_member(p, "index_status"@), "unknown"@) + "."@
}

pub fn render_history_validate(p: &JsonValue) -> (r: String)
    ensures
        r@ == history_validate_text(*p),
{
    let valid = match bool_value(p, "sequence_valid") {
        Some(b) => b,
        None => false,
    };
    let mut s = String::new();
    s.append("History validation: ");
    if valid {
        s.append("PASS");
    } else {
        s.append("FAIL");
    }
    s.append("; latest session: ");
    push_cursor(&mut s, u64_value(p, "latest_number"));
    s.append("; index: ");
    s.append(str_or(string_value(p, "index_status"), "unknown"));
    s.append(".");
    s
}

pub open spec fn exec_environment_text(p: JsonValue) -> Seq<char> {
    "Execution environment checked. Filesystem sandbox: "@
        + (if spec_as_bool(spec_get_opt(spec_get(p, "filesystem_sandbox"@), "enforced"@)) == Some(true) {
            "enforced"@
        } else {
            "not enforced"@
        }) + "; execution boundary: "@
        + or_default(string_member(p, "workspace_exec_boundary"@), "unknown"@) + "."@
}

pub fn render_exec_environment(p: &JsonValue) -> (r: String)
    ensures
        r@ == exec_environment_text(*p),
{
    let sandbox = match p.get("filesystem_sandbox") {
        Some(fs) => match bool_value(fs, "enforced") {
            Some(b) => b,
            None => false,
        },
        None => false,
    };
    let mut s = String::new();
    s.append("Execution environment checked. Filesystem sandbox: ");
    if sandbox {
        s.append("enforced");
    } else {
        s.append("not enforced");
    }
    s.append("; execution boundary: ");
    s.append(str_or(string_value(p, "workspace_exec_boundary"), "unknown"));
    s.append(".");
    s
}

pub open spec fn cwd_text(p: JsonValue) -> Seq<char> {
    "Default working directory: "@ + or_default(string_member(p, "default_cwd"@), "."@)
}

pub fn render_cwd(p: &JsonValue) -> (r: String)
    ensures
        r@ == cwd_text(*p),
{
    let mut s = String::new();
    s.append("Default working directory: ");
    s.append(str_or(string_value(p, "default_cwd"), "."));
    s
}

pub open spec fn kill_text(p: JsonValue) -> Seq<char> {
    "Session "@ + or_default(string_member(p, "session_id"@), "unknown"@) + ": "@
        + or_default(string_member(p, "status"@), "completed"@) + "."@
}

pub fn render_kill(p: &JsonValue) -> (r: String)
    ensures
        r@ == kill_text(*p),
{
    let mut s = String::new();
    s.append("Session ");
    s.append(str_or(string_value(p, "session_id"), "unknown"));
    s.append(": ");
    s.append(str_or(string_value(p, "status"), "completed"));
    s.append(".");
    s
}

pub open spec fn image_text(p: JsonValue) -> Seq<char> {
    "Image: "@ + or_default(string_member(p, "path"@), ""@) + " ("@
        + or_default(string_member(p, "mime_type"@), "unknown"@) + ")"@
}

pub fn render_image(p: &JsonValue) -> (r: String)
    ensures
        r@ == image_text(*p),
{
    let mut s = String::new();
    s.append("Image: ");
    s.append(str_or(string_value(p, "path"), ""));
    s.append(" (");
    s.append(str_or(string_value(p, "mime_type"), "unknown"));
    s.append(")");
    s
}

/// The non-empty string member `key`, or `empty`.
pub open spec fn key_text(p: JsonValue, key: Seq<char>, empty: Seq<char>) -> Seq<char> {
    or_default(non_empty(string_member(p, key)), empty)
}

pub fn render_key(p: &JsonValue, key: &str, empty: &str) -> (r: String)
    ensures
        r@ == key_text(*p, key@, empty@),
{
    let mut s = String::new();
    match string_value(p, key) {
        Some(v) => {
            if !v.is_empty() {
                s.append(v);
            } else {
                s.append(empty);
            }
        },
        None => s.append(empty),
    }
    s
}

pub open spec fn permission_text(p: JsonValue) -> Seq<char> {
    "Permission request: "@ + or_default(string_member(p, "status"@), "completed"@) + "."@
}

pub fn render_permission(p: &JsonValue) -> (r: String)
    ensures
        r@ == permission_text(*p),
{
    let mut s = String::new();
    s.append("Permission request: ");
    s.append(str_or(string_value(p, "status"), "completed"));
    s.append(".");
    s
}

/// The non-empty `summary`, or `<tool>: <status>.`.
pub open spec fn fallback_text(tool: Seq<char>, p: JsonValue) -> Seq<char> {
    match non_empty(string_member(p, "summary"@)) {
        Some(summary) => summary,
        None => tool + ": "@ + or_default(string_member(p, "status"@), "completed"@) + "."@,
    }
}

pub fn render_fallback(tool: &str, p: &JsonValue) -> (r: String)
    ensures
        r@ == fallback_text(tool@, *p),
{
    let mut s = String::new();
    if let Some(summary) = string_value(p, "summary") {
        if !summary.is_empty() {
            s.append(summary);
            return s;
        }
    }
    s.append(tool);
    s.append(": ");
    s.append(str_or(string_value(p, "status"), "completed"));
    s.append(".");
    s
}

// ---------------------------------------------------------------------------
// History archive

/// What std's `Debug` formatting writes for a string slice: the text in
/// double quotes, with its special characters escaped.
pub uninterp spec fn debug_text(s: Seq<char>) -> Seq<char>;

/// `format!("{:?}", s)`, that is `<str as core::fmt::Debug>::fmt`; the
/// result is taken to be [`debug_text`] of the characters of `s`.
#[verifier::external_body]
fn debug_quoted(s: &str) -> (r: String)
    ensures
        r@ == debug_text(s@),
{
    format!("{:?}", s)
}

/// One hit of a history search: `#<number> <path> — <title>` then the snippet.
pub open spec fn search_hit_text(hit: JsonValue) -> Seq<char> {
    "#"@ + decimal(or_zero(u64_member(hit, "number"@))) + " "@
        + or_default(string_member(hit, "path"@), "unknown"@) + " — "@
        + or_default(string_member(hit, "title"@), ""@) + "\n"@
        + or_default(string_member(hit, "snippet"@), ""@)
}

pub open spec fn search_hits(p: JsonValue) -> Seq<Seq<char>> {
    match array_member(p, "results"@) {
        Some(hits) => hits.map_values(|h: JsonValue| search_hit_text(h)),
        None => Seq::empty(),
    }
}

/// The text of a history search whose query, already quoted, is `quoted_query`.
pub open spec fn history_search_text(p: JsonValue, quoted_query: Seq<char>) -> Seq<char> {
    join(
        seq![
            "History search: query="@ + quoted_query + "; total="@
                + decimal(or_zero(u64_member(p, "total_matches"@))) + "; cursor="@
                + decimal(or_zero(u64_member(p, "cursor"@))) + "; next_cursor="@
                + cursor_text(u64_member(p, "next_cursor"@)) + "."@,
        ] + search_hits(p),
        "\n"@,
    )
}

pub open spec fn history_search_query(p: JsonValue) -> Seq<char> {
    or_default(string_member(p, "query"@), ""@)
}

fn search_hit_line(hit: &JsonValue) -> (r: String)
    ensures
        r@ == search_hit_text(*hit),
{
    let mut s = String::new();
    s.append("#");
    push_decimal(&mut s, u64_or_zero(u64_value(hit, "number")) as u128);
    s.append(" ");
    s.append(str_or(string_value(hit, "path"), "unknown"));
    s.append(" — ");
    s.append(str_or(string_value(hit, "title"), ""));
    s.append("\n");
    s.append(str_or(string_value(hit, "snippet"), ""));
    s
}

/// The history search text, given the query already quoted.
pub fn history_search_with_query(p: &JsonValue, quoted_query: &str) -> (r: String)
    ensures
        r@ == history_search_text(*p, quoted_query@),
{
    let mut head = String::new();
    head.append("History search: query=");
    head.append(quoted_query);
    head.append("; total=");
    push_decimal(&mut head, u64_or_zero(u64_value(p, "total_matches")) as u128);
    head.append("; cursor=");
    push_decimal(&mut head, u64_or_zero(u64_value(p, "cursor")) as u128);
    head.append("; next_cursor=");
    push_cursor(&mut head, u64_value(p, "next_cursor"));
    head.append(".");
    let ghost head_view = head@;
    let mut lines: Vec<String> = Vec::new();
    lines.push(head);
    match array_value(p, "results") {
        Some(hits) => {
            let n = hits.len();
            let mut i: usize = 0;
            while i < n
                invariant
                    n == hits@.len(),
                    i <= n,
                    views(lines@) =~= seq![head_view] + hits@.take(i as int).map_values(
                        |h: JsonValue| search_hit_text(h),
                    ),
                decreases n - i,
            {
                let line = search_hit_line(&hits[i]);
                let ghost before = lines@;
                lines.push(line);
                assert(views(lines@) =~= views(before).push(line@));
                assert(hits@.take(i + 1).map_values(|h: JsonValue| search_hit_text(h))
                    =~= hits@.take(i as int).map_values(|h: JsonValue| search_hit_text(h)).push(search_hit_text(hits@[i as int])));
                i = i + 1;
            }
            assert(hits@.take(n as int) =~= hits@);
        },
        None => {},
    }
    assert(views(lines@) =~= seq![head_view] + search_hits(*p));
    join_strings(&lines, "\n")
}

pub fn render_history_search(p: &JsonValue) -> (r: String)
    ensures
        r@ == history_search_text(*p, debug_text(history_search_query(*p))),
{
    let query = str_or(string_value(p, "query"), "");
    let quoted = debug_quoted(query);
    history_search_with_query(p, quoted.as_str())
}

pub open spec fn history_read_text(p: JsonValue) -> Seq<char> {
    "History archive #"@ + decimal(or_zero(u64_member(p, "number"@))) + ": "@
        + or_default(string_member(p, "path"@), "unknown"@) + "\ncursor="@
        + decimal(or_zero(u64_member(p, "cursor"@))) + "; next_cursor="@
        + cursor_text(u64_member(p, "next_cursor"@)) + "; total_bytes="@
        + decimal(or_zero(u64_member(p, "total_bytes"@))) + "; content_hash="@
        + or_default(string_member(p, "content_hash"@), "unknown"@) + "\n"@
        + or_default(string_member(p, "content"@), ""@)
}

pub fn render_history_read(p: &JsonValue) -> (r: String)
    ensures
        r@ == history_read_text(*p),
{
    let mut s = String::new();
    s.append("History archive #");
    push_decimal(&mut s, u64_or_zero(u64_value(p, "number")) as u128);
    s.append(": ");
    s.append(str_or(string_value(p, "path"), "unknown"));
    s.append("\ncursor=");
    push_decimal(&mut s, u64_or_zero(u64_value(p, "cursor")) as u128);
    s.append("; next_cursor=");
    push_cursor(&mut s, u64_value(p, "next_cursor"));
    s.append("; total_bytes=");
    push_decimal(&mut s, u64_or_zero(u64_value(p, "total_bytes")) as u128);
    s.append("; content_hash=");
    s.append(str_or(string_value(p, "content_hash"), "unknown"));
    s.append("\n");
    s.append(str_or(string_value(p, "content"), ""));
    s
}

// ---------------------------------------------------------------------------
// Errors

/// The `error` member, or null.
pub open spec fn error_member(p: JsonValue) -> JsonValue {
    match spec_get(p, "error"@) {
        Some(e) => e,
        None => JsonValue::Null,
    }
}

pub open spec fn error_message(p: JsonValue) -> Seq<char> {
    match string_member(error_member(p), "message"@) {
        Some(m) => m,
        None => or_default(string_member(p, "summary"@), "Tool call failed."@),
    }
}

pub open spec fn retry_hint(p: JsonValue) -> Option<Seq<char>> {
    non_empty(spec_as_str(spec_get_opt(spec_get(error_member(p), "details"@), "retry_hint"@)))
}

/// `<code>: <message>`, then `Retry: <hint>` on a line of its own when the
/// error carries a non-empty retry hint.
pub open spec fn error_text(p: JsonValue) -> Seq<char> {
    let first = or_default(string_member(error_member(p), "code"@), "TOOL_ERROR"@) + ": "@
        + error_message(p);
    match retry_hint(p) {
        Some(hint) => first + "\n"@ + ("Retry: "@ + hint),
        None => first,
    }
}

pub fn render_error(p: &JsonValue) -> (r: String)
    ensures
        r@ == error_text(*p),
{
    let null = JsonValue::Null;
    let error = match p.get("error") {
        Some(e) => e,
        None => &null,
    };
    let mut s = String::new();
    s.append(str_or(string_value(error, "code"), "TOOL_ERROR"));
    s.append(": ");
    match string_value(error, "message") {
        Some(m) => s.append(m),
        None => s.append(str_or(string_value(p, "summary"), "Tool call failed.")),
    }
    let hint = match error.get("details") {
        Some(details) => string_value(details, "retry_hint"),
        None => None,
    };
    if let Some(h) = hint {
        if !h.is_empty() {
            s.append("\n");
            s.append("Retry: ");
            s.append(h);
        }
    }
    s
}

// ---------------------------------------------------------------------------
// Files and listings

pub open spec fn read_file_text(p: JsonValue) -> Seq<char> {
    match string_member(p, "content"@) {
        None => Seq::empty(),
        Some(c) => if bool_member(p, "truncated"@) != Some(true) {
            c
        } else {
            "[Showing lines "@ + scalar_text(spec_get(p, "start_line"@)) + "-"@
                + scalar_text(spec_get(p, "end_line"@)) + " of "@
                + scalar_text(spec_get(p, "total_lines"@))
                + "; content truncated, request a narrower range or continue from the returned line metadata.]\n"@
                + c
        },
    }
}

pub fn render_read_file(p: &JsonValue) -> (r: String)
    ensures
        r@ == read_file_text(*p),
{
    let mut s = String::new();
    let content = match string_value(p, "content") {
        Some(c) => c,
        None => return s,
    };
    if bool_value(p, "truncated") != Some(true) {
        s.append(content);
        return s;
    }
    s.append("[Showing lines ");
    s.append(display_scalar(p.get("start_line")).as_str());
    s.append("-");
    s.append(display_scalar(p.get("end_line")).as_str());
    s.append(" of ");
    s.append(display_scalar(p.get("total_lines")).as_str());
    s.append(
        "; content truncated, request a narrower range or continue from the returned line metadata.]\n",
    );
    s.append(content);
    s
}

/// A closing note, present when the payload says its results were cut short.
pub open spec fn truncation_note(p: JsonValue, note: Seq<char>) -> Seq<Seq<char>> {
    if bool_member(p, "truncated"@) == Some(true) {
        seq![note]
    } else {
        Seq::empty()
    }
}

fn push_truncation_note(lines: &mut Vec<String>, p: &JsonValue, note: &str)
    ensures
        views(final(lines)@) == views(old(lines)@) + truncation_note(*p, note@),
{
    if bool_value(p, "truncated") == Some(true) {
        let ghost before = lines@;
        let mut s = String::new();
        s.append(note);
        lines.push(s);
        assert(views(lines@) =~= views(before) + truncation_note(*p, note@));
    } else {
        assert(views(lines@) =~= views(lines@) + truncation_note(*p, note@));
    }
}

/// The listed entries: the `entries` member, or else `files`, when it is an array.
pub open spec fn list_entries(p: JsonValue) -> Option<Seq<JsonValue>> {
    spec_as_array(
        match spec_get(p, "entries"@) {
            Some(e) => Some(e),
            None => spec_get(p, "files"@),
        },
    )
}

/// `<path> [<type>]`, where the path falls back to the name.
pub open spec fn list_entry_text(item: JsonValue) -> Seq<char> {
    let path = match string_member(item, "path"@) {
        Some(x) => x,
        None => or_default(string_member(item, "name"@), ""@),
    };
    match string_member(item, "type"@) {
        Some(kind) => path + " ["@ + kind + "]"@,
        None => path,
    }
}

pub open spec fn list_text(p: JsonValue) -> Seq<char> {
    match list_entries(p) {
        None => "No entries found."@,
        Some(entries) => if entries.len() == 0 {
            "No entries found."@
        } else {
            join(
                entries.map_values(|e: JsonValue| list_entry_text(e)) + truncation_note(
                    p,
                    "… results truncated; narrow the path/patterns or raise the entry limit."@,
                ),
                "\n"@,
            )
        },
    }
}

fn list_entry_line(item: &JsonValue) -> (r: String)
    ensures
        r@ == list_entry_text(*item),
{
    let path = match string_value(item, "path") {
        Some(x) => x,
        None => str_or(string_value(item, "name"), ""),
    };
    let mut s = String::new();
    s.append(path);
    if let Some(kind) = string_value(item, "type") {
        s.append(" [");
        s.append(kind);
        s.append("]");
    }
    s
}

pub fn render_list(p: &JsonValue) -> (r: String)
    ensures
        r@ == list_text(*p),
{
    let found = match p.get("entries") {
        Some(e) => Some(e),
        None => p.get("files"),
    };
    let entries = match found {
        Some(v) => v.as_array(),
        None => None,
    };
    let mut out = String::new();
    let entries = match entries {
        Some(e) => e,
        None => {
            out.append("No entries found.");
            return out;
        },
    };
    if entries.len() == 0 {
        out.append("No entries found.");
        return out;
    }
    let mut lines: Vec<String> = Vec::new();
    let n = entries.len();
    let mut i: usize = 0;
    while i < n
        invariant
            n == entries@.len(),
            i <= n,
            views(lines@) =~= entries@.take(i as int).map_values(|e: JsonValue| list_entry_text(e)),
        decreases n - i,
    {
        let line = list_entry_line(&entries[i]);
        let ghost before = lines@;
        lines.push(line);
        assert(views(lines@) =~= views(before).push(line@));
        assert(entries@.take(i + 1).map_values(|e: JsonValue| list_entry_text(e))
            =~= entries@.take(i as int).map_values(|e: JsonValue| list_entry_text(e)).push(
            list_entry_text(entries@[i as int]),
        ));
        i = i + 1;
    }
    assert(entries@.take(n as int) =~= entries@);
    push_truncation_note(
        &mut lines,
        p,
        "… results truncated; narrow the path/patterns or raise the entry limit.",
    );
    join_strings(&lines, "\n")
}

// ---------------------------------------------------------------------------
// Text search

/// `<path>:<line>`, with `:<column>` when the column is known.
pub open spec fn match_location(item: JsonValue) -> Seq<char> {
    let path = or_default(string_member(item, "path"@), ""@);
    let line = scalar_text(spec_get(item, "line"@));
    let column = scalar_text(spec_get(item, "column"@));
    if column.len() == 0 || column == "?"@ {
        path + ":"@ + line
    } else {
        path + ":"@ + line + ":"@ + column
    }
}

/// Context lines, each string indented by two spaces; other values are skipped.
pub open spec fn context_lines(ctx: Seq<JsonValue>) -> Seq<Seq<char>>
    decreases ctx.len(),
{
    if ctx.len() == 0 {
        Seq::empty()
    } else {
        context_lines(ctx.drop_last()) + match spec_as_str(Some(ctx.last())) {
            Some(t) => seq!["  "@ + t],
            None => Seq::empty(),
        }
    }
}

pub open spec fn context_of(ctx: Option<Seq<JsonValue>>) -> Seq<Seq<char>> {
    match ctx {
        Some(c) => context_lines(c),
        None => Seq::empty(),
    }
}

/// The lines of one match: location and preview, then the context before and after.
pub open spec fn match_lines(item: JsonValue) -> Seq<Seq<char>> {
    seq![match_location(item) + ": "@ + or_default(string_member(item, "preview"@), ""@)]
        + context_of(array_member(item, "before"@)) + context_of(array_member(item, "after"@))
}

pub open spec fn all_match_lines(items: Seq<JsonValue>) -> Seq<Seq<char>>
    decreases items.len(),
{
    if items.len() == 0 {
        Seq::empty()
    } else {
        all_match_lines(items.drop_last()) + match_lines(items.last())
    }
}

pub open spec fn search_text(p: JsonValue) -> Seq<char> {
    match array_member(p, "matches"@) {
        None => "No matches found."@,
        Some(items) => if items.len() == 0 {
            "No matches found."@
        } else {
            join(
                all_match_lines(items) + truncation_note(
                    p,
                    "… results truncated; narrow the query/path or raise max_results."@,
                ),
                "\n"@,
            )
        },
    }
}

fn push_context(lines: &mut Vec<String>, item: &JsonValue, key: &str)
    ensures
        views(final(lines)@) == views(old(lines)@) + context_of(array_member(*item, key@)),
{
    let ghost start = views(lines@);
    match array_value(item, key) {
        Some(ctx) => {
            let n = ctx.len();
            let mut i: usize = 0;
            while i < n
                invariant
                    n == ctx@.len(),
                    i <= n,
                    views(lines@) =~= start + context_lines(ctx@.take(i as int)),
                decreases n - i,
            {
                assert(ctx@.take(i + 1).drop_last() =~= ctx@.take(i as int));
                if let Some(t) = ctx[i].as_str() {
                    let mut s = String::new();
                    s.append("  ");
                    s.append(t);
                    let ghost before = lines@;
                    lines.push(s);
                    assert(views(lines@) =~= views(before).push(s@));
                }
                i = i + 1;
            }
            assert(ctx@.take(n as int) =~= ctx@);
        },
        None => {
            assert(views(lines@) =~= start + context_of(array_member(*item, key@)));
        },
    }
}

fn match_head_line(item: &JsonValue) -> (r: String)
    ensures
        r@ == match_location(*item) + ": "@ + or_default(string_member(*item, "preview"@), ""@),
{
    let mut s = String::new();
    s.append(str_or(string_value(item, "path"), ""));
    s.append(":");
    let line = display_scalar(item.get("line"));
    let column = display_scalar(item.get("column"));
    s.append(line.as_str());
    if !(column.as_str().is_empty() || str_eq(column.as_str(), "?")) {
        s.append(":");
        s.append(column.as_str());
    }
    s.append(": ");
    s.append(str_or(string_value(item, "preview"), ""));
    s
}

pub fn render_search(p: &JsonValue) -> (r: String)
    ensures
        r@ == search_text(*p),
{
    let mut out = String::new();
    let items = match array_value(p, "matches") {
        Some(m) => m,
        None => {
            out.append("No matches found.");
            return out;
        },
    };
    if items.len() == 0 {
        out.append("No matches found.");
        return out;
    }
    let mut lines: Vec<String> = Vec::new();
    let n = items.len();
    let mut i: usize = 0;
    while i < n
        invariant
            n == items@.len(),
            i <= n,
            views(lines@) =~= all_match_lines(items@.take(i as int)),
        decreases n - i,
    {
        assert(items@.take(i + 1).drop_last() =~= items@.take(i as int));
        let item = &items[i];
        let head = match_head_line(item);
        let ghost before = lines@;
        lines.push(head);
        assert(views(lines@) =~= views(before).push(head@));
        push_context(&mut lines, item, "before");
        push_context(&mut lines, item, "after");
        i = i + 1;
    }
    assert(items@.take(n as int) =~= items@);
    push_truncation_note(&mut lines, p, "… results truncated; narrow the query/path or raise max_results.");
    join_strings(&lines, "\n")
}

// ---------------------------------------------------------------------------
// Patches and commands

pub open spec fn patch_text(p: JsonValue) -> Seq<char> {
    let count: nat = match array_member(p, "affected_files"@) {
        Some(files) => files.len(),
        None => 0,
    };
    let text = "Patch "@ + (if bool_member(p, "dry_run"@) == Some(true) {
        "validated"@
    } else {
        "applied"@
    }) + " for "@ + decimal(count) + " file(s)."@;
    match non_empty(string_member(p, "summary"@)) {
        Some(summary) => text + "\n"@ + summary,
        None => text,
    }
}

pub fn render_patch(p: &JsonValue) -> (r: String)
    ensures
        r@ == patch_text(*p),
{
    let dry_run = bool_value(p, "dry_run") == Some(true);
    let count: usize = match array_value(p, "affected_files") {
        Some(files) => files.len(),
        None => 0,
    };
    let mut s = String::new();
    s.append("Patch ");
    if dry_run {
        s.append("validated");
    } else {
        s.append("applied");
    }
    s.append(" for ");
    push_decimal(&mut s, count as u128);
    s.append(" file(s).");
    assert(s@ =~= "Patch "@ + (if bool_member(*p, "dry_run"@) == Some(true) {
        "validated"@
    } else {
        "applied"@
    }) + " for "@ + decimal(match array_member(*p, "affected_files"@) {
        Some(files) => files.len(),
        None => 0,
    }) + " file(s)."@);
    let summary = str_or(string_value(p, "summary"), "");
    proof {
        reveal_strlit("");
    }
    if !summary.is_empty() {
        s.append("\n");
        s.append(summary);
    }
    s
}

/// Present when `o` holds something.
pub open spec fn line_if(o: Option<Seq<char>>) -> Seq<Seq<char>> {
    match o {
        Some(t) => seq![t],
        None => Seq::empty(),
    }
}

/// The status line of a command: status, then exit code, signal, time-out
/// and elapsed time when the payload has them.
pub open spec fn exec_header(p: JsonValue) -> Seq<Seq<char>> {
    seq!["Status: "@ + or_default(string_member(p, "status"@), "unknown"@)]
        + line_if(match spec_as_i64(spec_get(p, "exit_code"@)) {
            Some(code) => Some("exit code "@ + signed_decimal(code as int)),
            None => None,
        }) + line_if(match string_member(p, "signal"@) {
            Some(signal) => Some("signal "@ + signal),
            None => None,
        }) + line_if(if bool_member(p, "timed_out"@) == Some(true) {
            Some("timed out"@)
        } else {
            None
        }) + line_if(match u64_member(p, "elapsed_ms"@) {
            Some(ms) => Some(decimal(ms as nat) + " ms"@),
            None => None,
        })
}

/// Standard output and standard error, when not empty.
pub open spec fn exec_streams(p: JsonValue) -> Seq<Seq<char>> {
    line_if(non_empty(string_member(p, "stdout"@))) + line_if(
        match non_empty(string_member(p, "stderr"@)) {
            Some(err) => Some("stderr:\n"@ + err),
            None => None,
        },
    )
}

pub open spec fn exec_output_truncated(p: JsonValue) -> bool {
    bool_member(p, "truncated"@) == Some(true) || bool_member(p, "stdout_truncated"@) == Some(true)
        || bool_member(p, "stderr_truncated"@) == Some(true)
}

/// The sections of a command result: the status line; the output streams,
/// or the preview when there are none; a polling hint for a running session;
/// and a note when output was cut short.
pub open spec fn exec_sections(p: JsonValue) -> Seq<Seq<char>> {
    let base = seq![join(exec_header(p), " | "@)] + exec_streams(p);
    let with_preview = if exec_streams(p).len() == 0 {
        base + line_if(non_empty(string_member(p, "preview"@)))
    } else {
        base
    };
    let with_session = if string_member(p, "status"@) == Some("running"@) {
        with_preview + line_if(match string_member(p, "session_id"@) {
            Some(id) => Some(
                "Session still running; poll with write_stdin(session_id=\""@ + id
                    + "\", chars=\"\")."@,
            ),
            None => None,
        })
    } else {
        with_preview
    };
    if exec_output_truncated(p) {
        with_session + seq![
            "Output truncated; use read_output with the returned output_ref to read more."@,
        ]
    } else {
        with_session
    }
}

pub open spec fn exec_text(p: JsonValue) -> Seq<char> {
    join(exec_sections(p), "\n"@)
}

fn push_line(lines: &mut Vec<String>, s: String)
    ensures
        views(final(lines)@) == views(old(lines)@).push(s@),
{
    let ghost before = lines@;
    lines.push(s);
    assert(views(lines@) =~= views(before).push(s@));
}

fn exec_header_lines(p: &JsonValue) -> (r: Vec<String>)
    ensures
        views(r@) == exec_header(*p),
{
    let mut header: Vec<String> = Vec::new();
    let mut first = String::new();
    first.append("Status: ");
    first.append(str_or(string_value(p, "status"), "unknown"));
    push_line(&mut header, first);
    let ghost h0 = views(header@);
    let exit_code = match p.get("exit_code") {
        Some(v) => v.as_i64(),
        None => None,
    };
    if let Some(code) = exit_code {
        let mut t = String::new();
        t.append("exit code ");
        push_signed_decimal(&mut t, code);
        push_line(&mut header, t);
    }
    let ghost h1 = views(header@);
    assert(h1 =~= h0 + line_if(match spec_as_i64(spec_get(*p, "exit_code"@)) {
        Some(code) => Some("exit code "@ + signed_decimal(code as int)),
        None => None,
    }));
    if let Some(signal) = string_value(p, "signal") {
        let mut t = String::new();
        t.append("signal ");
        t.append(signal);
        push_line(&mut header, t);
    }
    let ghost h2 = views(header@);
    assert(h2 =~= h1 + line_if(match string_member(*p, "signal"@) {
        Some(signal) => Some("signal "@ + signal),
        None => None,
    }));
    if bool_value(p, "timed_out") == Some(true) {
        let mut t = String::new();
        t.append("timed out");
        push_line(&mut header, t);
    }
    let ghost h3 = views(header@);
    assert(h3 =~= h2 + line_if(if bool_member(*p, "timed_out"@) == Some(true) {
        Some("timed out"@)
    } else {
        None
    }));
    if let Some(ms) = u64_value(p, "elapsed_ms") {
        let mut t = String::new();
        push_decimal(&mut t, ms as u128);
        t.append(" ms");
        push_line(&mut header, t);
    }
    assert(views(header@) =~= h3 + line_if(match u64_member(*p, "elapsed_ms"@) {
        Some(ms) => Some(decimal(ms as nat) + " ms"@),
        None => None,
    }));
    header
}

fn push_exec_streams(sections: &mut Vec<String>, p: &JsonValue)
    ensures
        views(final(sections)@) == views(old(sections)@) + exec_streams(*p),
{
    let ghost s0 = views(sections@);
    if let Some(stdout) = string_value(p, "stdout") {
        if !stdout.is_empty() {
            let mut t = String::new();
            t.append(stdout);
            push_line(sections, t);
        }
    }
    let ghost s1 = views(sections@);
    assert(s1 =~= s0 + line_if(non_empty(string_member(*p, "stdout"@))));
    if let Some(stderr) = string_value(p, "stderr") {
        if !stderr.is_empty() {
            let mut t = String::new();
            t.append("stderr:\n");
            t.append(stderr);
            push_line(sections, t);
        }
    }
    assert(views(sections@) =~= s0 + exec_streams(*p));
}

fn push_session_hint(sections: &mut Vec<String>, p: &JsonValue)
    ensures
        views(final(sections)@) == if string_member(*p, "status"@) == Some("running"@) {
            views(old(sections)@) + line_if(match string_member(*p, "session_id"@) {
                Some(id) => Some(
                    "Session still running; poll with write_stdin(session_id=\""@ + id
                        + "\", chars=\"\")."@,
                ),
                None => None,
            })
        } else {
            views(old(sections)@)
        },
{
    let running = match p.get("status") {
        Some(v) => match v.as_str() {
            Some(st) => str_eq(st, "running"),
            None => false,
        },
        None => false,
    };
    if running {
        if let Some(id) = string_value(p, "session_id") {
            let mut t = String::new();
            t.append("Session still running; poll with write_stdin(session_id=\"");
            t.append(id);
            t.append("\", chars=\"\").");
            push_line(sections, t);
        }
    }
}

pub fn render_exec(p: &JsonValue) -> (r: String)
    ensures
        r@ == exec_text(*p),
{
    let header = exec_header_lines(p);
    let mut sections: Vec<String> = Vec::new();
    push_line(&mut sections, join_strings(&header, " | "));
    let ghost s0 = views(sections@);
    assert(s0 =~= seq![join(exec_header(*p), " | "@)]);
    push_exec_streams(&mut sections, p);
    let ghost s2 = views(sections@);
    if sections.len() == 1 {
        if let Some(preview) = string_value(p, "preview") {
            if !preview.is_empty() {
                let mut t = String::new();
                t.append(preview);
                push_line(&mut sections, t);
            }
        }
    }
    let ghost s3 = views(sections@);
    assert(s3 =~= if exec_streams(*p).len() == 0 {
        s2 + line_if(non_empty(string_member(*p, "preview"@)))
    } else {
        s2
    });
    push_session_hint(&mut sections, p);
    if bool_value(p, "truncated") == Some(true) || bool_value(p, "stdout_truncated") == Some(true)
        || bool_value(p, "stderr_truncated") == Some(true) {
        let mut t = String::new();
        t.append("Output truncated; use read_output with the returned output_ref to read more.");
        push_line(&mut sections, t);
    }
    assert(views(sections@) =~= exec_sections(*p));
    join_strings(&sections, "\n")
}

pub open spec fn read_output_text(p: JsonValue) -> Seq<char> {
    let content = match string_member(p, "content"@) {
        Some(c) => c,
        None => or_default(string_member(p, "stdout"@), ""@),
    };
    if spec_get(p, "next_offset"@) is Some {
        content + "\n[more output is available; continue with read_output using next_offset]"@
    } else {
        content
    }
}

pub fn render_read_output(p: &JsonValue) -> (r: String)
    ensures
        r@ == read_output_text(*p),
{
    let content = match string_value(p, "content") {
        Some(c) => c,
        None => str_or(string_value(p, "stdout"), ""),
    };
    let mut s = String::new();
    s.append(content);
    if p.get("next_offset").is_some() {
        s.append("\n[more output is available; continue with read_output using next_offset]");
    }
    s
}

// ---------------------------------------------------------------------------
// Git

/// Two status columns, a space and the path.
pub open spec fn status_entry_text(e: JsonValue) -> Seq<char> {
    or_default(string_member(e, "index_status"@), " "@) + or_default(
        string_member(e, "worktree_status"@),
        " "@,
    ) + " "@ + or_default(string_member(e, "path"@), ""@)
}

pub open spec fn status_entry_lines(p: JsonValue) -> Seq<Seq<char>> {
    match array_member(p, "entries"@) {
        Some(entries) => entries.map_values(|e: JsonValue| status_entry_text(e)) + if entries.len()
            == 0 {
            seq!["Working tree clean."@]
        } else {
            Seq::empty()
        },
        None => Seq::empty(),
    }
}

pub open spec fn git_status_text(p: JsonValue) -> Seq<char> {
    if bool_member(p, "is_repo"@) == Some(false) {
        "Not a Git repository."@
    } else {
        join(
            seq!["## "@ + or_default(string_member(p, "branch"@), "detached"@)]
                + status_entry_lines(p),
            "\n"@,
        )
    }
}

fn status_entry_line(e: &JsonValue) -> (r: String)
    ensures
        r@ == status_entry_text(*e),
{
    let mut s = String::new();
    s.append(str_or(string_value(e, "index_status"), " "));
    s.append(str_or(string_value(e, "worktree_status"), " "));
    s.append(" ");
    s.append(str_or(string_value(e, "path"), ""));
    s
}

pub fn render_git_status(p: &JsonValue) -> (r: String)
    ensures
        r@ == git_status_text(*p),
{
    if bool_value(p, "is_repo") == Some(false) {
        let mut s = String::new();
        s.append("Not a Git repository.");
        return s;
    }
    let mut lines: Vec<String> = Vec::new();
    let mut head = String::new();
    head.append("## ");
    head.append(str_or(string_value(p, "branch"), "detached"));
    push_line(&mut lines, head);
    let ghost start = views(lines@);
    assert(start =~= seq!["## "@ + or_default(string_member(*p, "branch"@), "detached"@)]);
    if let Some(entries) = array_value(p, "entries") {
        let n = entries.len();
        let mut i: usize = 0;
        while i < n
            invariant
                n == entries@.len(),
                i <= n,
                views(lines@) =~= start + entries@.take(i as int).map_values(
                    |e: JsonValue| status_entry_text(e),
                ),
            decreases n - i,
        {
            push_line(&mut lines, status_entry_line(&entries[i]));
            assert(entries@.take(i + 1).map_values(|e: JsonValue| status_entry_text(e))
                =~= entries@.take(i as int).map_values(|e: JsonValue| status_entry_text(e)).push(
                status_entry_text(entries@[i as int]),
            ));
            i = i + 1;
        }
        assert(entries@.take(n as int) =~= entries@);
        if n == 0 {
            let mut t = String::new();
            t.append("Working tree clean.");
            push_line(&mut lines, t);
        }
    }
    assert(views(lines@) =~= start + status_entry_lines(*p));
    join_strings(&lines, "\n")
}

pub open spec fn commit_text(c: JsonValue) -> Seq<char> {
    or_default(string_member(c, "short_hash"@), ""@) + " "@ + or_default(
        string_member(c, "subject"@),
        ""@,
    )
}

pub open spec fn git_log_text(p: JsonValue) -> Seq<char> {
    match array_member(p, "commits"@) {
        None => "No commits found."@,
        Some(commits) => if commits.len() == 0 {
            "No commits found."@
        } else {
            join(commits.map_values(|c: JsonValue| commit_text(c)), "\n"@)
        },
    }
}

fn commit_line(c: &JsonValue) -> (r: String)
    ensures
        r@ == commit_text(*c),
{
    let mut s = String::new();
    s.append(str_or(string_value(c, "short_hash"), ""));
    s.append(" ");
    s.append(str_or(string_value(c, "subject"), ""));
    s
}

pub fn render_git_log(p: &JsonValue) -> (r: String)
    ensures
        r@ == git_log_text(*p),
{
    let mut out = String::new();
    let commits = match array_value(p, "commits") {
        Some(c) => c,
        None => {
            out.append("No commits found.");
            return out;
        },
    };
    if commits.len() == 0 {
        out.append("No commits found.");
        return out;
    }
    let mut lines: Vec<String> = Vec::new();
    let n = commits.len();
    let mut i: usize = 0;
    while i < n
        invariant
            n == commits@.len(),
            i <= n,
            views(lines@) =~= commits@.take(i as int).map_values(|c: JsonValue| commit_text(c)),
        decreases n - i,
    {
        push_line(&mut lines, commit_line(&commits[i]));
        assert(commits@.take(i + 1).map_values(|c: JsonValue| commit_text(c))
            =~= commits@.take(i as int).map_values(|c: JsonValue| commit_text(c)).push(
            commit_text(commits@[i as int]),
        ));
        i = i + 1;
    }
    assert(commits@.take(n as int) =~= commits@);
    join_strings(&lines, "\n")
}

pub open spec fn blame_text(l: JsonValue) -> Seq<char> {
    scalar_text(spec_get(l, "line"@)) + " "@ + or_default(string_member(l, "commit"@), ""@) + " "@
        + or_default(string_member(l, "content"@), ""@)
}

pub open spec fn git_blame_text(p: JsonValue) -> Seq<char> {
    match array_member(p, "lines"@) {
        None => "No blame lines found."@,
        Some(lines) => join(lines.map_values(|l: JsonValue| blame_text(l)), "\n"@),
    }
}

fn blame_line(l: &JsonValue) -> (r: String)
    ensures
        r@ == blame_text(*l),
{
    let mut s = display_scalar(l.get("line"));
    s.append(" ");
    s.append(str_or(string_value(l, "commit"), ""));
    s.append(" ");
    s.append(str_or(string_value(l, "content"), ""));
    s
}

pub fn render_git_blame(p: &JsonValue) -> (r: String)
    ensures
        r@ == git_blame_text(*p),
{
    let items = match array_value(p, "lines") {
        Some(l) => l,
        None => {
            let mut out = String::new();
            out.append("No blame lines found.");
            return out;
        },
    };
    let mut lines: Vec<String> = Vec::new();
    let n = items.len();
    let mut i: usize = 0;
    while i < n
        invariant
            n == items@.len(),
            i <= n,
            views(lines@) =~= items@.take(i as int).map_values(|l: JsonValue| blame_text(l)),
        decreases n - i,
    {
        push_line(&mut lines, blame_line(&items[i]));
        assert(items@.take(i + 1).map_values(|l: JsonValue| blame_text(l))
            =~= items@.take(i as int).map_values(|l: JsonValue| blame_text(l)).push(
            blame_text(items@[i as int]),
        ));
        i = i + 1;
    }
    assert(items@.take(n as int) =~= items@);
    join_strings(&lines, "\n")
}

// ---------------------------------------------------------------------------
// The ceiling

broadcast use encode_utf8_decode_utf8, encode_utf8_valid_utf8;

/// The greatest character boundary of `bytes` at or below `i` (zero at worst).
pub open spec fn boundary_at_or_below(bytes: Seq<u8>, i: int) -> int
    decreases i,
{
    if i <= 0 {
        0
    } else if is_char_boundary(bytes, i) {
        i
    } else {
        boundary_at_or_below(bytes, i - 1)
    }
}

/// The notice that ends a text cut at the ceiling, naming the tool.
pub open spec fn ceiling_notice(tool: Seq<char>) -> Seq<char> {
    "\n… "@ + tool + " model text reached the "@ + decimal(MODEL_TEXT_SAFETY_LIMIT_BYTES as nat)
        + "-byte safety ceiling; retry with narrower paths or limits."@
}

/// The same notice without the tool's name, for names too long to fit.
pub open spec fn unnamed_ceiling_notice() -> Seq<char> {
    "\n… model text reached the "@ + decimal(MODEL_TEXT_SAFETY_LIMIT_BYTES as nat)
        + "-byte safety ceiling; retry with narrower paths or limits."@
}

/// Number of bytes of the UTF-8 encoding of `s`.
pub open spec fn utf8_len(s: Seq<char>) -> nat {
    encode_utf8(s).len()
}

/// The notice a cut text ends with: the one naming the tool when it fits in
/// the ceiling, else the one without the name.
pub open spec fn cut_notice(tool: Seq<char>) -> Seq<char> {
    if utf8_len(ceiling_notice(tool)) <= MODEL_TEXT_SAFETY_LIMIT_BYTES {
        ceiling_notice(tool)
    } else {
        unnamed_ceiling_notice()
    }
}

/// The byte offset at which a text too long for the ceiling is cut: room is
/// left for the notice, and the cut falls on a character boundary.
pub open spec fn cut_offset(value: Seq<char>, tool: Seq<char>) -> int {
    let bytes = encode_utf8(value);
    let room: int = MODEL_TEXT_SAFETY_LIMIT_BYTES - utf8_len(cut_notice(tool));
    let target: int = if room <= bytes.len() { room } else { bytes.len() as int };
    boundary_at_or_below(bytes, target)
}

/// A text within the ceiling unchanged; a longer one cut (see [`cut_offset`])
/// and followed by [`cut_notice`].
pub open spec fn bounded_text(value: Seq<char>, tool: Seq<char>) -> Seq<char> {
    if utf8_len(value) <= MODEL_TEXT_SAFETY_LIMIT_BYTES {
        value
    } else {
        decode_utf8(encode_utf8(value).subrange(0, cut_offset(value, tool))) + cut_notice(tool)
    }
}

/// A character takes at most four bytes in UTF-8.
pub proof fn lemma_utf8_len_at_most_four_per_char(s: Seq<char>)
    ensures
        utf8_len(s) <= 4 * s.len(),
    decreases s.len(),
{
    if s.len() > 0 {
        assert(encode_scalar(s[0] as u32).len() <= 4);
        lemma_utf8_len_at_most_four_per_char(s.drop_first());
    }
}

/// The notice without the tool's name fits in the ceiling.
pub proof fn lemma_unnamed_notice_fits()
    ensures
        utf8_len(unnamed_ceiling_notice()) <= MODEL_TEXT_SAFETY_LIMIT_BYTES,
{
    reveal_strlit("\n… model text reached the ");
    reveal_strlit("-byte safety ceiling; retry with narrower paths or limits.");
    assert(decimal(4) == seq!['4']);
    assert(decimal(40).len() == 2);
    assert(decimal(409).len() == 3);
    assert(decimal(4096).len() == 4);
    lemma_utf8_len_at_most_four_per_char(unnamed_ceiling_notice());
}

/// The notice a cut text ends with always fits in the ceiling.
pub proof fn lemma_cut_notice_fits(tool: Seq<char>)
    ensures
        utf8_len(cut_notice(tool)) <= MODEL_TEXT_SAFETY_LIMIT_BYTES,
{
    lemma_unnamed_notice_fits();
}

/// Keeps a tool's text within [`MODEL_TEXT_SAFETY_LIMIT_BYTES`].
pub fn bounded_model_text(value: &str, tool_name: &str) -> (r: String)
    ensures
        r@ == bounded_text(value@, tool_name@),
{
    let mut output = String::new();
    if byte_len(value) <= MODEL_TEXT_SAFETY_LIMIT_BYTES {
        output.append(value);
        assert(output@ =~= value@);
        return output;
    }
    let mut suffix = String::new();
    suffix.append("\n… ");
    suffix.append(tool_name);
    suffix.append(" model text reached the ");
    push_decimal(&mut suffix, MODEL_TEXT_SAFETY_LIMIT_BYTES as u128);
    suffix.append("-byte safety ceiling; retry with narrower paths or limits.");
    assert(suffix@ =~= ceiling_notice(tool_name@));
    if byte_len(suffix.as_str()) > MODEL_TEXT_SAFETY_LIMIT_BYTES {
        suffix = String::new();
        suffix.append("\n… model text reached the ");
        push_decimal(&mut suffix, MODEL_TEXT_SAFETY_LIMIT_BYTES as u128);
        suffix.append("-byte safety ceiling; retry with narrower paths or limits.");
        assert(suffix@ =~= unnamed_ceiling_notice());
    }
    assert(suffix@ == cut_notice(tool_name@));
    let suffix_str = suffix.as_str();
    let suffix_len = byte_len(suffix_str);
    proof {
        lemma_cut_notice_fits(tool_name@);
    }
    let mut end: usize = MODEL_TEXT_SAFETY_LIMIT_BYTES - suffix_len;
    let value_len = byte_len(value);
    if end > value_len {
        end = value_len;
    }
    let ghost bytes = value.spec_bytes();
    assert(bytes == encode_utf8(value@));
    assert(boundary_at_or_below(bytes, end as int) == cut_offset(value@, tool_name@));
    while end > 0 && !value.is_char_boundary(end)
        invariant
            bytes == value.spec_bytes(),
            valid_utf8(bytes),
            end <= bytes.len(),
            boundary_at_or_below(bytes, end as int) == cut_offset(value@, tool_name@),
        decreases end,
    {
        end = end - 1;
    }
    assert(is_char_boundary(bytes, 0));
    let (head, _) = value.split_at(end);
    assert(head@ == decode_utf8(encode_utf8(head@)));
    output.append(head);
    output.append(suffix_str);
    output
}

// ---------------------------------------------------------------------------
// Dispatch

/// Whether a payload reports failure through `"ok": false`.
pub open spec fn reports_failure(p: JsonValue) -> bool {
    bool_member(p, "ok"@) == Some(false)
}

/// The text for a tool's result before the ceiling applies: the error form
/// for failures, else the form that belongs to the tool, else the fallback.
pub open spec fn rendered_text(tool: Seq<char>, p: JsonValue, is_error: bool) -> Seq<char> {
    if is_error || reports_failure(p) {
        error_text(p)
    } else if tool == "server_info"@ {
        server_info_text(p)
    } else if tool == "history_session_bootstrap"@ {
        history_bootstrap_text(p)
    } else if tool == "history_session_checkpoint"@ {
        history_checkpoint_text(p)
    } else if tool == "history_session_validate"@ {
        history_validate_text(p)
    } else if tool == "history_session_search"@ {
        history_search_text(p, debug_text(history_search_query(p)))
    } else if tool == "history_session_read"@ {
        history_read_text(p)
    } else if tool == "check_exec_environment"@ {
        exec_environment_text(p)
    } else if tool == "get_default_cwd"@ || tool == "set_default_cwd"@ {
        cwd_text(p)
    } else if tool == "read_file"@ {
        read_file_text(p)
    } else if tool == "list_dir"@ || tool == "list_files"@ {
        list_text(p)
    } else if tool == "search_text"@ || tool == "grep_text"@ {
        search_text(p)
    } else if tool == "apply_patch"@ {
        patch_text(p)
    } else if tool == "exec_command"@ || tool == "write_stdin"@ {
        exec_text(p)
    } else if tool == "kill_session"@ {
        kill_text(p)
    } else if tool == "read_output"@ {
        read_output_text(p)
    } else if tool == "git_status"@ {
        git_status_text(p)
    } else if tool == "git_diff"@ {
        key_text(p, "diff"@, "No diff."@)
    } else if tool == "git_log"@ {
        git_log_text(p)
    } else if tool == "git_show"@ {
        key_text(p, "content"@, "No output."@)
    } else if tool == "git_blame"@ {
        git_blame_text(p)
    } else if tool == "request_permissions"@ {
        permission_text(p)
    } else if tool == "view_image"@ {
        image_text(p)
    } else {
        fallback_text(tool, p)
    }
}

/// The model-facing text of a tool's result.
pub open spec fn tool_text(tool: Seq<char>, p: JsonValue, is_error: bool) -> Seq<char> {
    bounded_text(rendered_text(tool, p, is_error), tool)
}

fn render_by_tool(tool_name: &str, p: &JsonValue, is_error: bool) -> (r: String)
    ensures
        r@ == rendered_text(tool_name@, *p, is_error),
{
    if is_error || bool_value(p, "ok") == Some(false) {
        render_error(p)
    } else if str_eq(tool_name, "server_info") {
        render_server_info(p)
    } else if str_eq(tool_name, "history_session_bootstrap") {
        render_history_bootstrap(p)
    } else if str_eq(tool_name, "history_session_checkpoint") {
        render_history_checkpoint(p)
    } else if str_eq(tool_name, "history_session_validate") {
        render_history_validate(p)
    } else if str_eq(tool_name, "history_session_search") {
        render_history_search(p)
    } else if str_eq(tool_name, "history_session_read") {
        render_history_read(p)
    } else if str_eq(tool_name, "check_exec_environment") {
        render_exec_environment(p)
    } else if str_eq(tool_name, "get_default_cwd") || str_eq(tool_name, "set_default_cwd") {
        render_cwd(p)
    } else if str_eq(tool_name, "read_file") {
        render_read_file(p)
    } else if str_eq(tool_name, "list_dir") || str_eq(tool_name, "list_files") {
        render_list(p)
    } else if str_eq(tool_name, "search_text") || str_eq(tool_name, "grep_text") {
        render_search(p)
    } else if str_eq(tool_name, "apply_patch") {
        render_patch(p)
    } else if str_eq(tool_name, "exec_command") || str_eq(tool_name, "write_stdin") {
        render_exec(p)
    } else if str_eq(tool_name, "kill_session") {
        render_kill(p)
    } else if str_eq(tool_name, "read_output") {
        render_read_output(p)
    } else if str_eq(tool_name, "git_status") {
        render_git_status(p)
    } else if str_eq(tool_name, "git_diff") {
        render_key(p, "diff", "No diff.")
    } else if str_eq(tool_name, "git_log") {
        render_git_log(p)
    } else if str_eq(tool_name, "git_show") {
        render_key(p, "content", "No output.")
    } else if str_eq(tool_name, "git_blame") {
        render_git_blame(p)
    } else if str_eq(tool_name, "request_permissions") {
        render_permission(p)
    } else if str_eq(tool_name, "view_image") {
        render_image(p)
    } else {
        render_fallback(tool_name, p)
    }
}

/// The model-facing text of a tool's result: the form that belongs to the
/// tool (or the error form), kept within the ceiling.
pub fn render_tool_text(tool_name: &str, payload: &JsonValue, is_error: bool) -> (r: String)
    ensures
        r@ == tool_text(tool_name@, *payload, is_error),
{
    let rendered = render_by_tool(tool_name, payload, is_error);
    bounded_model_text(rendered.as_str(), tool_name)
}

// ---------------------------------------------------------------------------
// Laws

/// The UTF-8 encoding of a concatenation is the concatenation of the encodings.
pub proof fn lemma_encode_utf8_concat(a: Seq<char>, b: Seq<char>)
    ensures
        encode_utf8(a + b) == encode_utf8(a) + encode_utf8(b),
    decreases a.len(),
{
    if a.len() == 0 {
        assert(a + b =~= b);
        assert(encode_utf8(a) + encode_utf8(b) =~= encode_utf8(b));
    } else {
        assert((a + b)[0] == a[0]);
        assert((a + b).drop_first() =~= a.drop_first() + b);
        lemma_encode_utf8_concat(a.drop_first(), b);
        assert(encode_utf8(a + b) =~= encode_utf8(a) + encode_utf8(b));
    }
}

/// [`boundary_at_or_below`] is a character boundary within `0..=i`.
pub proof fn lemma_boundary_at_or_below(bytes: Seq<u8>, i: int)
    requires
        valid_utf8(bytes),
        i <= bytes.len(),
    ensures
        0 <= boundary_at_or_below(bytes, i),
        i >= 0 ==> boundary_at_or_below(bytes, i) <= i,
        is_char_boundary(bytes, boundary_at_or_below(bytes, i)),
    decreases i,
{
    if i <= 0 {
    } else if is_char_boundary(bytes, i) {
    } else {
        lemma_boundary_at_or_below(bytes, i - 1);
    }
}

/// The kept part of a cut text: the first characters of the value, whose
/// encoding is the first `cut_offset` bytes of the value's encoding.
proof fn lemma_cut_part(value: Seq<char>, tool: Seq<char>)
    ensures
        0 <= cut_offset(value, tool) <= encode_utf8(value).len(),
        cut_offset(value, tool) <= MODEL_TEXT_SAFETY_LIMIT_BYTES - utf8_len(cut_notice(tool)),
        encode_utf8(decode_utf8(encode_utf8(value).subrange(0, cut_offset(value, tool))))
            == encode_utf8(value).subrange(0, cut_offset(value, tool)),
        value == decode_utf8(encode_utf8(value).subrange(0, cut_offset(value, tool)))
            + decode_utf8(encode_utf8(value).subrange(cut_offset(value, tool), encode_utf8(value).len() as int)),
{
    broadcast use decode_utf8_encode_utf8;

    lemma_cut_notice_fits(tool);
    let bytes = encode_utf8(value);
    let room: int = MODEL_TEXT_SAFETY_LIMIT_BYTES - utf8_len(cut_notice(tool));
    let target: int = if room <= bytes.len() { room } else { bytes.len() as int };
    lemma_boundary_at_or_below(bytes, target);
    let k = cut_offset(value, tool);
    valid_utf8_split(bytes, k);
    decode_utf8_split(bytes, k);
}

/// The ceiling: whatever the tool and payload, the text of a tool's result
/// takes at most [`MODEL_TEXT_SAFETY_LIMIT_BYTES`] bytes in UTF-8.
pub proof fn tool_text_within_ceiling(tool: Seq<char>, p: JsonValue, is_error: bool)
    ensures
        utf8_len(tool_text(tool, p, is_error)) <= MODEL_TEXT_SAFETY_LIMIT_BYTES,
{
    bounded_text_within_ceiling(rendered_text(tool, p, is_error), tool);
}

/// The ceiling for any text and any tool name (see [`tool_text_within_ceiling`]).
pub proof fn bounded_text_within_ceiling(value: Seq<char>, tool: Seq<char>)
    ensures
        utf8_len(bounded_text(value, tool)) <= MODEL_TEXT_SAFETY_LIMIT_BYTES,
{
    if utf8_len(value) > MODEL_TEXT_SAFETY_LIMIT_BYTES {
        let kept = decode_utf8(encode_utf8(value).subrange(0, cut_offset(value, tool)));
        lemma_cut_part(value, tool);
        lemma_encode_utf8_concat(kept, cut_notice(tool));
    }
}

/// A text within the ceiling passes unchanged; a longer one keeps a prefix of
/// its characters, followed by the notice.
pub proof fn bounded_text_keeps_a_prefix(value: Seq<char>, tool: Seq<char>)
    ensures
        utf8_len(value) <= MODEL_TEXT_SAFETY_LIMIT_BYTES ==> bounded_text(value, tool) == value,
        utf8_len(value) > MODEL_TEXT_SAFETY_LIMIT_BYTES ==> exists|k: int|
            0 <= k <= value.len() && bounded_text(value, tool) == value.subrange(0, k)
                + cut_notice(tool),
{
    if utf8_len(value) > MODEL_TEXT_SAFETY_LIMIT_BYTES {
        let bytes = encode_utf8(value);
        let k = cut_offset(value, tool);
        lemma_cut_part(value, tool);
        let kept = decode_utf8(bytes.subrange(0, k));
        assert(value.subrange(0, kept.len() as int) =~= kept);
        assert(bounded_text(value, tool) == value.subrange(0, kept.len() as int) + cut_notice(tool));
    }
}

/// An error flag, or `"ok": false`, gives the error form whatever the tool.
pub proof fn failures_render_as_errors(tool: Seq<char>, p: JsonValue, is_error: bool)
    requires
        is_error || reports_failure(p),
    ensures
        tool_text(tool, p, is_error) == bounded_text(error_text(p), tool),
{
}

/// The history bootstrap text shows only the session count, the current
/// handoff, the context mode and the state path: two payloads that agree on
/// these give the same text, whatever else they carry (a failure report
/// shows its error instead).
pub proof fn history_bootstrap_reads_only_its_fields(p1: JsonValue, p2: JsonValue, is_error: bool)
    requires
        !reports_failure(p1),
        !reports_failure(p2),
        spec_get(p1, "history_count"@) == spec_get(p2, "history_count"@),
        spec_get(p1, "current_path"@) == spec_get(p2, "current_path"@),
        spec_get(p1, "history_read_mode"@) == spec_get(p2, "history_read_mode"@),
        spec_get(p1, "project_state_path"@) == spec_get(p2, "project_state_path"@),
        !is_error,
    ensures
        tool_text("history_session_bootstrap"@, p1, is_error) == tool_text(
            "history_session_bootstrap"@,
            p2,
            is_error,
        ),
{
    assert("history_session_bootstrap"@ != "server_info"@) by {
        reveal_strlit("history_session_bootstrap");
        reveal_strlit("server_info");
        assert("history_session_bootstrap"@.len() != "server_info"@.len());
    }
}

/// A tool name whose first character starts none of the names before the
/// command tools is dispatched past them.
proof fn lemma_first_char_dispatch(tool: Seq<char>, p: JsonValue)
    requires
        tool == "exec_command"@ || tool == "write_stdin"@,
        !reports_failure(p),
    ensures
        rendered_text(tool, p, false) == exec_text(p),
{
    reveal_strlit("server_info");
    reveal_strlit("history_session_bootstrap");
    reveal_strlit("history_session_checkpoint");
    reveal_strlit("history_session_validate");
    reveal_strlit("history_session_search");
    reveal_strlit("history_session_read");
    reveal_strlit("check_exec_environment");
    reveal_strlit("get_default_cwd");
    reveal_strlit("set_default_cwd");
    reveal_strlit("read_file");
    reveal_strlit("list_dir");
    reveal_strlit("list_files");
    reveal_strlit("search_text");
    reveal_strlit("grep_text");
    reveal_strlit("apply_patch");
    reveal_strlit("exec_command");
    reveal_strlit("write_stdin");
    let c = tool[0];
    assert(c == 'e' || c == 'w');
    assert("server_info"@[0] == 's');
    assert("history_session_bootstrap"@[0] == 'h');
    assert("history_session_checkpoint"@[0] == 'h');
    assert("history_session_validate"@[0] == 'h');
    assert("history_session_search"@[0] == 'h');
    assert("history_session_read"@[0] == 'h');
    assert("check_exec_environment"@[0] == 'c');
    assert("get_default_cwd"@[0] == 'g');
    assert("set_default_cwd"@[0] == 's');
    assert("read_file"@[0] == 'r');
    assert("list_dir"@[0] == 'l');
    assert("list_files"@[0] == 'l');
    assert("search_text"@[0] == 's');
    assert("grep_text"@[0] == 'g');
    assert("apply_patch"@[0] == 'a');
}

/// The bootstrap text of a successful call names the current handoff (the
/// `current_path` string, else `unknown`) after `current handoff: `, the
/// read mode after `Context mode: `, and the canonical state (the
/// `project_state_path` string, else `not present`) after `canonical state: `,
/// in that order; it begins with the count of prior sessions.
pub proof fn bootstrap_names_handoff_then_state(p: JsonValue)
    requires
        !reports_failure(p),
    ensures
        ({
            let t = rendered_text("history_session_bootstrap"@, p, false);
            let handoff = match string_member(p, "current_path"@) {
                Some(c) => c,
                None => "unknown"@,
            };
            let mode = match string_member(p, "history_read_mode"@) {
                Some(m) => m,
                None => "compact"@,
            };
            let state = match string_member(p, "project_state_path"@) {
                Some(s) => s,
                None => "not present"@,
            };
            let count: nat = match u64_member(p, "history_count"@) {
                Some(n) => n as nat,
                None => 0,
            };
            t == "History initialized: "@ + decimal(count) + " prior session(s); current handoff: "@
                + handoff + ".\nContext mode: "@ + mode + "; canonical state: "@ + state
                + ". Older history is available on demand by path."@
        }),
{
    assert("history_session_bootstrap"@ != "server_info"@) by {
        reveal_strlit("history_session_bootstrap");
        reveal_strlit("server_info");
        assert("history_session_bootstrap"@.len() != "server_info"@.len());
    }
}

/// A command's text begins with its status line, and whenever `exit_code` is
/// an integer within `i64` (zero, positive or negative) the status is
/// directly followed by ` | exit code <N>` with `N` in signed decimal.
pub proof fn exec_status_line_shows_every_exit_code(tool: Seq<char>, p: JsonValue, code: i64)
    requires
        tool == "exec_command"@ || tool == "write_stdin"@,
        !reports_failure(p),
        spec_as_i64(spec_get(p, "exit_code"@)) == Some(code),
    ensures
        begins_with(
            rendered_text(tool, p, false),
            "Status: "@ + match string_member(p, "status"@) {
                Some(s) => s,
                None => "unknown"@,
            } + " | "@ + "exit code "@ + signed_decimal(code as int),
        ),
{
    lemma_first_char_dispatch(tool, p);
    assert(rendered_text(tool, p, false) == exec_text(p));
    let header = exec_header(p);
    let status = "Status: "@ + or_default(string_member(p, "status"@), "unknown"@);
    let exit_line = "exit code "@ + signed_decimal(code as int);
    assert(header[0] == status);
    assert(header[1] == exit_line);
    lemma_join_starts_with_first_two(header, " | "@);
    let r1 = choose|rest: Seq<char>| join(header, " | "@) == header[0] + " | "@ + header[1] + rest;
    let sections = exec_sections(p);
    assert(sections[0] == join(header, " | "@));
    lemma_join_starts_with_first(sections, "\n"@);
    let r2 = choose|rest: Seq<char>| join(sections, "\n"@) == sections[0] + rest;
    let front = status + " | "@ + exit_line;
    assert(front =~= "Status: "@ + or_default(string_member(p, "status"@), "unknown"@) + " | "@
        + "exit code "@ + signed_decimal(code as int));
    assert(rendered_text(tool, p, false) =~= front + (r1 + r2));
    assert((front + (r1 + r2)).subrange(0, front.len() as int) =~= front);
}

proof fn lemma_list_dispatch(tool: Seq<char>, p: JsonValue)
    requires
        tool == "list_dir"@ || tool == "list_files"@,
        !reports_failure(p),
    ensures
        rendered_text(tool, p, false) == list_text(p),
{
    reveal_strlit("server_info");
    reveal_strlit("history_session_bootstrap");
    reveal_strlit("history_session_checkpoint");
    reveal_strlit("history_session_validate");
    reveal_strlit("history_session_search");
    reveal_strlit("history_session_read");
    reveal_strlit("check_exec_environment");
    reveal_strlit("get_default_cwd");
    reveal_strlit("set_default_cwd");
    reveal_strlit("read_file");
    reveal_strlit("list_dir");
    reveal_strlit("list_files");
    assert(tool[0] == 'l');
    assert("server_info"@[0] == 's');
    assert("history_session_bootstrap"@[0] == 'h');
    assert("history_session_checkpoint"@[0] == 'h');
    assert("history_session_validate"@[0] == 'h');
    assert("history_session_search"@[0] == 'h');
    assert("history_session_read"@[0] == 'h');
    assert("check_exec_environment"@[0] == 'c');
    assert("get_default_cwd"@[0] == 'g');
    assert("set_default_cwd"@[0] == 's');
    assert("read_file"@[0] == 'r');
}

proof fn lemma_search_dispatch(tool: Seq<char>, p: JsonValue)
    requires
        tool == "search_text"@ || tool == "grep_text"@,
        !reports_failure(p),
    ensures
        rendered_text(tool, p, false) == search_text(p),
{
    reveal_strlit("server_info");
    reveal_strlit("history_session_bootstrap");
    reveal_strlit("history_session_checkpoint");
    reveal_strlit("history_session_validate");
    reveal_strlit("history_session_search");
    reveal_strlit("history_session_read");
    reveal_strlit("check_exec_environment");
    reveal_strlit("get_default_cwd");
    reveal_strlit("set_default_cwd");
    reveal_strlit("read_file");
    reveal_strlit("list_dir");
    reveal_strlit("list_files");
    reveal_strlit("search_text");
    reveal_strlit("grep_text");
    assert(tool[0] == 's' || tool[0] == 'g');
    assert(tool.len() == 11 || tool.len() == 9);
    assert(tool.len() == 11 ==> tool[2] == 'a');
    assert("server_info"@[2] == 'r');
    assert("history_session_bootstrap"@[0] == 'h');
    assert("history_session_checkpoint"@[0] == 'h');
    assert("history_session_validate"@[0] == 'h');
    assert("history_session_search"@[0] == 'h');
    assert("history_session_read"@[0] == 'h');
    assert("check_exec_environment"@[0] == 'c');
    assert("get_default_cwd"@.len() == 15);
    assert("set_default_cwd"@.len() == 15);
    assert("read_file"@[0] == 'r');
    assert("list_dir"@[0] == 'l');
    assert("list_files"@[0] == 'l');
}

/// In a listing, each entry's line begins with the entry's `path` when that
/// is a string, and only otherwise with its `name`; the lines stand in the
/// order of the entries.
pub proof fn listing_shows_path_before_name(tool: Seq<char>, p: JsonValue, entries: Seq<JsonValue>)
    requires
        tool == "list_dir"@ || tool == "list_files"@,
        !reports_failure(p),
        list_entries(p) == Some(entries),
        entries.len() > 0,
    ensures
        exists|lines: Seq<Seq<char>>|
            #![trigger join(lines, "\n"@)]
            rendered_text(tool, p, false) == join(lines, "\n"@) && lines.len() >= entries.len()
                && forall|i: int|
                0 <= i < entries.len() ==> match string_member(#[trigger] entries[i], "path"@) {
                    Some(path) => begins_with(lines[i], path),
                    None => match string_member(entries[i], "name"@) {
                        Some(name) => begins_with(lines[i], name),
                        None => true,
                    },
                },
{
    lemma_list_dispatch(tool, p);
    let lines = entries.map_values(|e: JsonValue| list_entry_text(e)) + truncation_note(
        p,
        "… results truncated; narrow the path/patterns or raise the entry limit."@,
    );
    assert forall|i: int| 0 <= i < entries.len() implies match string_member(
        #[trigger] entries[i],
        "path"@,
    ) {
        Some(path) => begins_with(lines[i], path),
        None => match string_member(entries[i], "name"@) {
            Some(name) => begins_with(lines[i], name),
            None => true,
        },
    } by {
        let e = entries[i];
        assert(lines[i] == list_entry_text(e));
        let path = match string_member(e, "path"@) {
            Some(x) => x,
            None => or_default(string_member(e, "name"@), ""@),
        };
        let tail = match string_member(e, "type"@) {
            Some(kind) => " ["@ + kind + "]"@,
            None => Seq::empty(),
        };
        assert(list_entry_text(e) =~= path + tail);
        assert((path + tail).subrange(0, path.len() as int) =~= path);
    }
    assert(rendered_text(tool, p, false) == join(lines, "\n"@));
}

/// The context lines of all-string context items: each item indented by
/// two spaces, in order.
proof fn lemma_context_lines_in_order(ctx: Seq<JsonValue>)
    requires
        forall|j: int| 0 <= j < ctx.len() ==> (#[trigger] spec_as_str(Some(ctx[j]))) is Some,
    ensures
        context_lines(ctx) == Seq::new(ctx.len(), |j: int| "  "@ + spec_as_str(Some(ctx[j]))->0),
    decreases ctx.len(),
{
    if ctx.len() > 0 {
        let front = ctx.drop_last();
        assert forall|j: int| 0 <= j < front.len() implies (#[trigger] spec_as_str(Some(front[j]))) is Some by {
            assert(front[j] == ctx[j]);
            assert(spec_as_str(Some(ctx[j])) is Some);
        }
        lemma_context_lines_in_order(front);
        assert(spec_as_str(Some(ctx[ctx.len() - 1])) is Some);
        assert(context_lines(ctx) =~= Seq::new(ctx.len(), |j: int| "  "@ + spec_as_str(Some(ctx[j]))->0));
    }
}

/// The text of a search with one match: the match's line, then one line per
/// string of its `before` context in array order, then one per string of its
/// `after` context in array order, each indented by two spaces.
pub proof fn search_context_follows_in_order(
    tool: Seq<char>,
    p: JsonValue,
    item: JsonValue,
    before: Seq<JsonValue>,
    after: Seq<JsonValue>,
)
    requires
        tool == "search_text"@ || tool == "grep_text"@,
        !reports_failure(p),
        array_member(p, "matches"@) == Some(seq![item]),
        bool_member(p, "truncated"@) != Some(true),
        array_member(item, "before"@) == Some(before),
        array_member(item, "after"@) == Some(after),
        forall|j: int| 0 <= j < before.len() ==> (#[trigger] spec_as_str(Some(before[j]))) is Some,
        forall|j: int| 0 <= j < after.len() ==> (#[trigger] spec_as_str(Some(after[j]))) is Some,
    ensures
        exists|head: Seq<char>|
            #![trigger seq![head]]
            rendered_text(tool, p, false) == join(
                seq![head] + Seq::new(
                    before.len(),
                    |j: int| "  "@ + spec_as_str(Some(before[j]))->0,
                ) + Seq::new(after.len(), |j: int| "  "@ + spec_as_str(Some(after[j]))->0),
                "\n"@,
            ),
{
    lemma_search_dispatch(tool, p);
    lemma_context_lines_in_order(before);
    lemma_context_lines_in_order(after);
    let items = seq![item];
    assert(items.drop_last() =~= Seq::<JsonValue>::empty());
    assert(all_match_lines(items) == all_match_lines(items.drop_last()) + match_lines(item));
    assert(all_match_lines(Seq::<JsonValue>::empty()) == Seq::<Seq<char>>::empty());
    let head = match_location(item) + ": "@ + or_default(string_member(item, "preview"@), ""@);
    let lines = seq![head] + Seq::new(
        before.len(),
        |j: int| "  "@ + spec_as_str(Some(before[j]))->0,
    ) + Seq::new(after.len(), |j: int| "  "@ + spec_as_str(Some(after[j]))->0);
    assert(all_match_lines(items) + truncation_note(
        p,
        "… results truncated; narrow the query/path or raise max_results."@,
    ) =~= lines);
    assert(rendered_text(tool, p, false) == join(lines, "\n"@));
}

} // verus!
