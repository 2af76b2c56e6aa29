use vstd::prelude::*;
use crate::text::{chars_of, decimal, push_decimal};

verus! {

/// Where, under a workspace, the scratch directories live.
pub const SCRATCH_RELATIVE_ROOT: &'static str = ".coding-tools/scratch";

/// Age, in seconds, from which a scratch entry is stale (48 hours).
pub const SCRATCH_TTL_SECS: u64 = 48 * 60 * 60;

/// A session's scratch directory: its path and whether it was created.
pub struct ScratchDir {
    path: String,
    available: bool,
}

/// What a [`ScratchDir`] records.
pub ghost struct ScratchDirView {
    pub path: Seq<char>,
    pub created: bool,
}

impl View for ScratchDir {
    type V = ScratchDirView;

    closed spec fn view(&self) -> ScratchDirView {
        ScratchDirView { path: self.path@, created: self.available }
    }
}

/// `Path::is_dir` on `path`: whether a directory is there now.  Nothing is
/// claimed of the answer, which depends on the file system.
#[verifier::external_body]
fn directory_exists(path: &str) -> bool {
    std::path::Path::new(path).is_dir()
}

impl ScratchDir {
    /// A scratch directory at `path`; `available` says whether it was created.
    pub fn new(path: String, available: bool) -> (r: ScratchDir)
        ensures
            r@.path == path@,
            r@.created == available,
    {
        ScratchDir { path, available }
    }

    /// The directory's path.
    pub fn path(&self) -> (r: &str)
        ensures
            r@ == self@.path,
    {
        self.path.as_str()
    }

    /// Whether the directory can be used, given whether it exists now: it
    /// must have been created and still be there.
    pub fn available_given(&self, directory_exists: bool) -> (r: bool)
        ensures
            r == (self@.created && directory_exists),
    {
        self.available && directory_exists
    }

    /// Whether the directory was created and is still a directory.
    pub fn available(&self) -> (r: bool)
        ensures
            r ==> self@.created,
    {
        self.available && self.available_given(directory_exists(self.path.as_str()))
    }
}

/// Name of a session's scratch directory: `session-<pid>-<milliseconds>`.
pub open spec fn session_dir_text(pid: nat, now_ms: nat) -> Seq<char> {
    "session-"@ + decimal(pid) + "-"@ + decimal(now_ms)
}

/// The name of the scratch directory of process `pid` started at `now_ms`
/// milliseconds after the Unix epoch.
pub fn session_dir_name(pid: u32, now_ms: u128) -> (r: String)
    ensures
        r@ == session_dir_text(pid as nat, now_ms as nat),
{
    let mut s = String::new();
    s.append("session-");
    push_decimal(&mut s, pid as u128);
    s.append("-");
    push_decimal(&mut s, now_ms);
    s
}

/// What clean-up does with an entry of the scratch root.
#[derive(Debug, Clone, Copy, PartialEq, Eq, Structural)]
pub enum StaleEntryAction {
    Keep,
    RemoveFile,
    RemoveDirAll,
}

pub open spec fn stale_entry_policy(age_secs: u64, is_symlink: bool, is_file: bool, is_dir: bool) -> StaleEntryAction {
    if age_secs < SCRATCH_TTL_SECS {
        StaleEntryAction::Keep
    } else if is_symlink || is_file {
        StaleEntryAction::RemoveFile
    } else if is_dir {
        StaleEntryAction::RemoveDirAll
    } else {
        StaleEntryAction::Keep
    }
}

/// What to do with an entry last modified `age_secs` whole seconds ago:
/// younger than the time to live it stays; a link or file is removed; a
/// directory is removed with its contents.
pub fn stale_entry_action(age_secs: u64, is_symlink: bool, is_file: bool, is_dir: bool) -> (a: StaleEntryAction)
    ensures
        a == stale_entry_policy(age_secs, is_symlink, is_file, is_dir),
{
    if age_secs < SCRATCH_TTL_SECS {
        StaleEntryAction::Keep
    } else if is_symlink || is_file {
        StaleEntryAction::RemoveFile
    } else if is_dir {
        StaleEntryAction::RemoveDirAll
    } else {
        StaleEntryAction::Keep
    }
}

// ---------------------------------------------------------------------------
// Transient helper scripts

/// `s` with every backslash turned into a slash.
pub open spec fn with_forward_slashes(s: Seq<char>) -> Seq<char> {
    s.map_values(|c: char| if c == '\\' { '/' } else { c })
}

/// ASCII lower case of one character; other characters are unchanged.
pub open spec fn ascii_lower(c: char) -> char {
    if 'A' <= c && c <= 'Z' {
        ((c as u32) + 32) as char
    } else {
        c
    }
}

pub open spec fn ascii_lowercase(s: Seq<char>) -> Seq<char> {
    s.map_values(|c: char| ascii_lower(c))
}

pub open spec fn has_prefix(s: Seq<char>, t: Seq<char>) -> bool {
    t.len() <= s.len() && s.subrange(0, t.len() as int) == t
}

pub open spec fn has_suffix(s: Seq<char>, t: Seq<char>) -> bool {
    t.len() <= s.len() && s.subrange(s.len() - t.len(), s.len() as int) == t
}

pub open spec fn occurs_at(s: Seq<char>, t: Seq<char>, i: int) -> bool {
    0 <= i && i + t.len() <= s.len() && s.subrange(i, i + t.len()) == t
}

pub open spec fn has_infix(s: Seq<char>, t: Seq<char>) -> bool {
    exists|i: int| occurs_at(s, t, i)
}

/// A script's extension: `.py`, `.js`, `.ts`, `.sh` or `.ps1`.
pub open spec fn script_like(lower: Seq<char>) -> bool {
    has_suffix(lower, ".py"@) || has_suffix(lower, ".js"@) || has_suffix(lower, ".ts"@)
        || has_suffix(lower, ".sh"@) || has_suffix(lower, ".ps1"@)
}

/// A name that marks a throw-away helper.
pub open spec fn transient_name(lower: Seq<char>) -> bool {
    has_prefix(lower, "tmp_"@) || has_prefix(lower, "temp_"@) || has_prefix(lower, "debug_"@)
        || has_prefix(lower, "inspect_"@) || has_prefix(lower, "scratch_"@) || has_infix(
        lower,
        "_probe."@,
    )
}

/// A bare file name (no slash or backslash) of a script whose name, in ASCII
/// lower case, marks a throw-away helper.
pub open spec fn is_transient_root_helper(path: Seq<char>) -> bool {
    let normalized = with_forward_slashes(path);
    if normalized.contains('/') {
        false
    } else {
        let lower = ascii_lowercase(normalized);
        script_like(lower) && transient_name(lower)
    }
}

fn forward_slashes(v: &Vec<char>) -> (r: Vec<char>)
    ensures
        r@ == with_forward_slashes(v@),
{
    let mut r: Vec<char> = Vec::new();
    let n = v.len();
    let mut i: usize = 0;
    while i < n
        invariant
            n == v@.len(),
            i <= n,
            r@ == with_forward_slashes(v@.subrange(0, i as int)),
        decreases n - i,
    {
        let c = v[i];
        if c == '\\' {
            r.push('/');
        } else {
            r.push(c);
        }
        assert(with_forward_slashes(v@.subrange(0, i + 1)) =~= with_forward_slashes(
            v@.subrange(0, i as int),
        ).push(if c == '\\' { '/' } else { c }));
        i = i + 1;
    }
    assert(v@.subrange(0, n as int) =~= v@);
    r
}

fn lower_char(c: char) -> (r: char)
    ensures
        r == ascii_lower(c),
{
    if 'A' <= c && c <= 'Z' {
        let u: u32 = c as u32;
        let b: u8 = u as u8;
        assert(b as u32 == u) by (bit_vector)
            requires
                b == u as u8,
                u <= 90,
        ;
        (b + 32) as char
    } else {
        c
    }
}

fn lowercase_chars(v: &Vec<char>) -> (r: Vec<char>)
    ensures
        r@ == ascii_lowercase(v@),
{
    let mut r: Vec<char> = Vec::new();
    let n = v.len();
    let mut i: usize = 0;
    while i < n
        invariant
            n == v@.len(),
            i <= n,
            r@ == ascii_lowercase(v@.subrange(0, i as int)),
        decreases n - i,
    {
        let c = lower_char(v[i]);
        r.push(c);
        assert(ascii_lowercase(v@.subrange(0, i + 1)) =~= ascii_lowercase(v@.subrange(0, i as int)).push(c));
        i = i + 1;
    }
    assert(v@.subrange(0, n as int) =~= v@);
    r
}

fn contains_char(v: &Vec<char>, c: char) -> (r: bool)
    ensures
        r == v@.contains(c),
{
    let n = v.len();
    let mut i: usize = 0;
    while i < n
        invariant
            n == v@.len(),
            i <= n,
            forall|j: int| 0 <= j < i ==> v@[j] != c,
        decreases n - i,
    {
        if v[i] == c {
            assert(v@[i as int] == c);
            return true;
        }
        i = i + 1;
    }
    false
}

fn matches_at(s: &Vec<char>, t: &Vec<char>, i: usize) -> (r: bool)
    ensures
        r == occurs_at(s@, t@, i as int),
{
    if i > s.len() || t.len() > s.len() - i {
        return false;
    }
    let m = t.len();
    let mut k: usize = 0;
    while k < m
        invariant
            m == t@.len(),
            i + m <= s@.len(),
            s@.len() <= usize::MAX,
            k <= m,
            forall|j: int| 0 <= j < k ==> s@[i + j] == t@[j],
        decreases m - k,
    {
        if s[i + k] != t[k] {
            assert(s@.subrange(i as int, i + m)[k as int] != t@[k as int]);
            return false;
        }
        k = k + 1;
    }
    assert(s@.subrange(i as int, i + m) =~= t@);
    true
}

fn starts_with(s: &Vec<char>, t: &str) -> (r: bool)
    ensures
        r == has_prefix(s@, t@),
{
    let tc = chars_of(t);
    matches_at(s, &tc, 0)
}

fn ends_with(s: &Vec<char>, t: &str) -> (r: bool)
    ensures
        r == has_suffix(s@, t@),
{
    let tc = chars_of(t);
    if tc.len() > s.len() {
        return false;
    }
    matches_at(s, &tc, s.len() - tc.len())
}

fn contains_text(s: &Vec<char>, t: &str) -> (r: bool)
    ensures
        r == has_infix(s@, t@),
{
    let tc = chars_of(t);
    let n = s.len();
    let mut i: usize = 0;
    while i < n
        invariant
            n == s@.len(),
            tc@ == t@,
            i <= n,
            forall|j: int| 0 <= j < i ==> !occurs_at(s@, t@, j),
        decreases n - i,
    {
        if matches_at(s, &tc, i) {
            return true;
        }
        i = i + 1;
    }
    if matches_at(s, &tc, n) {
        return true;
    }
    assert forall|j: int| !occurs_at(s@, t@, j) by {
        if 0 <= j && j < n {
        }
    }
    false
}

/// Whether `path` is a bare script file name that looks like a throw-away
/// helper (`tmp_`, `temp_`, `debug_`, `inspect_`, `scratch_` prefixes or a
/// `_probe.` part, in any ASCII case).
pub fn looks_like_transient_root_helper(path: &str) -> (r: bool)
    ensures
        r == is_transient_root_helper(path@),
{
    let chars = chars_of(path);
    let normalized = forward_slashes(&chars);
    if contains_char(&normalized, '/') {
        return false;
    }
    let lower = lowercase_chars(&normalized);
    let script = ends_with(&lower, ".py") || ends_with(&lower, ".js") || ends_with(&lower, ".ts")
        || ends_with(&lower, ".sh") || ends_with(&lower, ".ps1");
    if !script {
        return false;
    }
    starts_with(&lower, "tmp_") || starts_with(&lower, "temp_") || starts_with(&lower, "debug_")
        || starts_with(&lower, "inspect_") || starts_with(&lower, "scratch_") || contains_text(
        &lower,
        "_probe.",
    )
}

/// A path with a slash or a backslash in it is never taken for a transient
/// helper: only bare names at the workspace root are.
pub proof fn paths_with_separators_are_not_transient(path: Seq<char>)
    requires
        path.contains('/') || path.contains('\\'),
    ensures
        !is_transient_root_helper(path),
{
    let n = with_forward_slashes(path);
    let i = choose|i: int| 0 <= i < path.len() && (path[i] == '/' || path[i] == '\\');
    assert(n[i] == '/');
}

/// The check ignores ASCII case: a path and its ASCII lower case are judged alike.
pub proof fn transient_check_ignores_ascii_case(path: Seq<char>)
    ensures
        is_transient_root_helper(path) == is_transient_root_helper(ascii_lowercase(path)),
{
    let n1 = with_forward_slashes(path);
    let n2 = with_forward_slashes(ascii_lowercase(path));
    assert(n2 =~= ascii_lowercase(n1));
    assert(ascii_lowercase(n2) =~= ascii_lowercase(n1));
    if n1.contains('/') {
        let i = choose|i: int| 0 <= i < n1.len() && n1[i] == '/';
        assert(n2[i] == '/');
    }
    if n2.contains('/') {
        let i = choose|i: int| 0 <= i < n2.len() && n2[i] == '/';
        assert(n1[i] == '/');
    }
}

/// A path is taken for a transient helper exactly when it holds no slash
/// and no backslash, and its ASCII lower case ends in `.py`, `.js`, `.ts`,
/// `.sh` or `.ps1` and starts with `tmp_`, `temp_`, `debug_`, `inspect_` or
/// `scratch_`, or contains `_probe.`.
pub proof fn transient_helpers_are_exactly_these(path: Seq<char>)
    ensures
        is_transient_root_helper(path) <==> ({
            let lower = ascii_lowercase(path);
            &&& !path.contains('/')
            &&& !path.contains('\\')
            &&& (has_suffix(lower, ".py"@) || has_suffix(lower, ".js"@) || has_suffix(lower, ".ts"@)
                || has_suffix(lower, ".sh"@) || has_suffix(lower, ".ps1"@))
            &&& (has_prefix(lower, "tmp_"@) || has_prefix(lower, "temp_"@) || has_prefix(
                lower,
                "debug_"@,
            ) || has_prefix(lower, "inspect_"@) || has_prefix(lower, "scratch_"@) || has_infix(
                lower,
                "_probe."@,
            ))
        }),
{
    let n = with_forward_slashes(path);
    if path.contains('/') || path.contains('\\') {
        paths_with_separators_are_not_transient(path);
    } else {
        assert(n =~= path);
    }
}

} // verus!
