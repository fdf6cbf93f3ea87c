//! The `find` tool: files matching a glob, found with `fd`, shown relative
//! to the searched directory under limits on results and bytes. Running
//! `fd` and reading the root `.gitignore` happen in the caller; the library
//! shapes the pattern and the command, judges the `.gitignore`, and lays
//! the result out.

use vstd::prelude::*;

use crate::grep::rel_path;
use crate::jail::{push_string, strs, CommandSpec};
use crate::text::{
    chars_of, contains_char, decimal, decimal_string, has_prefix, lines, lines_of, owned,
    push_str, str_is, string_from_chars, trim, trim_bounds, utf8_size,
};
use crate::tool::{json_str_member, json_string_member, Sandbox, ToolDefinition, ToolResult};
use crate::truncate::{format_size, format_size_spec};

verus! {

/// Results returned at most, by default.
pub const DEFAULT_RESULT_LIMIT: usize = 1000;

/// The largest limit that may be asked for.
pub const MAX_RESULT_LIMIT: usize = 100000;

/// The output is cut at this many bytes.
pub const MAX_OUTPUT_BYTES: usize = 51200;

// ---------------------------------------------------------------------------
// Patterns
// ---------------------------------------------------------------------------

/// Whether a glob names a path segment (holds a `/`).
pub fn pattern_has_path_segment(pattern: &str) -> (r: bool)
    ensures
        r == pattern@.contains('/'),
{
    let cs = chars_of(pattern);
    contains_char(cs.as_slice(), '/')
}

/// A glob made to match full paths: unchanged without a `/`; otherwise
/// without a leading `./` (or else `/`), and anchored with `**/` unless it
/// already starts with `**`.
pub open spec fn full_path_pattern(p: Seq<char>) -> Seq<char> {
    if !p.contains('/') {
        p
    } else {
        let q = if has_prefix(p, "./"@) {
            p.skip(2)
        } else if has_prefix(p, "/"@) {
            p.skip(1)
        } else {
            p
        };
        if has_prefix(q, "**"@) {
            q
        } else {
            "**/"@ + q
        }
    }
}

/// The glob for `fd --full-path` (see `full_path_pattern`).
pub fn build_full_path_pattern(pattern: &str) -> (r: String)
    ensures
        r@ == full_path_pattern(pattern@),
{
    if !pattern_has_path_segment(pattern) {
        return owned(pattern);
    }
    let cs = chars_of(pattern);
    let dot = chars_of("./");
    let slash = chars_of("/");
    let star = chars_of("**");
    proof {
        reveal_strlit("./");
        reveal_strlit("/");
        reveal_strlit("**");
    }
    let from: usize = if crate::text::starts_with(cs.as_slice(), dot.as_slice()) {
        2
    } else if crate::text::starts_with(cs.as_slice(), slash.as_slice()) {
        1
    } else {
        0
    };
    let rest = string_from_chars(&cs.as_slice()[from..cs.len()]);
    assert(rest@ =~= pattern@.skip(from as int));
    assert(pattern@.skip(0) =~= pattern@);
    let rc = chars_of(rest.as_str());
    if crate::text::starts_with(rc.as_slice(), star.as_slice()) {
        return rest;
    }
    let mut out = owned("**/");
    push_str(&mut out, rest.as_str());
    out
}

/// The arguments `fd` runs with: glob matching, no colour, hidden files,
/// at most `limit` results, full paths for a path-segment glob, each
/// ignore file, then the glob and the directory after `--`.
pub open spec fn fd_args(pattern: Seq<char>, search_dir: Seq<char>, limit: nat, ignore_files: Seq<
    Seq<char>,
>) -> Seq<Seq<char>> {
    seq!["--glob"@, "--color=never"@, "--hidden"@, "--max-results"@, decimal(limit)] + (if pattern.contains(
        '/',
    ) {
        seq!["--full-path"@]
    } else {
        seq![]
    }) + ignore_pairs(ignore_files) + seq!["--"@, full_path_pattern(pattern), search_dir]
}

/// `--ignore-file f` for each file.
pub open spec fn ignore_pairs(fs: Seq<Seq<char>>) -> Seq<Seq<char>>
    decreases fs.len(),
{
    if fs.len() == 0 {
        seq![]
    } else {
        ignore_pairs(fs.drop_last()) + seq!["--ignore-file"@, fs.last()]
    }
}

/// The `fd` command for a search, run in the workspace.
pub fn build_fd_command(
    fd_cmd: &str,
    workspace: &str,
    pattern: &str,
    search_dir: &str,
    limit: usize,
    ignore_files: &Vec<String>,
) -> (r: CommandSpec)
    ensures
        r.program@ == fd_cmd@,
        r.current_dir@ == workspace@,
        strs(r.args@) == fd_args(pattern@, search_dir@, limit as nat, strs(ignore_files@)),
        r.env@.len() == 0,
{
    let mut args: Vec<String> = Vec::new();
    push_string(&mut args, owned("--glob"));
    push_string(&mut args, owned("--color=never"));
    push_string(&mut args, owned("--hidden"));
    push_string(&mut args, owned("--max-results"));
    push_string(&mut args, decimal_string(limit as u64));
    let full = pattern_has_path_segment(pattern);
    if full {
        push_string(&mut args, owned("--full-path"));
    }
    let ghost base = strs(args@);
    let ghost fv = strs(ignore_files@);
    let mut i: usize = 0;
    while i < ignore_files.len()
        invariant
            i <= ignore_files@.len(),
            fv == strs(ignore_files@),
            strs(args@) == base + ignore_pairs(fv.take(i as int)),
        decreases ignore_files.len() - i,
    {
        assert(fv.take(i as int + 1).drop_last() =~= fv.take(i as int));
        push_string(&mut args, owned("--ignore-file"));
        push_string(&mut args, ignore_files[i].clone());
        assert(strs(args@) =~= base + ignore_pairs(fv.take(i as int + 1)));
        i = i + 1;
    }
    assert(fv.take(ignore_files@.len() as int) =~= fv);
    push_string(&mut args, owned("--"));
    push_string(&mut args, build_full_path_pattern(pattern));
    push_string(&mut args, owned(search_dir));
    assert(strs(args@) =~= fd_args(pattern@, search_dir@, limit as nat, fv));
    CommandSpec { program: owned(fd_cmd), args, current_dir: owned(workspace), env: Vec::new() }
}

// ---------------------------------------------------------------------------
// The root .gitignore
// ---------------------------------------------------------------------------

/// A rule that ignores everything.
pub open spec fn catch_all_rule(t: Seq<char>) -> bool {
    t == "*"@ || t == "**"@ || t == "**/"@ || t == "**/*"@
}

/// The state of reading a `.gitignore` line by line: `Some(seen)` while
/// only blank lines, comments, negations and catch-all rules were met
/// (`seen`: a catch-all rule was), `None` once a real rule was.
pub open spec fn gitignore_scan(ls: Seq<Seq<char>>) -> Option<bool>
    decreases ls.len(),
{
    if ls.len() == 0 {
        Some(false)
    } else {
        match gitignore_scan(ls.drop_last()) {
            None => None,
            Some(seen) => {
                let t = trim(ls.last());
                if t.len() == 0 || has_prefix(t, "#"@) {
                    Some(seen)
                } else if catch_all_rule(t) {
                    Some(true)
                } else if has_prefix(t, "!"@) {
                    Some(seen)
                } else {
                    None
                }
            },
        }
    }
}

/// A `.gitignore` (its text) is a catch-all: it holds a catch-all rule and
/// no real rule, only blank lines, comments and negations besides.
pub open spec fn catch_all_gitignore(text: Seq<char>) -> bool {
    gitignore_scan(lines(text)) == Some(true)
}

proof fn lemma_scan_stays_none(ls: Seq<Seq<char>>, i: int)
    requires
        0 <= i <= ls.len(),
        gitignore_scan(ls.take(i)) is None,
    ensures
        gitignore_scan(ls) is None,
    decreases ls.len() - i,
{
    if i == ls.len() {
        assert(ls.take(i) =~= ls);
    } else {
        assert(ls.take(i + 1).drop_last() =~= ls.take(i));
        lemma_scan_stays_none(ls, i + 1);
    }
}

/// Whether a `.gitignore` text is a catch-all (see `catch_all_gitignore`).
pub fn is_catch_all_gitignore(text: &str) -> (r: bool)
    ensures
        r == catch_all_gitignore(text@),
{
    let cs = chars_of(text);
    let ls = lines_of(cs.as_slice());
    let ghost all = lines(text@);
    let mut seen = false;
    let mut i: usize = 0;
    while i < ls.len()
        invariant
            i <= ls@.len(),
            crate::text::chars_view(ls@) == all,
            all == lines(text@),
            gitignore_scan(all.take(i as int)) == Some(seen),
        decreases ls.len() - i,
    {
        assert(all.take(i as int + 1).drop_last() =~= all.take(i as int));
        assert(all[i as int] == ls@[i as int]@);
        let (a, b) = trim_bounds(ls[i].as_slice());
        let t = string_from_chars(&ls[i].as_slice()[a..b]);
        assert(t@ == trim(all[i as int]));
        let tc = chars_of(t.as_str());
        let hash = chars_of("#");
        let bang = chars_of("!");
        let ts = t.as_str();
        if tc.len() == 0 || crate::text::starts_with(tc.as_slice(), hash.as_slice()) {
        } else if str_is(ts, "*") || str_is(ts, "**") || str_is(ts, "**/") || str_is(ts, "**/*") {
            seen = true;
        } else if crate::text::starts_with(tc.as_slice(), bang.as_slice()) {
        } else {
            proof {
                assert(!catch_all_rule(t@));
                assert(!has_prefix(t@, "#"@));
                assert(!has_prefix(t@, "!"@));
                assert(all.take(i as int + 1).last() == all[i as int]);
                assert(gitignore_scan(all.take(i as int + 1)) is None);
                lemma_scan_stays_none(all, i + 1);
            }
            return false;
        }
        i = i + 1;
    }
    assert(all.take(ls@.len() as int) =~= all);
    seen
}


// ---------------------------------------------------------------------------
// Laying the result out
// ---------------------------------------------------------------------------

/// What is built while reading `fd`'s lines: the output so far, the
/// results counted, and whether the byte cap stopped it.
pub struct FindState {
    pub out: Seq<char>,
    pub count: nat,
    pub stopped: bool,
}

/// The state after `fd`'s lines `ls`: each non-empty line counts and adds
/// its path relative to `dir` on a line of its own, unless that would pass
/// `max` bytes, which stops it.
pub open spec fn find_fold(ls: Seq<Seq<char>>, dir: Seq<char>, max: nat) -> FindState
    decreases ls.len(),
{
    if ls.len() == 0 {
        FindState { out: seq![], count: 0, stopped: false }
    } else {
        let s = find_fold(ls.drop_last(), dir, max);
        let line = ls.last();
        if s.stopped || line.len() == 0 {
            s
        } else {
            let rel = rel_path(line, dir);
            if utf8_size(s.out) + utf8_size(rel) + 1 > max {
                FindState { out: s.out, count: s.count + 1, stopped: true }
            } else {
                FindState {
                    out: if s.out.len() == 0 {
                        rel
                    } else {
                        s.out + "\n"@ + rel
                    },
                    count: s.count + 1,
                    stopped: false,
                }
            }
        }
    }
}

/// The find result for `fd`'s output `raw` (see `find_fold`): a note when
/// nothing was found; otherwise the paths and a note when `limit` results
/// were reached (and the byte cap was not) or when the byte cap was.
pub open spec fn find_output(raw: Seq<char>, dir: Seq<char>, limit: nat, max: nat) -> Seq<char> {
    let s = find_fold(lines(raw), dir, max);
    if trim(raw).len() == 0 || s.out.len() == 0 {
        "No files found matching pattern"@
    } else if s.count >= limit && !s.stopped {
        s.out + "\n["@ + decimal(limit) + " results limit reached. Use limit="@ + decimal(limit * 2)
            + " for more, or refine pattern]"@
    } else if s.stopped {
        s.out + "\n["@ + format_size_spec(max) + " limit reached]"@
    } else {
        s.out
    }
}

proof fn lemma_fold_stays_stopped(ls: Seq<Seq<char>>, dir: Seq<char>, max: nat, i: int)
    requires
        0 <= i <= ls.len(),
        find_fold(ls.take(i), dir, max).stopped,
    ensures
        find_fold(ls, dir, max) == find_fold(ls.take(i), dir, max),
    decreases ls.len() - i,
{
    if i == ls.len() {
        assert(ls.take(i) =~= ls);
    } else {
        assert(ls.take(i + 1).drop_last() =~= ls.take(i));
        lemma_fold_stays_stopped(ls, dir, max, i + 1);
    }
}

/// Lays `fd`'s output out (see `find_output`).
pub fn format_find_output(raw: &str, search_dir: &str, limit: usize, max_output_bytes: usize) -> (r:
    String)
    requires
        limit * 2 <= usize::MAX,
    ensures
        r@ == find_output(raw@, search_dir@, limit as nat, max_output_bytes as nat),
{
    let cs = chars_of(raw);
    let (ta, tb) = trim_bounds(cs.as_slice());
    if ta == tb {
        assert(trim(raw@).len() == 0);
        return owned("No files found matching pattern");
    }
    let ls = lines_of(cs.as_slice());
    let ghost all = lines(raw@);
    let mut out = owned("");
    proof {
        reveal_strlit("");
        reveal_strlit("\n");
        assert(utf8_size(""@) == 0);
        assert("\n"@.len() == 1 && "\n"@[0] == '\n');
        assert(utf8_size("\n"@) == 1) by {
            assert("\n"@.drop_last() =~= Seq::<char>::empty());
            assert(utf8_size(Seq::<char>::empty()) == 0);
            assert(crate::text::utf8_len('\n') == 1);
        }
        assert(out@ =~= Seq::<char>::empty());
        assert(all.take(0) =~= Seq::<Seq<char>>::empty());
    }
    let mut used: usize = 0;
    let mut count: usize = 0;
    let mut stopped = false;
    let mut i: usize = 0;
    while i < ls.len() && !stopped
        invariant
            i <= ls@.len(),
            crate::text::chars_view(ls@) == all,
            all == lines(raw@),
            used == utf8_size(out@),
            used <= max_output_bytes,
            count <= i,
            utf8_size("\n"@) == 1,
            find_fold(all.take(i as int), search_dir@, max_output_bytes as nat) == (FindState {
                out: out@,
                count: count as nat,
                stopped,
            }),
        decreases ls.len() - i,
    {
        assert(all.take(i as int + 1).drop_last() =~= all.take(i as int));
        assert(all[i as int] == ls@[i as int]@);
        let line = string_from_chars(ls[i].as_slice());
        if ls[i].len() > 0 {
            let rel = crate::grep::relative_path(line.as_str(), search_dir);
            let rc = chars_of(rel.as_str());
            let size = crate::text::utf8_size_capped(rc.as_slice());
            if (used as u128) + (size as u128) + 1 > (max_output_bytes as u128) {
                stopped = true;
                count = count + 1;
            } else {
                if out.as_str().is_empty() {
                    out = rel;
                    used = size;
                } else {
                    let ghost before = out@;
                    push_str(&mut out, "\n");
                    push_str(&mut out, rel.as_str());
                    proof {
                        crate::text::lemma_utf8_size_concat(before, "\n"@);
                        crate::text::lemma_utf8_size_concat(before + "\n"@, rel@);
                    }
                    used = used + 1 + size;
                }
                count = count + 1;
            }
        }
        i = i + 1;
    }
    proof {
        if stopped {
            lemma_fold_stays_stopped(all, search_dir@, max_output_bytes as nat, i as int);
        } else {
            assert(all.take(ls@.len() as int) =~= all);
        }
    }
    if out.as_str().is_empty() {
        return owned("No files found matching pattern");
    }
    if count >= limit && !stopped {
        push_str(&mut out, "\n[");
        let d = decimal_string(limit as u64);
        push_str(&mut out, d.as_str());
        push_str(&mut out, " results limit reached. Use limit=");
        let d2 = decimal_string((limit * 2) as u64);
        push_str(&mut out, d2.as_str());
        push_str(&mut out, " for more, or refine pattern]");
    } else if stopped {
        push_str(&mut out, "\n[");
        let f = format_size(max_output_bytes);
        push_str(&mut out, f.as_str());
        push_str(&mut out, " limit reached]");
    }
    out
}


// ---------------------------------------------------------------------------
// The tool
// ---------------------------------------------------------------------------

/// The `find` tool.
#[derive(Debug)]
pub struct FindTool {
    pub workspace: String,
    pub sandbox: Sandbox,
    /// The `fd` binary to run in place of the one on the search path.
    pub fd_binary: Option<String>,
}

impl FindTool {
    pub fn new(workspace: String, sandbox: Sandbox) -> (t: FindTool)
        ensures
            t.workspace@ == workspace@,
            t.fd_binary is None,
    {
        FindTool { workspace, sandbox, fd_binary: None }
    }

    /// The tool running the given `fd` binary.
    pub fn with_fd_binary(workspace: String, sandbox: Sandbox, fd_binary: String) -> (t: FindTool)
        ensures
            t.workspace@ == workspace@,
            t.fd_binary == Some(fd_binary),
    {
        FindTool { workspace, sandbox, fd_binary: Some(fd_binary) }
    }

    /// The `fd` to run: the one given, or `fd`.
    pub fn fd_cmd(&self) -> (r: String)
        ensures
            r@ == match self.fd_binary {
                Some(b) => b@,
                None => "fd"@,
            },
    {
        match &self.fd_binary {
            Some(b) => b.clone(),
            None => owned("fd"),
        }
    }

    pub fn definition(&self) -> (d: ToolDefinition)
        ensures
            d.name@ == "find"@,
            d.description@ == FIND_DESCRIPTION@,
            d.parameters_schema@ == FIND_SCHEMA@,
    {
        ToolDefinition {
            name: owned("find"),
            description: owned(FIND_DESCRIPTION),
            parameters_schema: owned(FIND_SCHEMA),
        }
    }
}

/// The reply to a call without a string `pattern`.
pub fn missing_pattern_error() -> (r: ToolResult)
    ensures
        r.is_error,
        r.content@ == "missing 'pattern' argument. Example: {\"pattern\": \"*.rs\"}"@,
{
    ToolResult::error(owned("missing 'pattern' argument. Example: {\"pattern\": \"*.rs\"}"))
}

/// Reads a `find` call: `Err(Err(message))` when it is not JSON,
/// `Err(Ok(reply))` without a string `pattern`; otherwise the pattern and
/// the path (`.` by default). Its `limit`, a number that may be
/// fractional, is read by the caller.
pub fn parse_find_args(arguments: &str) -> (r: Result<(String, String), Result<ToolResult, String>>)
    ensures
        json_string_member(arguments@, "pattern"@) is None ==> (r matches Err(Err(_))),
        json_string_member(arguments@, "pattern"@) == Some(None::<Seq<char>>) ==> (r matches Err(
            Ok(x),
        ) && x.is_error),
        forall|p: Seq<char>|
            json_string_member(arguments@, "pattern"@) == Some(Some(p)) ==> match json_string_member(
                arguments@,
                "path"@,
            ) {
                Some(v) => r matches Ok((a, b)) && a@ == p && b@ == match v {
                    Some(x) => x,
                    None => "."@,
                },
                None => r matches Err(Err(_)),
            },
{
    let pattern = match json_str_member(arguments, "pattern") {
        Err(e) => {
            return Err(Err(e));
        },
        Ok(None) => {
            return Err(Ok(missing_pattern_error()));
        },
        Ok(Some(p)) => p,
    };
    match json_str_member(arguments, "path") {
        Err(e) => Err(Err(e)),
        Ok(None) => Ok((pattern, owned("."))),
        Ok(Some(p)) => Ok((pattern, p)),
    }
}

/// `fd` failed: it exited with 2, or was killed or exited above 2
/// without printing anything.
pub open spec fn fd_failed(exit_code: Option<i32>, stdout_empty: bool) -> bool {
    match exit_code {
        Some(c) => c == 2 || (c > 2 && stdout_empty),
        None => stdout_empty,
    }
}

/// The reply when `fd` failed (see `fd_failed`): its trimmed error output,
/// or a note that it exited unexpectedly; `None` when it did not fail.
pub fn fd_failure(exit_code: Option<i32>, stdout_empty: bool, stderr: &str) -> (r: Option<ToolResult>)
    ensures
        !fd_failed(exit_code, stdout_empty) ==> r is None,
        fd_failed(exit_code, stdout_empty) ==> (r matches Some(x) && x.is_error && x.content@ == if trim(
            stderr@,
        ).len() == 0 {
            "fd exited unexpectedly"@
        } else {
            "find error: "@ + trim(stderr@)
        }),
{
    let failed = match exit_code {
        Some(c) => c == 2 || (c > 2 && stdout_empty),
        None => stdout_empty,
    };
    if !failed {
        return None;
    }
    let cs = chars_of(stderr);
    let (a, b) = trim_bounds(cs.as_slice());
    if a == b {
        return Some(ToolResult::error(owned("fd exited unexpectedly")));
    }
    let mut m = owned("find error: ");
    let t = string_from_chars(&cs.as_slice()[a..b]);
    push_str(&mut m, t.as_str());
    Some(ToolResult::error(m))
}


/// The description of the `find` tool.
pub const FIND_DESCRIPTION: &'static str = "Find files by glob pattern using fd. Requires fd on PATH. Returns newline-separated relative paths. Respects .gitignore. Output capped at 1000 results or 50KB. Example: {\"pattern\": \"*.rs\"}";

/// The parameter schema of the `find` tool.
pub const FIND_SCHEMA: &'static str = "{\n                \"type\": \"object\",\n                \"properties\": {\n                    \"pattern\": {\"type\":\"string\",\"description\":\"Glob pattern, e.g. '*.rs', '**/*.json', or 'src/*.rs' (path-segment patterns work)\"},\n                    \"path\":    {\"type\":\"string\",\"description\":\"Directory to search (defaults to '.')\"},\n                    \"limit\":   {\"type\":\"number\",\"description\":\"Maximum results (default 1000)\"}\n                },\n                \"required\": [\"pattern\"]\n            }";

} // verus!
