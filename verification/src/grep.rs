//! The `grep` tool: ripgrep's JSON matches, shown as `file:line: text`
//! with context lines read from the matched files, under limits on matches,
//! line length and output size. Running `rg` and reading the files happen
//! in the caller; the library reads `rg`'s answer and lays out the result.

use vstd::prelude::*;

use crate::subagent_monitor::lemma_take_size_grows;
use crate::text::{
    byte_count, char_utf8_len, chars_of, chars_view, decimal, decimal_string, has_prefix, lemma_utf8_size_take,
    lines, lines_of, owned, push_str, string_from_chars, trim, trim_bounds, utf8_size,
};
use crate::tool::{json_member_text, json_member_text_of, json_str_member, json_string_member,
    json_u64_member, json_u64_member_of};
use crate::truncate::{format_size, format_size_spec};

verus! {

/// Matches shown at most, by default.
pub const DEFAULT_MATCH_LIMIT: usize = 100;

/// Lines are cut at this many bytes.
pub const MAX_LINE_BYTES: usize = 500;

/// The output is cut at this many bytes.
pub const MAX_OUTPUT_BYTES: usize = 51200;

/// Context lines on each side at most.
pub const MAX_CONTEXT_LINES: usize = 50;

// ---------------------------------------------------------------------------
// Reading rg's answer
// ---------------------------------------------------------------------------

/// A match reported by `rg --json`.
#[derive(Debug, Clone)]
pub struct RgMatch {
    pub file_path: String,
    /// The 1-based line of the match.
    pub line_number: u64,
}

/// The match one event line of `rg --json` reports: a `match` event with
/// `data.path.text` and `data.line_number`.
pub open spec fn rg_match_of(line: Seq<char>) -> Option<(Seq<char>, u64)> {
    let t = trim(line);
    if t.len() == 0 {
        None
    } else if json_string_member(t, "type"@) != Some(Some("match"@)) {
        None
    } else {
        match json_member_text_of(t, "data"@) {
            Some(Some(d)) => match (json_member_text_of(d, "path"@), json_u64_member_of(
                d,
                "line_number"@,
            )) {
                (Some(Some(p)), Some(Some(n))) => match json_string_member(p, "text"@) {
                    Some(Some(path)) => Some((path, n)),
                    _ => None,
                },
                _ => None,
            },
            _ => None,
        }
    }
}

/// The matches reported by a sequence of event lines, in order.
pub open spec fn rg_matches_of(ls: Seq<Seq<char>>) -> Seq<(Seq<char>, u64)>
    decreases ls.len(),
{
    if ls.len() == 0 {
        seq![]
    } else {
        let rest = rg_matches_of(ls.drop_last());
        match rg_match_of(ls.last()) {
            Some(m) => rest.push(m),
            None => rest,
        }
    }
}

/// The contents of a list of matches.
pub open spec fn match_views(v: Seq<RgMatch>) -> Seq<(Seq<char>, u64)> {
    v.map_values(|m: RgMatch| (m.file_path@, m.line_number))
}

fn rg_match_line(line: &str) -> (r: Option<RgMatch>)
    ensures
        match r {
            Some(m) => rg_match_of(line@) == Some((m.file_path@, m.line_number)),
            None => rg_match_of(line@) is None,
        },
{
    let cs = chars_of(line);
    let (a, b) = trim_bounds(cs.as_slice());
    if a == b {
        return None;
    }
    let t = string_from_chars(&cs.as_slice()[a..b]);
    assert(t@ == trim(line@));
    let ty = match json_str_member(t.as_str(), "type") {
        Ok(Some(x)) => x,
        _ => {
            return None;
        },
    };
    if !crate::text::str_is(ty.as_str(), "match") {
        return None;
    }
    let d = match json_member_text(t.as_str(), "data") {
        Ok(Some(d)) => d,
        _ => {
            return None;
        },
    };
    let p = match json_member_text(d.as_str(), "path") {
        Ok(Some(p)) => p,
        _ => {
            return None;
        },
    };
    let n = match json_u64_member(d.as_str(), "line_number") {
        Ok(Some(n)) => n,
        _ => {
            return None;
        },
    };
    match json_str_member(p.as_str(), "text") {
        Ok(Some(path)) => Some(RgMatch { file_path: path, line_number: n }),
        _ => None,
    }
}

/// The matches in `rg --json` output (see `rg_match_of`), in order.
pub fn parse_rg_matches(json_output: &str) -> (r: Vec<RgMatch>)
    ensures
        match_views(r@) == rg_matches_of(lines(json_output@)),
{
    let cs = chars_of(json_output);
    let ls = lines_of(cs.as_slice());
    let ghost all = lines(json_output@);
    let mut out: Vec<RgMatch> = Vec::new();
    let mut i: usize = 0;
    while i < ls.len()
        invariant
            i <= ls@.len(),
            chars_view(ls@) == all,
            match_views(out@) == rg_matches_of(all.take(i as int)),
        decreases ls.len() - i,
    {
        let line = string_from_chars(ls[i].as_slice());
        assert(all.take(i as int + 1).drop_last() =~= all.take(i as int));
        assert(all.take(i as int + 1).last() == all[i as int]);
        assert(line@ == all[i as int]);
        match rg_match_line(line.as_str()) {
            Some(m) => {
                out.push(m);
                assert(match_views(out@) =~= rg_matches_of(all.take(i as int)).push(
                    rg_match_of(all[i as int])->0,
                ));
            },
            None => {},
        }
        i = i + 1;
    }
    assert(all.take(ls@.len() as int) =~= all);
    out
}

// ---------------------------------------------------------------------------
// Long lines
// ---------------------------------------------------------------------------

/// The first `k` characters of `s` are the longest prefix within `max`
/// bytes.
pub open spec fn longest_fit(s: Seq<char>, max: nat, k: int) -> bool {
    0 <= k <= s.len() && utf8_size(s.take(k)) <= max && (k == s.len() || utf8_size(s.take(k + 1))
        > max)
}

/// A line as shown: itself when it fits in `max` bytes; otherwise its
/// longest prefix within `max` bytes, `…` and the line's size.
pub open spec fn shown_text(s: Seq<char>, max: nat) -> (Seq<char>, bool) {
    if utf8_size(s) <= max {
        (s, false)
    } else {
        (
            s.take(choose|k: int| longest_fit(s, max, k)) + "… [line is "@ + format_size_spec(
                byte_count(s),
            ) + "]"@,
            true,
        )
    }
}

proof fn lemma_fit_unique(s: Seq<char>, max: nat, k1: int, k2: int)
    requires
        longest_fit(s, max, k1),
        longest_fit(s, max, k2),
    ensures
        k1 == k2,
{
    if k1 < k2 {
        if k1 + 1 < k2 {
            lemma_take_size_grows(s, k1 + 1, k2);
        }
    } else if k2 < k1 {
        if k2 + 1 < k1 {
            lemma_take_size_grows(s, k2 + 1, k1);
        }
    }
}

/// Cuts a line to `max_bytes` (see `shown_text`); also says whether it was
/// cut.
pub fn truncate_line(line: &str, max_bytes: usize) -> (r: (String, bool))
    ensures
        (r.0@, r.1) == shown_text(line@, max_bytes as nat),
{
    let cs = chars_of(line);
    if crate::text::utf8_size_within(cs.as_slice(), max_bytes).is_some() {
        return (owned(line), false);
    }
    let total = crate::text::byte_len(line);
    let mut n: usize = 0;
    let mut i: usize = 0;
    while i < cs.len() && char_utf8_len(cs[i]) <= max_bytes - n
        invariant
            i <= cs.len(),
            cs@ == line@,
            n == utf8_size(line@.take(i as int)),
            n <= max_bytes,
        decreases cs.len() - i,
    {
        assert(line@.take(i as int + 1).drop_last() =~= line@.take(i as int));
        n = n + char_utf8_len(cs[i]);
        i = i + 1;
    }
    if i < cs.len() {
        assert(line@.take(i as int + 1).drop_last() =~= line@.take(i as int));
    }
    proof {
        if i == cs.len() {
            assert(line@.take(i as int) =~= line@);
        }
        assert(longest_fit(line@, max_bytes as nat, i as int));
        let k = choose|k: int| longest_fit(line@, max_bytes as nat, k);
        lemma_fit_unique(line@, max_bytes as nat, k, i as int);
    }
    let mut out = string_from_chars(&cs.as_slice()[0..i]);
    assert(cs@.subrange(0, i as int) =~= line@.take(i as int));
    push_str(&mut out, "… [line is ");
    let size = format_size(total);
    push_str(&mut out, size.as_str());
    push_str(&mut out, "]");
    (out, true)
}


// ---------------------------------------------------------------------------
// Laying the matches out
// ---------------------------------------------------------------------------

/// A path relative to the workspace when it lies under it.
pub open spec fn rel_path(p: Seq<char>, ws: Seq<char>) -> Seq<char> {
    if has_prefix(p, ws + "/"@) {
        p.skip(ws.len() + 1 as int)
    } else if has_prefix(p, ws) {
        p.skip(ws.len() as int)
    } else {
        p
    }
}

/// `s` without trailing newlines.
pub open spec fn strip_newlines(s: Seq<char>) -> Seq<char>
    decreases s.len(),
{
    if s.len() > 0 && s.last() == '\n' {
        strip_newlines(s.drop_last())
    } else {
        s
    }
}

/// Line `k` (1-based) of a file, empty when there is none.
pub open spec fn line_at(ls: Seq<Seq<char>>, k: int) -> Seq<char> {
    if 1 <= k <= ls.len() {
        ls[k - 1]
    } else {
        seq![]
    }
}

/// The lines of `path` among the files read (the first entry for it),
/// none when it was not read.
pub open spec fn file_lines(files: Seq<(Seq<char>, Seq<Seq<char>>)>, path: Seq<char>) -> Seq<Seq<char>>
    decreases files.len(),
{
    if files.len() == 0 {
        seq![]
    } else if files[0].0 == path {
        files[0].1
    } else {
        file_lines(files.drop_first(), path)
    }
}

/// One output line: `path:k: text` for the match, `path-k- text` for
/// context.
pub open spec fn grep_line(rel: Seq<char>, k: nat, is_match: bool, text: Seq<char>) -> Seq<char> {
    let sep = if is_match {
        ":"@
    } else {
        "-"@
    };
    rel + sep + decimal(k) + sep + " "@ + text
}

/// The first line of a match's block.
pub open spec fn block_start(line: int, ctx: int) -> int {
    if ctx > 0 {
        if line - ctx >= 1 {
            line - ctx
        } else {
            1
        }
    } else {
        line
    }
}

/// The last line of a match's block.
pub open spec fn block_end(line: int, ctx: int, total: int) -> int {
    if ctx > 0 {
        if line + ctx <= total {
            line + ctx
        } else {
            total
        }
    } else {
        line
    }
}

/// The lines of a match's block, each with whether it was cut: from
/// `ctx` lines before the match to `ctx` after, within the file.
pub open spec fn block_lines(
    rel: Seq<char>,
    line: int,
    ls: Seq<Seq<char>>,
    ctx: int,
    max_line: nat,
) -> Seq<(Seq<char>, bool)> {
    let start = block_start(line, ctx);
    let end = block_end(line, ctx, ls.len() as int);
    Seq::new(
        if end >= start {
            (end - start + 1) as nat
        } else {
            0
        },
        |j: int|
            {
                let k = start + j;
                let t = shown_text(strip_newlines(line_at(ls, k)), max_line);
                (grep_line(rel, k as nat, k == line, t.0), t.1)
            },
    )
}

/// The candidate lines of the matches shown, in order: the blocks of the
/// matches whose path was accepted.
pub open spec fn candidates(
    ms: Seq<(Seq<char>, u64)>,
    ok: Seq<bool>,
    files: Seq<(Seq<char>, Seq<Seq<char>>)>,
    ws: Seq<char>,
    ctx: int,
    max_line: nat,
) -> Seq<(Seq<char>, bool)>
    decreases ms.len(),
{
    if ms.len() == 0 {
        seq![]
    } else {
        let n = (ms.len() - 1) as int;
        let rest = candidates(ms.take(n), ok, files, ws, ctx, max_line);
        if ok[n] {
            rest + block_lines(
                rel_path(ms[n].0, ws),
                ms[n].1 as int,
                file_lines(files, ms[n].0),
                ctx,
                max_line,
            )
        } else {
            rest
        }
    }
}

/// How many candidate lines fit when each takes its size and a newline
/// and the total may not pass `max`, counting from `i` with `used` bytes
/// used.
pub open spec fn kept_from(c: Seq<(Seq<char>, bool)>, i: int, used: nat, max: nat) -> int
    decreases c.len() - i,
{
    if i >= c.len() || i < 0 {
        i
    } else if used + utf8_size(c[i].0) + 1 > max {
        i
    } else {
        kept_from(c, i + 1, used + utf8_size(c[i].0) + 1, max)
    }
}

/// The lines joined with newlines.
pub open spec fn joined_lines(ls: Seq<Seq<char>>) -> Seq<char>
    decreases ls.len(),
{
    if ls.len() == 0 {
        seq![]
    } else if ls.len() == 1 {
        ls[0]
    } else {
        joined_lines(ls.drop_last()) + "\n"@ + ls.last()
    }
}

/// The notes after the lines, joined with `. ` inside `[...]`.
pub open spec fn grep_notes(limit_hit: bool, limit: nat, bytes_hit: bool, max_out: nat, cut: bool, max_line: nat) -> Seq<Seq<char>> {
    (if limit_hit {
        seq![decimal(limit) + " matches limit reached. Use limit="@ + decimal(limit * 2)
            + " for more, or refine pattern"@]
    } else {
        seq![]
    }) + (if bytes_hit {
        seq![format_size_spec(max_out) + " limit reached"@]
    } else {
        seq![]
    }) + (if cut {
        seq!["Some lines truncated to "@ + decimal(max_line)
            + " chars. Use read tool to see full lines"@]
    } else {
        seq![]
    })
}

/// `parts` joined with `sep`.
pub open spec fn joined_with(parts: Seq<Seq<char>>, sep: Seq<char>) -> Seq<char>
    decreases parts.len(),
{
    if parts.len() == 0 {
        seq![]
    } else if parts.len() == 1 {
        parts[0]
    } else {
        joined_with(parts.drop_last(), sep) + sep + parts.last()
    }
}

/// Some of the first `n` candidate lines was cut.
pub open spec fn any_cut(c: Seq<(Seq<char>, bool)>, n: int) -> bool {
    exists|j: int| 0 <= j < n && #[trigger] c[j].1
}

/// The grep result for matches `ms`:
/// - `No matches found` when no match is within the limit, or no line
///   fits;
/// - otherwise the lines that fit, and notes when more matches were
///   found than the limit, when lines were left out for size, and when a
///   line (among those laid out) was cut.
pub open spec fn grep_output(
    ms: Seq<(Seq<char>, u64)>,
    ok: Seq<bool>,
    files: Seq<(Seq<char>, Seq<Seq<char>>)>,
    ws: Seq<char>,
    limit: nat,
    ctx: int,
    max_line: nat,
    max_out: nat,
) -> Seq<char> {
    let cap = if ms.len() < limit {
        ms.len()
    } else {
        limit
    };
    let c = candidates(ms.take(cap as int), ok, files, ws, ctx, max_line);
    let kept = kept_from(c, 0, 0, max_out);
    let laid = if kept < c.len() {
        kept + 1
    } else {
        kept
    };
    let cut = any_cut(c, laid);
    if cap == 0 || kept == 0 {
        "No matches found"@
    } else {
        let notes = grep_notes(ms.len() > limit, limit, kept < c.len(), max_out, cut, max_line);
        joined_lines(c.take(kept).map_values(|x: (Seq<char>, bool)| x.0)) + if notes.len() == 0 {
            seq![]
        } else {
            "\n\n["@ + joined_with(notes, ". "@) + "]"@
        }
    }
}


/// The contents of the files read: each path with its lines.
pub open spec fn files_view(v: Seq<(String, Vec<String>)>) -> Seq<(Seq<char>, Seq<Seq<char>>)> {
    v.map_values(|f: (String, Vec<String>)| (f.0@, crate::jail::strs(f.1@)))
}

/// The path relative to the workspace (see `rel_path`).
pub fn relative_path(p: &str, ws: &str) -> (r: String)
    ensures
        r@ == rel_path(p@, ws@),
{
    let pc = chars_of(p);
    let mut prefix = owned(ws);
    push_str(&mut prefix, "/");
    proof {
        reveal_strlit("/");
    }
    let a = chars_of(prefix.as_str());
    if crate::text::starts_with(pc.as_slice(), a.as_slice()) {
        assert(pc@.subrange(a@.len() as int, pc@.len() as int) =~= p@.skip(ws@.len() + 1 as int));
        return string_from_chars(&pc.as_slice()[a.len()..pc.len()]);
    }
    let b = chars_of(ws);
    if crate::text::starts_with(pc.as_slice(), b.as_slice()) {
        assert(pc@.subrange(b@.len() as int, pc@.len() as int) =~= p@.skip(ws@.len() as int));
        return string_from_chars(&pc.as_slice()[b.len()..pc.len()]);
    }
    owned(p)
}

fn without_newlines(s: &str) -> (r: String)
    ensures
        r@ == strip_newlines(s@),
{
    let cs = chars_of(s);
    let mut n = cs.len();
    assert(s@.take(n as int) =~= s@);
    while n > 0 && cs[n - 1] == '\n'
        invariant
            n <= cs.len(),
            cs@ == s@,
            strip_newlines(s@) == strip_newlines(s@.take(n as int)),
        decreases n,
    {
        assert(s@.take(n as int).drop_last() =~= s@.take(n - 1));
        n = n - 1;
    }
    string_from_chars(&cs.as_slice()[0..n])
}

fn lines_of_file<'a>(files: &'a [(String, Vec<String>)], path: &str) -> (r: &'a [String])
    ensures
        crate::jail::strs(r@) == file_lines(files_view(files@), path@),
{
    let ghost fv = files_view(files@);
    let mut i: usize = 0;
    assert(fv.skip(0) =~= fv);
    while i < files.len()
        invariant
            i <= files@.len(),
            fv == files_view(files@),
            file_lines(fv, path@) == file_lines(fv.skip(i as int), path@),
        decreases files.len() - i,
    {
        assert(fv.skip(i as int)[0] == fv[i as int]);
        if crate::text::str_is(files[i].0.as_str(), path) {
            return files[i].1.as_slice();
        }
        assert(fv.skip(i as int).drop_first() =~= fv.skip(i + 1));
        i = i + 1;
    }
    assert(fv.skip(i as int).len() == 0);
    let empty: &[String] = &[];
    assert(crate::jail::strs(empty@) =~= Seq::<Seq<char>>::empty());
    empty
}

/// The contents of candidate lines.
pub open spec fn cand_view(v: Seq<(String, bool)>) -> Seq<(Seq<char>, bool)> {
    v.map_values(|c: (String, bool)| (c.0@, c.1))
}

/// Line `k` of a block as laid out, with whether it was cut.
pub open spec fn block_line_at(rel: Seq<char>, line: int, ls: Seq<Seq<char>>, k: int, max_line: nat) -> (
    Seq<char>,
    bool,
) {
    let t = shown_text(strip_newlines(line_at(ls, k)), max_line);
    (grep_line(rel, k as nat, k == line, t.0), t.1)
}

fn block_line(rel: &str, line: u64, ls: &[String], k: u64, max_line: usize) -> (r: (String, bool))
    ensures
        (r.0@, r.1) == block_line_at(rel@, line as int, crate::jail::strs(ls@), k as int, max_line as nat),
{
    let ghost lsv = crate::jail::strs(ls@);
    let text: String = if k >= 1 && (k as u128) <= (ls.len() as u128) {
        without_newlines(ls[(k - 1) as usize].as_str())
    } else {
        owned("")
    };
    proof {
        reveal_strlit("");
        assert(strip_newlines(seq![]) == Seq::<char>::empty());
        assert(text@ == strip_newlines(line_at(lsv, k as int)));
    }
    let (shown, cut) = truncate_line(text.as_str(), max_line);
    let mut f = owned(rel);
    let is_match = k == line;
    let sep = if is_match {
        ":"
    } else {
        "-"
    };
    push_str(&mut f, sep);
    let d = decimal_string(k);
    push_str(&mut f, d.as_str());
    push_str(&mut f, sep);
    push_str(&mut f, " ");
    push_str(&mut f, shown.as_str());
    (f, cut)
}

fn push_block(
    out: &mut Vec<(String, bool)>,
    rel: &str,
    line: u64,
    ls: &[String],
    ctx: usize,
    max_line: usize,
)
    ensures
        cand_view(final(out)@) == cand_view(old(out)@) + block_lines(
            rel@,
            line as int,
            crate::jail::strs(ls@),
            ctx as int,
            max_line as nat,
        ),
{
    let ghost start0 = cand_view(out@);
    let ghost lsv = crate::jail::strs(ls@);
    let ghost blk = block_lines(rel@, line as int, lsv, ctx as int, max_line as nat);
    let total = ls.len() as u128;
    let l = line as u128;
    let c = ctx as u128;
    let start: u128 = if c > 0 {
        if l >= c + 1 {
            l - c
        } else {
            1
        }
    } else {
        l
    };
    let end: u128 = if c > 0 {
        if l + c <= total {
            l + c
        } else {
            total
        }
    } else {
        l
    };
    assert(start == block_start(line as int, ctx as int));
    assert(end == block_end(line as int, ctx as int, lsv.len() as int));
    assert(end <= u64::MAX);
    if start > end {
        assert(blk =~= Seq::<(Seq<char>, bool)>::empty());
        assert(cand_view(out@) =~= start0 + blk);
        return;
    }
    let mut k: u128 = start;
    while k <= end
        invariant
            start <= k <= end + 1,
            start == block_start(line as int, ctx as int),
            end == block_end(line as int, ctx as int, lsv.len() as int),
            lsv == crate::jail::strs(ls@),
            total == ls@.len(),
            l == line,
            blk == block_lines(rel@, line as int, lsv, ctx as int, max_line as nat),
            blk.len() == end - start + 1,
            cand_view(out@) == start0 + blk.take(k - start),
            end <= u64::MAX,
        decreases end + 1 - k,
    {
        let (f, cut) = block_line(rel, line, ls, k as u64, max_line);
        let ghost before = cand_view(out@);
        let ghost item = (f@, cut);
        out.push((f, cut));
        proof {
            let j = k - start;
            assert(cand_view(out@) =~= before.push(item));
            assert(blk[j as int] == block_line_at(rel@, line as int, lsv, k as int, max_line as nat));
            assert(cand_view(out@) =~= start0 + blk.take(j + 1));
        }
        k = k + 1;
    }
    assert(blk.take(k - start) =~= blk);
}


fn join_parts(parts: &[String], sep: &str) -> (r: String)
    ensures
        r@ == joined_with(crate::jail::strs(parts@), sep@),
{
    let ghost pv = crate::jail::strs(parts@);
    let mut out = owned("");
    proof {
        reveal_strlit("");
    }
    let mut i: usize = 0;
    while i < parts.len()
        invariant
            i <= parts@.len(),
            pv == crate::jail::strs(parts@),
            out@ == joined_with(pv.take(i as int), sep@),
        decreases parts.len() - i,
    {
        assert(pv.take(i as int + 1).drop_last() =~= pv.take(i as int));
        if i > 0 {
            push_str(&mut out, sep);
        }
        push_str(&mut out, parts[i].as_str());
        proof {
            if i == 0 {
                assert(pv.take(1) =~= seq![pv[0]]);
                assert(out@ =~= pv[0]);
            }
        }
        i = i + 1;
    }
    assert(pv.take(parts@.len() as int) =~= pv);
    out
}

fn join_kept(c: &[(String, bool)], kept: usize) -> (r: String)
    requires
        kept <= c@.len(),
    ensures
        r@ == joined_lines(cand_view(c@).take(kept as int).map_values(|x: (Seq<char>, bool)| x.0)),
{
    let ghost lv = cand_view(c@).take(kept as int).map_values(|x: (Seq<char>, bool)| x.0);
    let mut out = owned("");
    proof {
        reveal_strlit("");
    }
    let mut i: usize = 0;
    while i < kept
        invariant
            i <= kept <= c@.len(),
            lv == cand_view(c@).take(kept as int).map_values(|x: (Seq<char>, bool)| x.0),
            out@ == joined_lines(lv.take(i as int)),
        decreases kept - i,
    {
        assert(lv.take(i as int + 1).drop_last() =~= lv.take(i as int));
        assert(lv[i as int] == c@[i as int].0@);
        if i > 0 {
            push_str(&mut out, "\n");
        }
        push_str(&mut out, c[i].0.as_str());
        proof {
            if i == 0 {
                assert(lv.take(1) =~= seq![lv[0]]);
                assert(out@ =~= lv[0]);
            }
        }
        i = i + 1;
    }
    assert(lv.take(kept as int) =~= lv);
    out
}

/// Lays out the matches (see `grep_output`): `path_ok` says which matched
/// paths passed the sandbox, `files` holds the lines of the files read.
pub fn format_grep_matches(
    matches: &[RgMatch],
    path_ok: &[bool],
    files: &[(String, Vec<String>)],
    workspace: &str,
    match_limit: usize,
    context_lines: usize,
    max_line_bytes: usize,
    max_output_bytes: usize,
) -> (r: String)
    requires
        path_ok@.len() == matches@.len(),
        matches@.len() > match_limit ==> match_limit * 2 <= usize::MAX,
    ensures
        r@ == grep_output(
            match_views(matches@),
            path_ok@,
            files_view(files@),
            workspace@,
            match_limit as nat,
            context_lines as int,
            max_line_bytes as nat,
            max_output_bytes as nat,
        ),
{
    let ghost mv = match_views(matches@);
    let ghost fv = files_view(files@);
    let n = matches.len();
    let cap: usize = if n < match_limit {
        n
    } else {
        match_limit
    };
    let ghost capped = mv.take(cap as int);
    let mut c: Vec<(String, bool)> = Vec::new();
    let mut i: usize = 0;
    while i < cap
        invariant
            i <= cap <= n == matches@.len() == path_ok@.len(),
            mv == match_views(matches@),
            fv == files_view(files@),
            capped == mv.take(cap as int),
            cand_view(c@) == candidates(
                capped.take(i as int),
                path_ok@,
                fv,
                workspace@,
                context_lines as int,
                max_line_bytes as nat,
            ),
        decreases cap - i,
    {
        assert(capped.take(i as int + 1).take(i as int) =~= capped.take(i as int));
        assert(capped.take(i as int + 1)[i as int] == mv[i as int]);
        if path_ok[i] {
            let rel = relative_path(matches[i].file_path.as_str(), workspace);
            let ls = lines_of_file(files, matches[i].file_path.as_str());
            push_block(&mut c, rel.as_str(), matches[i].line_number, ls, context_lines, max_line_bytes);
        }
        i = i + 1;
    }
    assert(capped.take(cap as int) =~= capped);
    let ghost cv = cand_view(c@);
    if cap == 0 {
        return owned("No matches found");
    }
    let mut used: u128 = 0;
    let mut k: usize = 0;
    let mut cut = false;
    let mut stopped = false;
    while k < c.len() && !stopped
        invariant
            k <= c@.len(),
            cv == cand_view(c@),
            used <= max_output_bytes,
            kept_from(cv, 0, 0, max_output_bytes as nat) == if stopped {
                k as int
            } else {
                kept_from(cv, k as int, used as nat, max_output_bytes as nat)
            },
            stopped ==> k < c@.len() && cut == exists|j: int| 0 <= j <= k && #[trigger] cv[j].1,
            !stopped ==> cut == exists|j: int| 0 <= j < k && #[trigger] cv[j].1,
        decreases c.len() - k + (if stopped { 0int } else { 1int }),
    {
        let size = crate::text::byte_len(c[k].0.as_str());
        proof {
            assert(cv[k as int].0 == c@[k as int].0@);
        }
        let here = c[k].1;
        let ghost pre = cut;
        cut = cut || here;
        proof {
            assert(cv[k as int].1 == here);
            if here {
                assert(0 <= k <= k && cv[k as int].1);
            }
            assert((exists|j: int| 0 <= j <= k && #[trigger] cv[j].1) == (pre || here)) by {
                if exists|j: int| 0 <= j <= k && #[trigger] cv[j].1 {
                    let j = choose|j: int| 0 <= j <= k && #[trigger] cv[j].1;
                    if j < k {
                        assert(0 <= j < k && cv[j].1);
                    }
                }
            }
        }
        if used + (size as u128) + 1 > (max_output_bytes as u128) {
            stopped = true;
        } else {
            used = used + (size as u128) + 1;
            k = k + 1;
        }
    }
    let kept = k;
    let bytes_hit = stopped;
    assert(kept_from(cv, 0, 0, max_output_bytes as nat) == kept as int);
    if kept == 0 {
        return owned("No matches found");
    }
    let mut out = join_kept(c.as_slice(), kept);
    let ghost base = out@;
    let mut notes: Vec<String> = Vec::new();
    if n > match_limit {
        let mut m = decimal_string(match_limit as u64);
        push_str(&mut m, " matches limit reached. Use limit=");
        let d = decimal_string((match_limit * 2) as u64);
        push_str(&mut m, d.as_str());
        push_str(&mut m, " for more, or refine pattern");
        notes.push(m);
    }
    if bytes_hit {
        let mut m = format_size(max_output_bytes);
        push_str(&mut m, " limit reached");
        notes.push(m);
    }
    if cut {
        let mut m = owned("Some lines truncated to ");
        let d = decimal_string(max_line_bytes as u64);
        push_str(&mut m, d.as_str());
        push_str(&mut m, " chars. Use read tool to see full lines");
        notes.push(m);
    }
    let ghost laid = if kept < cv.len() {
        kept + 1
    } else {
        kept as int
    };
    assert(cut == exists|j: int| 0 <= j < laid && #[trigger] cv[j].1);
    assert(crate::jail::strs(notes@) =~= grep_notes(
        n > match_limit,
        match_limit as nat,
        bytes_hit,
        max_output_bytes as nat,
        cut,
        max_line_bytes as nat,
    ));
    if notes.len() > 0 {
        push_str(&mut out, "\n\n[");
        let j = join_parts(notes.as_slice(), ". ");
        push_str(&mut out, j.as_str());
        push_str(&mut out, "]");
        assert(out@ =~= base + ("\n\n["@ + joined_with(crate::jail::strs(notes@), ". "@) + "]"@));
    } else {
        assert(out@ =~= base + Seq::<char>::empty());
    }
    proof {
        let cs = candidates(
            mv.take(cap as int),
            path_ok@,
            fv,
            workspace@,
            context_lines as int,
            max_line_bytes as nat,
        );
        assert(cs == cv);
        let ks = kept_from(cs, 0, 0, max_output_bytes as nat);
        assert(ks == kept);
        let cut_s = any_cut(cs, laid);
        assert(cut_s == cut);
        assert(base == joined_lines(cs.take(ks).map_values(|x: (Seq<char>, bool)| x.0)));
        assert(bytes_hit == (kept < cv.len()));
        assert(mv.len() == n);
        let ns = grep_notes(
            mv.len() > match_limit,
            match_limit as nat,
            ks < cs.len(),
            max_output_bytes as nat,
            cut_s,
            max_line_bytes as nat,
        );
        assert(ns == crate::jail::strs(notes@));
        assert(ns.len() == notes@.len());
        let tail = if ns.len() == 0 {
            Seq::<char>::empty()
        } else {
            "\n\n["@ + joined_with(ns, ". "@) + "]"@
        };
        assert(out@ == base + tail);
        assert(!(cap == 0 || ks == 0));
        assert(out@ == grep_output(
            mv,
            path_ok@,
            fv,
            workspace@,
            match_limit as nat,
            context_lines as int,
            max_line_bytes as nat,
            max_output_bytes as nat,
        ));
    }
    out
}


// ---------------------------------------------------------------------------
// The tool
// ---------------------------------------------------------------------------

/// The `grep` tool.
#[derive(Debug)]
pub struct GrepTool {
    pub workspace: String,
    pub sandbox: crate::tool::Sandbox,
    /// The `rg` binary to run in place of the one on the search path.
    pub rg_binary: Option<String>,
}

/// What a `grep` call asks for (its `context` and `limit`, numbers that may
/// be fractional, are read by the caller).
#[derive(Debug)]
pub struct GrepRequest {
    pub pattern: String,
    /// The path searched, `.` when none is given.
    pub path: String,
    pub glob: Option<String>,
    pub ignore_case: bool,
    pub literal: bool,
}

impl GrepTool {
    pub fn new(workspace: String, sandbox: crate::tool::Sandbox) -> (t: GrepTool)
        ensures
            t.workspace@ == workspace@,
            t.rg_binary is None,
    {
        GrepTool { workspace, sandbox, rg_binary: None }
    }

    /// The tool running the given `rg` binary.
    pub fn with_rg_binary(workspace: String, sandbox: crate::tool::Sandbox, rg_binary: String) -> (t:
        GrepTool)
        ensures
            t.workspace@ == workspace@,
            t.rg_binary == Some(rg_binary),
    {
        GrepTool { workspace, sandbox, rg_binary: Some(rg_binary) }
    }

    /// The `rg` to run: the one given, or `rg`.
    pub fn rg_cmd(&self) -> (r: String)
        ensures
            r@ == match self.rg_binary {
                Some(b) => b@,
                None => "rg"@,
            },
    {
        match &self.rg_binary {
            Some(b) => b.clone(),
            None => owned("rg"),
        }
    }

    pub fn definition(&self) -> (d: crate::tool::ToolDefinition)
        ensures
            d.name@ == "grep"@,
            d.description@ == GREP_DESCRIPTION@,
            d.parameters_schema@ == GREP_SCHEMA@,
    {
        crate::tool::ToolDefinition {
            name: owned("grep"),
            description: owned(GREP_DESCRIPTION),
            parameters_schema: owned(GREP_SCHEMA),
        }
    }
}

/// The reply to a call without a string `pattern`.
pub open spec fn missing_pattern_text() -> Seq<char> {
    "missing 'pattern' argument. Example: {\"pattern\": \"search_term\"}"@
}

/// Reads a `grep` call: `Err(Err(message))` when it is not JSON (a tool
/// failure), `Err(Ok(reply))` without a string `pattern`; otherwise the
/// pattern, the path (`.` by default), the glob and the two switches
/// (false by default).
pub fn parse_grep_args(arguments: &str) -> (r: Result<GrepRequest, Result<crate::tool::ToolResult, String>>)
    ensures
        json_string_member(arguments@, "pattern"@) is None ==> (r matches Err(Err(_))),
        json_string_member(arguments@, "pattern"@) == Some(None::<Seq<char>>) ==> (r matches Err(
            Ok(x),
        ) && x.is_error && x.content@ == missing_pattern_text()),
        r matches Ok(q) ==> {
            &&& json_string_member(arguments@, "pattern"@) == Some(Some(q.pattern@))
            &&& (json_string_member(arguments@, "path"@) matches Some(pv) && q.path@ == match pv {
                Some(p) => p,
                None => "."@,
            })
            &&& json_string_member(arguments@, "glob"@) == Some(crate::exec::opt_view(q.glob))
            &&& crate::tool::json_bool_member_of(arguments@, "ignoreCase"@) is Some
            &&& q.ignore_case == (crate::tool::json_bool_member_of(arguments@, "ignoreCase"@) == Some(
                Some(true),
            ))
            &&& q.literal == (crate::tool::json_bool_member_of(arguments@, "literal"@) == Some(
                Some(true),
            ))
        },
        (json_string_member(arguments@, "pattern"@) matches Some(Some(_))) && json_string_member(
            arguments@,
            "path"@,
        ) is Some && json_string_member(arguments@, "glob"@) is Some
            && crate::tool::json_bool_member_of(arguments@, "ignoreCase"@) is Some
            && crate::tool::json_bool_member_of(arguments@, "literal"@) is Some ==> r is Ok,
{
    let pattern = match json_str_member(arguments, "pattern") {
        Err(e) => {
            return Err(Err(e));
        },
        Ok(None) => {
            return Err(
                Ok(
                    crate::tool::ToolResult::error(
                        owned(
                            "missing 'pattern' argument. Example: {\"pattern\": \"search_term\"}",
                        ),
                    ),
                ),
            );
        },
        Ok(Some(p)) => p,
    };
    let path = match json_str_member(arguments, "path") {
        Err(e) => {
            return Err(Err(e));
        },
        Ok(None) => owned("."),
        Ok(Some(p)) => p,
    };
    let glob = match json_str_member(arguments, "glob") {
        Err(e) => {
            return Err(Err(e));
        },
        Ok(g) => g,
    };
    let ignore_case = match crate::tool::json_bool_member(arguments, "ignoreCase") {
        Err(e) => {
            return Err(Err(e));
        },
        Ok(b) => b == Some(true),
    };
    let literal = match crate::tool::json_bool_member(arguments, "literal") {
        Err(e) => {
            return Err(Err(e));
        },
        Ok(b) => b == Some(true),
    };
    Ok(GrepRequest { pattern, path, glob, ignore_case, literal })
}

/// The arguments `rg` is run with: JSON output with line numbers, no
/// colour, hidden files searched, the two switches and the glob when
/// asked, then the pattern and the path after `--`.
pub open spec fn rg_args(
    pattern: Seq<char>,
    full_path: Seq<char>,
    glob: Option<Seq<char>>,
    ignore_case: bool,
    literal: bool,
) -> Seq<Seq<char>> {
    seq!["--json"@, "--line-number"@, "--color=never"@, "--hidden"@] + (if ignore_case {
        seq!["--ignore-case"@]
    } else {
        seq![]
    }) + (if literal {
        seq!["--fixed-strings"@]
    } else {
        seq![]
    }) + (match glob {
        Some(g) => seq!["--glob"@, g],
        None => seq![],
    }) + seq!["--"@, pattern, full_path]
}

/// The `rg` command for a request, run in the workspace.
pub fn build_rg_command(rg_cmd: &str, workspace: &str, req: &GrepRequest, full_path: &str) -> (r:
    crate::jail::CommandSpec)
    ensures
        r.program@ == rg_cmd@,
        r.current_dir@ == workspace@,
        crate::jail::strs(r.args@) == rg_args(
            req.pattern@,
            full_path@,
            crate::exec::opt_view(req.glob),
            req.ignore_case,
            req.literal,
        ),
        r.env@.len() == 0,
{
    let mut args: Vec<String> = Vec::new();
    crate::jail::push_string(&mut args, owned("--json"));
    crate::jail::push_string(&mut args, owned("--line-number"));
    crate::jail::push_string(&mut args, owned("--color=never"));
    crate::jail::push_string(&mut args, owned("--hidden"));
    let ghost a0 = crate::jail::strs(args@);
    if req.ignore_case {
        crate::jail::push_string(&mut args, owned("--ignore-case"));
    }
    let ghost a1 = crate::jail::strs(args@);
    assert(a1 =~= a0 + (if req.ignore_case {
        seq!["--ignore-case"@]
    } else {
        seq![]
    }));
    if req.literal {
        crate::jail::push_string(&mut args, owned("--fixed-strings"));
    }
    let ghost a2 = crate::jail::strs(args@);
    assert(a2 =~= a1 + (if req.literal {
        seq!["--fixed-strings"@]
    } else {
        seq![]
    }));
    match &req.glob {
        Some(g) => {
            crate::jail::push_string(&mut args, owned("--glob"));
            crate::jail::push_string(&mut args, g.clone());
        },
        None => {},
    }
    let ghost a3 = crate::jail::strs(args@);
    assert(a3 =~= a2 + (match crate::exec::opt_view(req.glob) {
        Some(g) => seq!["--glob"@, g],
        None => seq![],
    }));
    crate::jail::push_string(&mut args, owned("--"));
    crate::jail::push_string(&mut args, req.pattern.clone());
    crate::jail::push_string(&mut args, owned(full_path));
    assert(crate::jail::strs(args@) =~= rg_args(
        req.pattern@,
        full_path@,
        crate::exec::opt_view(req.glob),
        req.ignore_case,
        req.literal,
    ));
    crate::jail::CommandSpec {
        program: owned(rg_cmd),
        args,
        current_dir: owned(workspace),
        env: Vec::new(),
    }
}

/// `rg` failed: it exited with 2 or more, or was killed without printing
/// anything.
pub open spec fn rg_failed(exit_code: Option<i32>, stdout_empty: bool) -> bool {
    match exit_code {
        Some(c) => c >= 2,
        None => stdout_empty,
    }
}

/// The reply when `rg` failed (see `rg_failed`): its trimmed error output,
/// or a note that it exited unexpectedly; `None` when it did not fail.
pub fn rg_failure(exit_code: Option<i32>, stdout_empty: bool, stderr: &str) -> (r: Option<
    crate::tool::ToolResult,
>)
    ensures
        !rg_failed(exit_code, stdout_empty) ==> r is None,
        rg_failed(exit_code, stdout_empty) ==> (r matches Some(x) && x.is_error && x.content@ == if trim(
            stderr@,
        ).len() == 0 {
            "rg exited unexpectedly"@
        } else {
            "grep error: "@ + trim(stderr@)
        }),
{
    let failed = match exit_code {
        Some(c) => c >= 2,
        None => stdout_empty,
    };
    if !failed {
        return None;
    }
    let cs = chars_of(stderr);
    let (a, b) = trim_bounds(cs.as_slice());
    if a == b {
        return Some(crate::tool::ToolResult::error(owned("rg exited unexpectedly")));
    }
    let mut m = owned("grep error: ");
    let t = string_from_chars(&cs.as_slice()[a..b]);
    push_str(&mut m, t.as_str());
    Some(crate::tool::ToolResult::error(m))
}


/// The description of the `grep` tool.
pub const GREP_DESCRIPTION: &'static str = "Search file contents using ripgrep (rg). Requires rg on PATH. Returns file:line:content matches with optional context lines (file-N- format). Output capped at 100 matches or 50KB. Example: {\"pattern\": \"search_term\"}";

/// The parameter schema of the `grep` tool.
pub const GREP_SCHEMA: &'static str = "{\n                \"type\": \"object\",\n                \"properties\": {\n                    \"pattern\":    {\"type\":\"string\",\"description\":\"Search pattern (regex or literal)\"},\n                    \"path\":       {\"type\":\"string\",\"description\":\"Directory or file to search (defaults to '.')\"},\n                    \"glob\":       {\"type\":\"string\",\"description\":\"Glob pattern to filter files, e.g. '*.rs'\"},\n                    \"ignoreCase\": {\"type\":\"boolean\",\"description\":\"Case-insensitive search\"},\n                    \"literal\":    {\"type\":\"boolean\",\"description\":\"Treat pattern as literal string\"},\n                    \"context\":    {\"type\":\"number\",\"description\":\"Context lines before and after each match\"},\n                    \"limit\":      {\"type\":\"number\",\"description\":\"Maximum matches to return (default 100)\"}\n                },\n                \"required\": [\"pattern\"]\n            }";


/// With context `ctx > 0`, the block of a match on line `line` of a file of
/// `ls.len()` lines shows exactly the file's lines from the later of line 1
/// and `line - ctx` to the earlier of the last line and `line + ctx`, in
/// order, the match marked with `:` and the others with `-`: no existing
/// line within `ctx` of the match is left out.
pub proof fn law_block_shows_context_lines(
    rel: Seq<char>,
    line: int,
    ls: Seq<Seq<char>>,
    ctx: int,
    max_line: nat,
)
    requires
        ctx > 0,
        1 <= line <= ls.len(),
    ensures
        ({
            let first = if line - ctx >= 1 { line - ctx } else { 1 };
            let last = if line + ctx <= ls.len() { line + ctx } else { ls.len() as int };
            let b = block_lines(rel, line, ls, ctx, max_line);
            &&& first <= line <= last
            &&& b.len() == last - first + 1
            &&& forall|j: int|
                0 <= j < b.len() ==> #[trigger] b[j].0 == grep_line(
                    rel,
                    (first + j) as nat,
                    first + j == line,
                    shown_text(strip_newlines(line_at(ls, first + j)), max_line).0,
                )
        }),
        forall|k: int|
            #![trigger line_at(ls, k)]
            1 <= k <= ls.len() && line - ctx <= k <= line + ctx ==> {
                let first = if line - ctx >= 1 { line - ctx } else { 1 };
                let b = block_lines(rel, line, ls, ctx, max_line);
                0 <= k - first < b.len() && b[k - first].0 == grep_line(
                    rel,
                    k as nat,
                    k == line,
                    shown_text(strip_newlines(line_at(ls, k)), max_line).0,
                )
            },
{
}

} // verus!
