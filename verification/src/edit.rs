//! The `edit` tool: replaces one exact occurrence of a text in a file,
//! falling back to a fuzzy match (typographic quotes, dashes and spaces,
//! trailing whitespace) when there is no exact one; keeps the file's line
//! endings and byte-order mark; refuses ambiguous and no-op edits; and
//! replies with a numbered line diff of the change.
//!
//! Reading and writing the file happen in the caller.

use vstd::prelude::*;

use crate::jail::strs;
use crate::text::{
    chars_of, decimal, decimal_string_wide, find_chars, find_from, join_lines, join_lines_exec,
    lemma_find_from_contains,
    lines, lines_of, occurs_at, owned, push_char, push_chars, push_str, string_from_chars,
    trim_end, utf8_size,
};
use crate::tool::{
    json_str_member, json_string_member, DomainError, Sandbox, ToolDefinition, ToolResult,
};

verus! {

// ---------------------------------------------------------------------------
// Line endings and byte-order mark
// ---------------------------------------------------------------------------

/// The line-ending style of a file.
#[derive(Debug, Clone, Copy, PartialEq, Eq, Structural)]
pub enum LineEnding {
    Lf,
    Crlf,
}

/// The byte-order mark.
pub open spec fn bom() -> char {
    '\u{FEFF}'
}

/// CRLF when the first `\r\n` comes no later than the first `\n` (that is,
/// the first newline is part of a CRLF); LF otherwise.
pub open spec fn line_ending_of(s: Seq<char>) -> LineEnding {
    match (find_from(s, seq!['\r', '\n'], 0), find_from(s, seq!['\n'], 0)) {
        (Some(cr), Some(lf)) => if cr <= lf {
            LineEnding::Crlf
        } else {
            LineEnding::Lf
        },
        _ => LineEnding::Lf,
    }
}

/// Detects the line-ending style of a file's text.
pub fn detect_line_ending(s: &[char]) -> (r: LineEnding)
    ensures
        r == line_ending_of(s@),
{
    let crlf: [char; 2] = ['\r', '\n'];
    let lf: [char; 1] = ['\n'];
    assert(crlf@ =~= seq!['\r', '\n']);
    assert(lf@ =~= seq!['\n']);
    match (find_chars(s, crlf.as_slice(), 0), find_chars(s, lf.as_slice(), 0)) {
        (Some(cr), Some(l)) => if cr <= l {
            LineEnding::Crlf
        } else {
            LineEnding::Lf
        },
        _ => LineEnding::Lf,
    }
}

/// `s` with every `\n` written as `\r\n`.
pub open spec fn lf_to_crlf(s: Seq<char>) -> Seq<char>
    decreases s.len(),
{
    if s.len() == 0 {
        Seq::empty()
    } else {
        lf_to_crlf(s.drop_last()) + if s.last() == '\n' {
            seq!['\r', '\n']
        } else {
            seq![s.last()]
        }
    }
}

/// The text to write back: LF text converted to the file's line endings,
/// with the byte-order mark put back when the file had one.
pub open spec fn restored(lf: Seq<char>, ending: LineEnding, has_bom: bool) -> Seq<char> {
    let body = if ending == LineEnding::Crlf {
        lf_to_crlf(lf)
    } else {
        lf
    };
    if has_bom {
        seq![bom()] + body
    } else {
        body
    }
}

/// Restores a file's line endings and byte-order mark (see `restored`).
pub fn restore_file_format(lf: &[char], ending: LineEnding, has_bom: bool) -> (r: String)
    ensures
        r@ == restored(lf@, ending, has_bom),
{
    let mut out = String::new();
    if has_bom {
        push_char(&mut out, '\u{FEFF}');
    }
    let ghost head = out@;
    if ending == LineEnding::Crlf {
        let mut i: usize = 0;
        while i < lf.len()
            invariant
                i <= lf.len(),
                out@ == head + lf_to_crlf(lf@.take(i as int)),
            decreases lf.len() - i,
        {
            assert(lf@.take(i as int + 1).drop_last() =~= lf@.take(i as int));
            if lf[i] == '\n' {
                push_char(&mut out, '\r');
                push_char(&mut out, '\n');
            } else {
                push_char(&mut out, lf[i]);
            }
            assert(out@ =~= head + lf_to_crlf(lf@.take(i as int + 1)));
            i = i + 1;
        }
        assert(lf@.take(lf.len() as int) =~= lf@);
    } else {
        push_chars(&mut out, lf);
    }
    assert(out@ =~= restored(lf@, ending, has_bom));
    out
}

/// `s` from index `i` on with `\r\n` and lone `\r` written as `\n`.
pub open spec fn crlf_from(s: Seq<char>, i: int) -> Seq<char>
    decreases s.len() - i,
{
    if i < 0 || i >= s.len() {
        Seq::empty()
    } else if s[i] == '\r' {
        if i + 1 < s.len() && s[i + 1] == '\n' {
            seq!['\n'] + crlf_from(s, i + 2)
        } else {
            seq!['\n'] + crlf_from(s, i + 1)
        }
    } else {
        seq![s[i]] + crlf_from(s, i + 1)
    }
}

/// `s` without a leading byte-order mark.
pub open spec fn without_bom(s: Seq<char>) -> Seq<char> {
    if s.len() > 0 && s[0] == bom() {
        s.drop_first()
    } else {
        s
    }
}

/// The base normal form used for matching: no byte-order mark, LF endings.
pub open spec fn base_normal(s: Seq<char>) -> Seq<char> {
    crlf_from(without_bom(s), 0)
}

/// Strips a byte-order mark and normalizes line endings to LF.
pub fn base_normalise(s: &[char]) -> (r: Vec<char>)
    ensures
        r@ == base_normal(s@),
{
    let start: usize = if s.len() > 0 && s[0] == '\u{FEFF}' {
        1
    } else {
        0
    };
    let ghost t = without_bom(s@);
    assert(t =~= s@.skip(start as int));
    let mut out: Vec<char> = Vec::new();
    let mut i = start;
    assert(out@ + crlf_from(t, 0) =~= crlf_from(t, (i - start) as int));
    while i < s.len()
        invariant
            start <= i <= s.len(),
            t == s@.skip(start as int),
            out@ + crlf_from(t, (i - start) as int) == crlf_from(t, 0),
        decreases s.len() - i,
    {
        let ghost k = (i - start) as int;
        assert(t[k] == s@[i as int]);
        if s[i] == '\r' {
            out.push('\n');
            if i + 1 < s.len() && s[i + 1] == '\n' {
                assert(t[k + 1] == s@[i as int + 1]);
                assert(crlf_from(t, k) == seq!['\n'] + crlf_from(t, k + 2));
                i = i + 2;
            } else {
                proof {
                    if k + 1 < t.len() {
                        assert(t[k + 1] == s@[i as int + 1]);
                    }
                }
                assert(crlf_from(t, k) == seq!['\n'] + crlf_from(t, k + 1));
                i = i + 1;
            }
        } else {
            out.push(s[i]);
            assert(crlf_from(t, k) == seq![s@[i as int]] + crlf_from(t, k + 1));
            i = i + 1;
        }
        assert(out@ + crlf_from(t, (i - start) as int) =~= crlf_from(t, 0));
    }
    assert(crlf_from(t, (i - start) as int) =~= Seq::<char>::empty());
    assert(out@ =~= crlf_from(t, 0));
    out
}

// ---------------------------------------------------------------------------
// Fuzzy matching
// ---------------------------------------------------------------------------

/// Typographic quotes become ASCII quotes, Unicode dashes and the minus
/// sign become `-`, special spaces become `' '`.
pub open spec fn fuzzy(c: char) -> char {
    if c == '\u{2018}' || c == '\u{2019}' || c == '\u{201A}' || c == '\u{201B}' {
        '\''
    } else if c == '\u{201C}' || c == '\u{201D}' || c == '\u{201E}' || c == '\u{201F}' {
        '"'
    } else if ('\u{2010}' <= c && c <= '\u{2015}') || c == '\u{2212}' {
        '-'
    } else if c == '\u{00A0}' || ('\u{2002}' <= c && c <= '\u{200A}') || c == '\u{202F}' || c
        == '\u{205F}' || c == '\u{3000}' {
        ' '
    } else {
        c
    }
}

/// The fuzzy replacement of one character.
pub fn fuzzy_char(c: char) -> (r: char)
    ensures
        r == fuzzy(c),
{
    if c == '\u{2018}' || c == '\u{2019}' || c == '\u{201A}' || c == '\u{201B}' {
        '\''
    } else if c == '\u{201C}' || c == '\u{201D}' || c == '\u{201E}' || c == '\u{201F}' {
        '"'
    } else if ('\u{2010}' <= c && c <= '\u{2015}') || c == '\u{2212}' {
        '-'
    } else if c == '\u{00A0}' || ('\u{2002}' <= c && c <= '\u{200A}') || c == '\u{202F}' || c
        == '\u{205F}' || c == '\u{3000}' {
        ' '
    } else {
        c
    }
}

/// One line for fuzzy matching: trailing whitespace removed, characters
/// replaced by `fuzzy`.
pub open spec fn fuzzy_line(l: Seq<char>) -> Seq<char> {
    trim_end(l).map_values(|c: char| fuzzy(c))
}

/// The fuzzy form of a text: its base form's lines made fuzzy, joined with
/// `\n`, with the final newline kept.
pub open spec fn fuzzy_normal(s: Seq<char>) -> Seq<char> {
    let base = base_normal(s);
    join_lines(lines(base).map_values(|l: Seq<char>| fuzzy_line(l))) + if base.len() > 0
        && base.last() == '\n' {
        seq!['\n']
    } else {
        Seq::empty()
    }
}

fn fuzzy_line_exec(l: &[char]) -> (r: Vec<char>)
    ensures
        r@ == fuzzy_line(l@),
{
    let t = crate::text::trim_end_len(l);
    let mut out: Vec<char> = Vec::new();
    let mut i: usize = 0;
    while i < t
        invariant
            i <= t <= l.len(),
            l@.take(t as int) == trim_end(l@),
            out@ == l@.take(i as int).map_values(|c: char| fuzzy(c)),
        decreases t - i,
    {
        out.push(fuzzy_char(l[i]));
        assert(l@.take(i as int + 1).map_values(|c: char| fuzzy(c)) =~= l@.take(i as int).map_values(
            |c: char| fuzzy(c),
        ).push(fuzzy(l@[i as int])));
        i = i + 1;
    }
    assert(out@ =~= trim_end(l@).map_values(|c: char| fuzzy(c)));
    out
}

/// The fuzzy form of a text (see `fuzzy_normal`).
pub fn normalize_for_fuzzy_match(s: &[char]) -> (r: Vec<char>)
    ensures
        r@ == fuzzy_normal(s@),
{
    let base = base_normalise(s);
    let ls = lines_of(base.as_slice());
    let ghost lv = crate::text::chars_view(ls@);
    let mut fl: Vec<Vec<char>> = Vec::new();
    let mut i: usize = 0;
    while i < ls.len()
        invariant
            i <= ls.len(),
            lv == crate::text::chars_view(ls@),
            lv == lines(base@),
            crate::text::chars_view(fl@) == lv.take(i as int).map_values(
                |l: Seq<char>| fuzzy_line(l),
            ),
        decreases ls.len() - i,
    {
        let f = fuzzy_line_exec(ls[i].as_slice());
        let ghost before = fl@;
        fl.push(f);
        assert(lv[i as int] == ls@[i as int]@);
        assert(crate::text::chars_view(fl@) =~= crate::text::chars_view(before).push(f@));
        assert(lv.take(i as int + 1).map_values(|l: Seq<char>| fuzzy_line(l)) =~= lv.take(
            i as int,
        ).map_values(|l: Seq<char>| fuzzy_line(l)).push(fuzzy_line(lv[i as int])));
        i = i + 1;
    }
    assert(lv.take(ls.len() as int) =~= lv);
    let joined = join_lines_exec(fl.as_slice());
    let mut out = chars_of(joined.as_str());
    if base.len() > 0 && base[base.len() - 1] == '\n' {
        out.push('\n');
    }
    assert(out@ =~= fuzzy_normal(s@));
    out
}

// ---------------------------------------------------------------------------
// Occurrences
// ---------------------------------------------------------------------------

/// The number of non-overlapping occurrences of a non-empty `needle` in
/// `hay` from `start` on, counted left to right; counting stops once
/// `budget` are found (a budget of 0 counts like 1).
pub open spec fn occurrences(hay: Seq<char>, needle: Seq<char>, start: int, budget: nat) -> nat
    decreases budget,
{
    if needle.len() == 0 {
        0
    } else {
        match find_from(hay, needle, start) {
            None => 0,
            Some(p) => 1 + if budget <= 1 {
                0
            } else {
                occurrences(hay, needle, p + needle.len(), (budget - 1) as nat)
            },
        }
    }
}

/// Counts the occurrences of `needle` in `hay`, stopping once `cap` are
/// found, and finds the first one; an empty needle occurs nowhere.
pub fn count_occurrences_capped(hay: &[char], needle: &[char], cap: usize) -> (r: (
    usize,
    Option<usize>,
))
    ensures
        r.0 == occurrences(hay@, needle@, 0, cap as nat),
        needle@.len() == 0 ==> r.1 is None,
        needle@.len() > 0 ==> match r.1 {
            Some(i) => find_from(hay@, needle@, 0) == Some(i as int),
            None => find_from(hay@, needle@, 0) is None,
        },
{
    if needle.len() == 0 {
        return (0, None);
    }
    let mut count: usize = 0;
    let mut first: Option<usize> = None;
    let mut start: usize = 0;
    let n = hay.len();
    loop
        invariant
            needle@.len() > 0,
            n == hay@.len(),
            start <= n,
            count == 0 || count < cap,
            occurrences(hay@, needle@, 0, cap as nat) == count + occurrences(
                hay@,
                needle@,
                start as int,
                (cap - count) as nat,
            ),
            count == 0 ==> start == 0 && first is None,
            count > 0 ==> (first matches Some(f) && find_from(hay@, needle@, 0) == Some(f as int)),
        decreases n + 1 - start,
    {
        match find_chars(hay, needle, start) {
            None => {
                return (count, first);
            },
            Some(pos) => {
                proof {
                    crate::text::lemma_find_from_contains(hay@, needle@, start as int);
                }
                assert(occurs_at(hay@, needle@, pos as int));
                if first.is_none() {
                    first = Some(pos);
                }
                count = count + 1;
                if count >= cap {
                    return (count, first);
                }
                start = pos + needle.len();
            },
        }
    }
}

// ---------------------------------------------------------------------------
// Diff
// ---------------------------------------------------------------------------

/// What happened to a line between the old and the new text.
#[derive(Debug, Clone, Copy, PartialEq, Eq, Structural)]
pub enum DiffTag {
    Delete,
    Insert,
    Equal,
}

/// One line of a line diff: what happened to it, its 0-based index in the
/// old and in the new text where it has one, and its text (with its
/// newline).
pub struct DiffLine {
    pub tag: DiffTag,
    pub old_index: Option<usize>,
    pub new_index: Option<usize>,
    pub value: String,
}

/// A diff line as plain values: the tag as 0 (delete), 1 (insert) or 2
/// (equal), the indices and the text.
pub open spec fn diff_line_view(d: DiffLine) -> (int, Option<nat>, Option<nat>, Seq<char>) {
    (
        match d.tag {
            DiffTag::Delete => 0,
            DiffTag::Insert => 1,
            DiffTag::Equal => 2,
        },
        match d.old_index {
            Some(i) => Some(i as nat),
            None => None,
        },
        match d.new_index {
            Some(i) => Some(i as nat),
            None => None,
        },
        d.value@,
    )
}

/// Groups of diff lines as plain values.
pub open spec fn diff_groups_view(g: Seq<Vec<DiffLine>>) -> Seq<
    Seq<(int, Option<nat>, Option<nat>, Seq<char>)>,
> {
    g.map_values(|v: Vec<DiffLine>| v@.map_values(|d: DiffLine| diff_line_view(d)))
}

/// The line diff of `old` and `new` that `similar` computes (an LCS diff
/// of their lines), grouped into hunks with `context` lines of context
/// around the changes.
pub uninterp spec fn line_diff_groups(old: Seq<char>, new: Seq<char>, context: nat) -> Seq<
    Seq<(int, Option<nat>, Option<nat>, Seq<char>)>,
>;

/// `similar::TextDiff::from_lines(old, new).grouped_ops(context)`, each
/// group's changes listed with `iter_changes`.
#[verifier::external_body]
fn grouped_line_diff(old: &str, new: &str, context: usize) -> (r: Vec<Vec<DiffLine>>)
    ensures
        diff_groups_view(r@) == line_diff_groups(old@, new@, context as nat),
{
    let diff = similar::TextDiff::from_lines(old, new);
    let mut groups = Vec::new();
    for group in diff.grouped_ops(context) {
        let mut lines = Vec::new();
        for c in group.iter().flat_map(|op| diff.iter_changes(op)) {
            let tag = match c.tag() { similar::ChangeTag::Delete => DiffTag::Delete, similar::ChangeTag::Insert => DiffTag::Insert, similar::ChangeTag::Equal => DiffTag::Equal };
            lines.push(DiffLine { tag, old_index: c.old_index(), new_index: c.new_index(), value: c.value().to_string() });
        }
        groups.push(lines);
    }
    groups
}

/// Lines of context around each change in the diff.
pub const DIFF_CONTEXT_LINES: usize = 4;

/// Above this many bytes the diff is left out of the reply.
pub const DIFF_MAX_BYTES: usize = 4096;

/// `k` spaces.
pub open spec fn spaces(k: nat) -> Seq<char> {
    Seq::new(k, |i: int| ' ')
}

/// `n` right-aligned in `width` columns.
pub open spec fn padded(n: nat, width: nat) -> Seq<char> {
    let d = decimal(n);
    if d.len() < width {
        spaces((width - d.len()) as nat) + d
    } else {
        d
    }
}

/// `s` without its trailing newlines.
pub open spec fn without_trailing_newlines(s: Seq<char>) -> Seq<char>
    decreases s.len(),
{
    if s.len() > 0 && s.last() == '\n' {
        without_trailing_newlines(s.drop_last())
    } else {
        s
    }
}

/// A diff line rendered: `-`, `+` or a space, the 1-based line number
/// (old numbering for removed and kept lines, new numbering for added
/// ones) right-aligned, a space, and the line.
pub open spec fn rendered_change(c: (int, Option<nat>, Option<nat>, Seq<char>), width: nat) -> Seq<char> {
    let idx = if c.0 == 1 {
        c.2
    } else {
        c.1
    };
    let n: nat = match idx {
        Some(i) => i + 1,
        None => 1,
    };
    let sign = if c.0 == 0 {
        '-'
    } else if c.0 == 1 {
        '+'
    } else {
        ' '
    };
    seq![sign] + padded(n, width) + seq![' '] + without_trailing_newlines(c.3)
}

/// The separator between hunks.
pub open spec fn hunk_gap(width: nat) -> Seq<char> {
    seq![' '] + spaces(width) + " ..."@
}

/// The rendered lines of the hunks, with a separator between hunks.
pub open spec fn rendered_hunks(
    groups: Seq<Seq<(int, Option<nat>, Option<nat>, Seq<char>)>>,
    width: nat,
) -> Seq<Seq<char>>
    decreases groups.len(),
{
    if groups.len() == 0 {
        Seq::empty()
    } else {
        rendered_hunks(groups.drop_last(), width) + (if groups.len() > 1 {
            seq![hunk_gap(width)]
        } else {
            Seq::empty()
        }) + groups.last().map_values(|c: (int, Option<nat>, Option<nat>, Seq<char>)| rendered_change(c, width))
    }
}

/// The width of line numbers: the digits of the larger line count of the
/// two texts, at least one.
pub open spec fn number_width(old: Seq<char>, new: Seq<char>) -> nat {
    let m = if lines(old).len() >= lines(new).len() {
        lines(old).len()
    } else {
        lines(new).len()
    };
    if m == 0 {
        1
    } else {
        decimal(m).len()
    }
}

/// The reply of a successful edit: the success line, a blank line and the
/// numbered diff of the change; only the success line when that would be
/// over `DIFF_MAX_BYTES` bytes.
pub open spec fn edit_reply(path: Seq<char>, old: Seq<char>, new: Seq<char>) -> Seq<char> {
    let width = number_width(old, new);
    let body = "Successfully edited "@ + path + "\n\n"@ + crate::filesystem::joined(
        rendered_hunks(line_diff_groups(old, new, DIFF_CONTEXT_LINES as nat), width),
    );
    if crate::text::byte_count(body) > DIFF_MAX_BYTES {
        "Successfully edited "@ + path
    } else {
        body
    }
}

fn spaces_exec(k: usize) -> (r: String)
    ensures
        r@ == spaces(k as nat),
{
    let mut out = String::new();
    let mut i: usize = 0;
    while i < k
        invariant
            i <= k,
            out@ == spaces(i as nat),
        decreases k - i,
    {
        push_char(&mut out, ' ');
        assert(out@ =~= spaces(i as nat + 1));
        i = i + 1;
    }
    out
}

fn padded_exec(n: u128, width: usize) -> (r: String)
    ensures
        r@ == padded(n as nat, width as nat),
{
    let d = crate::text::decimal_chars_wide(n);
    if d.len() < width {
        let mut out = spaces_exec(width - d.len());
        push_chars(&mut out, d.as_slice());
        out
    } else {
        string_from_chars(d.as_slice())
    }
}

fn strip_trailing_newlines(s: &str) -> (r: Vec<char>)
    ensures
        r@ == without_trailing_newlines(s@),
{
    let mut cs = chars_of(s);
    while cs.len() > 0 && cs[cs.len() - 1] == '\n'
        invariant
            without_trailing_newlines(cs@) == without_trailing_newlines(s@),
        decreases cs.len(),
    {
        let ghost before = cs@;
        cs.pop();
        assert(cs@ =~= before.drop_last());
    }
    cs
}

fn render_change(d: &DiffLine, width: usize) -> (r: String)
    ensures
        r@ == rendered_change(diff_line_view(*d), width as nat),
{
    let idx = if d.tag == DiffTag::Insert {
        d.new_index
    } else {
        d.old_index
    };
    let n: u128 = match idx {
        Some(i) => (i as u128) + 1,
        None => 1,
    };
    let sign = if d.tag == DiffTag::Delete {
        '-'
    } else if d.tag == DiffTag::Insert {
        '+'
    } else {
        ' '
    };
    let mut out = String::new();
    push_char(&mut out, sign);
    let p = padded_exec(n, width);
    push_str(&mut out, p.as_str());
    push_char(&mut out, ' ');
    let line = strip_trailing_newlines(d.value.as_str());
    push_chars(&mut out, line.as_slice());
    out
}

/// Renders the hunks of a diff (see `rendered_hunks`).
pub fn render_hunks(groups: &[Vec<DiffLine>], width: usize) -> (r: Vec<String>)
    ensures
        strs(r@) == rendered_hunks(diff_groups_view(groups@), width as nat),
{
    let ghost gv = diff_groups_view(groups@);
    let mut out: Vec<String> = Vec::new();
    let mut g: usize = 0;
    assert(gv.take(0) =~= Seq::<Seq<(int, Option<nat>, Option<nat>, Seq<char>)>>::empty());
    assert(strs(out@) =~= rendered_hunks(gv.take(0), width as nat));
    while g < groups.len()
        invariant
            g <= groups.len(),
            gv == diff_groups_view(groups@),
            strs(out@) == rendered_hunks(gv.take(g as int), width as nat),
        decreases groups.len() - g,
    {
        let ghost pre = strs(out@);
        assert(gv.take(g as int + 1).drop_last() =~= gv.take(g as int));
        if g > 0 {
            let mut gap = String::new();
            push_char(&mut gap, ' ');
            let sp = spaces_exec(width);
            push_str(&mut gap, sp.as_str());
            push_str(&mut gap, " ...");
            crate::jail::push_string(&mut out, gap);
        }
        let ghost mid = strs(out@);
        assert(mid =~= pre + (if g > 0 {
            seq![hunk_gap(width as nat)]
        } else {
            Seq::<Seq<char>>::empty()
        }));
        let group = &groups[g];
        let ghost gl = group@.map_values(|d: DiffLine| diff_line_view(d));
        assert(gv[g as int] == gl);
        let mut j: usize = 0;
        while j < group.len()
            invariant
                j <= group.len(),
                gl == group@.map_values(|d: DiffLine| diff_line_view(d)),
                strs(out@) == mid + gl.take(j as int).map_values(
                    |c: (int, Option<nat>, Option<nat>, Seq<char>)| rendered_change(c, width as nat),
                ),
            decreases group.len() - j,
        {
            let line = render_change(&group[j], width);
            let ghost before = strs(out@);
            crate::jail::push_string(&mut out, line);
            assert(gl.take(j as int + 1).map_values(
                |c: (int, Option<nat>, Option<nat>, Seq<char>)| rendered_change(c, width as nat),
            ) =~= gl.take(j as int).map_values(
                |c: (int, Option<nat>, Option<nat>, Seq<char>)| rendered_change(c, width as nat),
            ).push(rendered_change(gl[j as int], width as nat)));
            j = j + 1;
        }
        assert(gl.take(group.len() as int) =~= gl);
        assert(strs(out@) =~= rendered_hunks(gv.take(g as int + 1), width as nat));
        g = g + 1;
    }
    assert(gv.take(groups.len() as int) =~= gv);
    out
}

/// The reply of a successful edit of `old` into `new` (see `edit_reply`).
pub fn make_edit_diff(path: &str, old: &str, new: &str) -> (r: String)
    ensures
        r@ == edit_reply(path@, old@, new@),
{
    let groups = grouped_line_diff(old, new, DIFF_CONTEXT_LINES);
    let ol = lines_of(chars_of(old).as_slice()).len();
    let nl = lines_of(chars_of(new).as_slice()).len();
    let m = if ol >= nl {
        ol
    } else {
        nl
    };
    let width: usize = if m == 0 {
        1
    } else {
        crate::text::decimal_chars_wide(m as u128).len()
    };
    let rendered = render_hunks(groups.as_slice(), width);
    let mut body = owned("Successfully edited ");
    push_str(&mut body, path);
    push_str(&mut body, "\n\n");
    let j = crate::filesystem::join_with_newlines(rendered.as_slice());
    push_str(&mut body, j.as_str());
    if crate::text::byte_len(body.as_str()) > DIFF_MAX_BYTES {
        let mut short = owned("Successfully edited ");
        push_str(&mut short, path);
        short
    } else {
        body
    }
}

// ---------------------------------------------------------------------------
// The tool
// ---------------------------------------------------------------------------

/// The `edit` tool.
pub struct EditTool {
    pub workspace: String,
    pub sandbox: Sandbox,
}

/// An edit request: the path as given, the text to replace and its
/// replacement.
pub struct EditRequest {
    pub path: String,
    pub old_text: String,
    pub new_text: String,
}

/// The example appended to argument errors.
pub open spec fn edit_example() -> Seq<char> {
    "{\"path\": \"file.txt\", \"oldText\": \"old\", \"newText\": \"new\"}"@
}

/// The error text for a missing argument.
pub open spec fn missing_arg_msg(param: Seq<char>) -> Seq<char> {
    "missing '"@ + param + "' argument. Example: "@ + edit_example()
}

/// The error text for arguments that are not JSON.
pub open spec fn edit_invalid_json_msg(parser_msg: Seq<char>) -> Seq<char> {
    "invalid JSON arguments: "@ + parser_msg
        + ". Example: {\"path\": \"f.txt\", \"oldText\": \"a\", \"newText\": \"b\"}"@
}

/// The string member `primary`, or else the string member `legacy`, of
/// valid JSON arguments.
pub open spec fn member_or(args: Seq<char>, primary: Seq<char>, legacy: Seq<char>) -> Option<
    Seq<char>,
> {
    match json_string_member(args, primary) {
        Some(Some(v)) => Some(v),
        _ => match json_string_member(args, legacy) {
            Some(Some(v)) => Some(v),
            _ => None,
        },
    }
}

fn missing_arg(param: &str) -> (r: ToolResult)
    ensures
        r.is_error,
        r.content@ == missing_arg_msg(param@),
{
    let mut m = owned("missing '");
    push_str(&mut m, param);
    push_str(&mut m, "' argument. Example: ");
    push_str(&mut m, "{\"path\": \"file.txt\", \"oldText\": \"old\", \"newText\": \"new\"}");
    ToolResult::error(m)
}

fn member_or_exec(args: &str, primary: &str, legacy: &str) -> (r: Option<String>)
    ensures
        match r {
            Some(v) => member_or(args@, primary@, legacy@) == Some(v@),
            None => member_or(args@, primary@, legacy@) is None,
        },
{
    match json_str_member(args, primary) {
        Ok(Some(v)) => Some(v),
        _ => match json_str_member(args, legacy) {
            Ok(Some(v)) => Some(v),
            _ => None,
        },
    }
}

impl EditTool {
    pub fn new(workspace: String, sandbox: Sandbox) -> (t: EditTool)
        ensures
            t.workspace@ == workspace@,
            t.sandbox == sandbox,
    {
        EditTool { workspace, sandbox }
    }

    pub fn definition(&self) -> (d: ToolDefinition)
        ensures
            d.name@ == "edit"@,
            d.description@ == EDIT_DESCRIPTION@,
            d.parameters_schema@ == EDIT_SCHEMA@,
    {
        ToolDefinition {
            name: owned("edit"),
            description: owned(EDIT_DESCRIPTION),
            parameters_schema: owned(EDIT_SCHEMA),
        }
    }

    /// Reads an `edit` call: `path`, `oldText` (or the older `old`) and
    /// `newText` (or `new`); the error result the model reads when the
    /// arguments are not JSON or one is missing.
    pub fn parse_args(&self, arguments: &str) -> (r: Result<EditRequest, ToolResult>)
        ensures
            json_string_member(arguments@, "path"@) is None ==> (r matches Err(e) && e.is_error
                && exists|m: Seq<char>| e.content@ == edit_invalid_json_msg(m)),
            json_string_member(arguments@, "path"@) matches Some(None) ==> (r matches Err(e)
                && e.content@ == missing_arg_msg("path"@)),
            json_string_member(arguments@, "path"@) matches Some(Some(p)) ==> match (
                member_or(arguments@, "oldText"@, "old"@),
                member_or(arguments@, "newText"@, "new"@),
            ) {
                (None, _) => r matches Err(e) && e.content@ == missing_arg_msg("oldText"@),
                (Some(_), None) => r matches Err(e) && e.content@ == missing_arg_msg("newText"@),
                (Some(o), Some(n)) => r matches Ok(q) && q.path@ == p && q.old_text@ == o
                    && q.new_text@ == n,
            },
    {
        let path = match json_str_member(arguments, "path") {
            Err(e) => {
                let mut m = owned("invalid JSON arguments: ");
                push_str(&mut m, e.as_str());
                push_str(
                    &mut m,
                    ". Example: {\"path\": \"f.txt\", \"oldText\": \"a\", \"newText\": \"b\"}",
                );
                assert(m@ == edit_invalid_json_msg(e@));
                return Err(ToolResult::error(m));
            },
            Ok(None) => {
                return Err(missing_arg("path"));
            },
            Ok(Some(p)) => p,
        };
        let old_text = match member_or_exec(arguments, "oldText", "old") {
            Some(o) => o,
            None => {
                return Err(missing_arg("oldText"));
            },
        };
        let new_text = match member_or_exec(arguments, "newText", "new") {
            Some(n) => n,
            None => {
                return Err(missing_arg("newText"));
            },
        };
        Ok(EditRequest { path, old_text, new_text })
    }
}

/// What an edit of a file's text does.
pub enum EditPlan {
    /// Nothing matches `oldText`, exactly or fuzzily.
    NotFound,
    /// `oldText` matches more than once (the count, capped at two).
    Ambiguous(nat),
    /// The replacement leaves the text as it was.
    NoChange,
    /// The new text, in LF form.
    Edited(Seq<char>),
}

/// The text being edited, in base form.
pub open spec fn edit_base(raw: Seq<char>) -> Seq<char> {
    base_normal(raw)
}

/// The plan of an edit. The exact match is sought in the base forms of
/// the file and of `old`; when there is none, the fuzzy forms are used to
/// locate the match. A unique match is replaced by the base form of `new`
/// at the same position of the base text.
pub open spec fn edit_plan(raw: Seq<char>, old: Seq<char>, new: Seq<char>) -> EditPlan {
    let content = base_normal(raw);
    let base_old = base_normal(old);
    let exact = occurrences(content, base_old, 0, 2);
    let fuzzy_old = fuzzy_normal(old);
    let fuzzy_content = fuzzy_normal(content);
    let splice_len: nat = if exact == 0 {
        fuzzy_old.len()
    } else {
        base_old.len()
    };
    let count = if exact == 0 {
        occurrences(fuzzy_content, fuzzy_old, 0, 2)
    } else {
        exact
    };
    let first = if exact == 0 {
        find_from(fuzzy_content, fuzzy_old, 0)
    } else {
        find_from(content, base_old, 0)
    };
    if count == 0 {
        EditPlan::NotFound
    } else if count > 1 {
        EditPlan::Ambiguous(count)
    } else {
        match first {
            Some(off) => if off + splice_len > content.len() {
                EditPlan::NotFound
            } else {
                let updated = content.take(off) + base_normal(new) + content.skip(off + splice_len);
                if updated == content {
                    EditPlan::NoChange
                } else {
                    EditPlan::Edited(updated)
                }
            },
            None => EditPlan::NotFound,
        }
    }
}

/// The outcome of a successful edit: what to write back, and the reply.
pub struct EditOutcome {
    pub write_content: String,
    pub reply: String,
}

/// Edits the text `raw` of the file at `path` (see `edit_plan`): the text
/// to write back (in the file's line endings, with its byte-order mark)
/// and the diff reply, or the error result the model reads.
pub fn apply_edit(raw: &str, old_text: &str, new_text: &str, path: &str) -> (r: Result<
    EditOutcome,
    ToolResult,
>)
    ensures
        match edit_plan(raw@, old_text@, new_text@) {
            EditPlan::NotFound => r matches Err(e) && e.is_error && e.content@
                == "oldText not found in "@ + path@,
            EditPlan::Ambiguous(n) => r matches Err(e) && e.is_error && e.content@
                == "oldText matches "@ + decimal(n) + " times in "@ + path@
                + " \u{2014} it must match exactly once to avoid ambiguous edits. Add more context to make it unique."@,
            EditPlan::NoChange => r matches Err(e) && e.is_error && e.content@ == "No changes made to "@
                + path@ + ". The replacement produced identical content."@,
            EditPlan::Edited(updated) => r matches Ok(o) && o.write_content@ == restored(
                updated,
                line_ending_of(raw@),
                raw@.len() > 0 && raw@[0] == bom(),
            ) && o.reply@ == edit_reply(path@, base_normal(raw@), updated),
        },
{
    let raw_cs = chars_of(raw);
    let ending = detect_line_ending(raw_cs.as_slice());
    let has_bom = raw_cs.len() > 0 && raw_cs[0] == '\u{FEFF}';
    let content = base_normalise(raw_cs.as_slice());
    let old_cs = chars_of(old_text);
    let base_old = base_normalise(old_cs.as_slice());
    let (exact, exact_first) = count_occurrences_capped(content.as_slice(), base_old.as_slice(), 2);
    let (splice_len, count, first) = if exact == 0 {
        let fuzzy_content = normalize_for_fuzzy_match(content.as_slice());
        let fuzzy_old = normalize_for_fuzzy_match(old_cs.as_slice());
        let (fc, fo) = count_occurrences_capped(fuzzy_content.as_slice(), fuzzy_old.as_slice(), 2);
        (fuzzy_old.len(), fc, fo)
    } else {
        (base_old.len(), exact, exact_first)
    };
    if count == 0 {
        let mut m = owned("oldText not found in ");
        push_str(&mut m, path);
        return Err(ToolResult::error(m));
    }
    if count > 1 {
        let mut m = owned("oldText matches ");
        let d = decimal_string_wide(count as u128);
        push_str(&mut m, d.as_str());
        push_str(&mut m, " times in ");
        push_str(&mut m, path);
        push_str(
            &mut m,
            " \u{2014} it must match exactly once to avoid ambiguous edits. Add more context to make it unique.",
        );
        return Err(ToolResult::error(m));
    }
    let off = match first {
        Some(o) => o,
        None => {
            let mut m = owned("oldText not found in ");
            push_str(&mut m, path);
            return Err(ToolResult::error(m));
        },
    };
    let total = content.len();
    if off > total || splice_len > total - off {
        let mut m = owned("oldText not found in ");
        push_str(&mut m, path);
        return Err(ToolResult::error(m));
    }
    let new_cs = chars_of(new_text);
    let normalised_new = base_normalise(new_cs.as_slice());
    let mut updated: Vec<char> = Vec::new();
    let mut i: usize = 0;
    while i < off
        invariant
            i <= off <= total,
            total == content@.len(),
            updated@ == content@.take(i as int),
        decreases off - i,
    {
        updated.push(content[i]);
        assert(content@.take(i as int + 1) =~= content@.take(i as int).push(content@[i as int]));
        i = i + 1;
    }
    let mut j: usize = 0;
    while j < normalised_new.len()
        invariant
            j <= normalised_new.len(),
            updated@ == content@.take(off as int) + normalised_new@.take(j as int),
        decreases normalised_new.len() - j,
    {
        updated.push(normalised_new[j]);
        assert(normalised_new@.take(j as int + 1) =~= normalised_new@.take(j as int).push(
            normalised_new@[j as int],
        ));
        j = j + 1;
    }
    let mut k: usize = off + splice_len;
    assert(normalised_new@.take(normalised_new@.len() as int) =~= normalised_new@);
    while k < total
        invariant
            off + splice_len <= k <= total,
            total == content@.len(),
            updated@ == content@.take(off as int) + normalised_new@ + content@.subrange(
                off + splice_len,
                k as int,
            ),
        decreases total - k,
    {
        updated.push(content[k]);
        assert(content@.subrange(off + splice_len, k as int + 1) =~= content@.subrange(
            off + splice_len,
            k as int,
        ).push(content@[k as int]));
        k = k + 1;
    }
    assert(content@.subrange(off + splice_len, total as int) =~= content@.skip(
        off + splice_len,
    ));
    if crate::text::chars_eq(updated.as_slice(), content.as_slice()) {
        let mut m = owned("No changes made to ");
        push_str(&mut m, path);
        push_str(&mut m, ". The replacement produced identical content.");
        return Err(ToolResult::error(m));
    }
    let content_s = string_from_chars(content.as_slice());
    let updated_s = string_from_chars(updated.as_slice());
    let reply = make_edit_diff(path, content_s.as_str(), updated_s.as_str());
    let write_content = restore_file_format(updated.as_slice(), ending, has_bom);
    Ok(EditOutcome { write_content, reply })
}


/// The text starts with a byte-order mark.
pub open spec fn has_bom(s: Seq<char>) -> bool {
    s.len() > 0 && s[0] == bom()
}

/// The text has LF line ends only: no carriage return anywhere.
pub open spec fn uniform_lf(s: Seq<char>) -> bool {
    forall|i: int| 0 <= i < s.len() ==> s[i] != '\r'
}

/// The text has CRLF line ends only: every carriage return starts a
/// `\r\n`, and every newline ends one.
pub open spec fn uniform_crlf(s: Seq<char>) -> bool {
    forall|i: int|
        0 <= i < s.len() ==> (#[trigger] s[i] == '\r' ==> i + 1 < s.len() && s[i + 1] == '\n')
            && (s[i] == '\n' ==> i >= 1 && s[i - 1] == '\r')
}

proof fn lemma_crlf_from_plain(s: Seq<char>, i: int)
    requires
        uniform_lf(s),
        0 <= i <= s.len(),
    ensures
        crlf_from(s, i) == s.skip(i),
    decreases s.len() - i,
{
    if i < s.len() {
        lemma_crlf_from_plain(s, i + 1);
        assert(s.skip(i) =~= seq![s[i]] + s.skip(i + 1));
    } else {
        assert(s.skip(i) =~= Seq::<char>::empty());
    }
}

proof fn lemma_lf_to_crlf_concat(a: Seq<char>, b: Seq<char>)
    ensures
        lf_to_crlf(a + b) == lf_to_crlf(a) + lf_to_crlf(b),
    decreases b.len(),
{
    if b.len() == 0 {
        assert(a + b =~= a);
        assert(lf_to_crlf(a) + lf_to_crlf(b) =~= lf_to_crlf(a));
    } else {
        lemma_lf_to_crlf_concat(a, b.drop_last());
        assert((a + b).drop_last() =~= a + b.drop_last());
        assert((a + b).last() == b.last());
    }
}

proof fn lemma_lf_to_crlf_one(c: char)
    ensures
        lf_to_crlf(seq![c]) == if c == '\n' {
            seq!['\r', '\n']
        } else {
            seq![c]
        },
{
    assert(seq![c].drop_last() =~= Seq::<char>::empty());
    assert(lf_to_crlf(Seq::<char>::empty()) == Seq::<char>::empty());
    if c == '\n' {
        assert(Seq::<char>::empty() + seq!['\r', '\n'] =~= seq!['\r', '\n']);
    } else {
        assert(Seq::<char>::empty() + seq![c] =~= seq![c]);
    }
}

proof fn lemma_crlf_round_trip(s: Seq<char>, i: int)
    requires
        uniform_crlf(s),
        0 <= i <= s.len(),
        i == 0 || s[i - 1] != '\r',
    ensures
        lf_to_crlf(crlf_from(s, i)) == s.skip(i),
    decreases s.len() - i,
{
    if i == s.len() {
        assert(s.skip(i) =~= Seq::<char>::empty());
    } else if s[i] == '\r' {
        assert(s[i + 1] == '\n');
        lemma_crlf_round_trip(s, i + 2);
        lemma_lf_to_crlf_concat(seq!['\n'], crlf_from(s, i + 2));
        lemma_lf_to_crlf_one('\n');
        assert(s.skip(i) =~= seq!['\r', '\n'] + s.skip(i + 2));
    } else {
        assert(s[i] != '\n');
        lemma_crlf_round_trip(s, i + 1);
        lemma_lf_to_crlf_concat(seq![s[i]], crlf_from(s, i + 1));
        lemma_lf_to_crlf_one(s[i]);
        assert(s.skip(i) =~= seq![s[i]] + s.skip(i + 1));
    }
}

/// Writing back the normal form of a file whose line ends are all LF or
/// all CRLF, in the line-ending style and with the byte-order mark detected
/// in it, gives the file back: an edit changes nothing but what it
/// replaces.
pub proof fn law_format_round_trip(raw: Seq<char>)
    requires
        uniform_lf(raw) || uniform_crlf(raw),
    ensures
        restored(base_normal(raw), line_ending_of(raw), has_bom(raw)) == raw,
{
    let w = without_bom(raw);
    let crlf = seq!['\r', '\n'];
    let nl = seq!['\n'];
    lemma_find_from_contains(raw, crlf, 0);
    lemma_find_from_contains(raw, nl, 0);
    if has_bom(raw) {
        assert(raw =~= seq![bom()] + w);
    } else {
        assert(w == raw);
    }
    let plain = uniform_lf(raw) || !(exists|i: int| 0 <= i && occurs_at(raw, nl, i));
    if plain {
        assert(uniform_lf(raw)) by {
            if !uniform_lf(raw) {
                let k = choose|k: int| 0 <= k < raw.len() && raw[k] == '\r';
                assert(uniform_crlf(raw));
                assert(raw.subrange(k + 1, k + 2) =~= nl);
                assert(occurs_at(raw, nl, k + 1));
            }
        }
        assert(!(exists|i: int| 0 <= i && occurs_at(raw, crlf, i))) by {
            if exists|i: int| 0 <= i && occurs_at(raw, crlf, i) {
                let i = choose|i: int| 0 <= i && occurs_at(raw, crlf, i);
                assert(raw.subrange(i, i + 2)[0] == raw[i]);
            }
        }
        assert(line_ending_of(raw) == LineEnding::Lf);
        assert(uniform_lf(w));
        lemma_crlf_from_plain(w, 0);
        assert(w.skip(0) =~= w);
    } else {
        assert(uniform_crlf(raw));
        let l = find_from(raw, nl, 0)->0;
        assert(raw.subrange(l, l + 1)[0] == raw[l]);
        assert(raw[l] == '\n');
        assert(raw[l - 1] == '\r');
        assert(raw.subrange(l - 1, l + 1) =~= crlf);
        assert(occurs_at(raw, crlf, l - 1));
        let c = find_from(raw, crlf, 0)->0;
        assert(c <= l - 1);
        assert(line_ending_of(raw) == LineEnding::Crlf);
        assert(uniform_crlf(w)) by {
            if has_bom(raw) {
                assert forall|j: int| 0 <= j < w.len() implies (#[trigger] w[j] == '\r' ==> j + 1 < w.len()
                    && w[j + 1] == '\n') && (w[j] == '\n' ==> j >= 1 && w[j - 1] == '\r') by {
                    assert(w[j] == raw[j + 1]);
                    if w[j] == '\n' {
                        assert(raw[j] == '\r');
                        assert(j >= 1);
                        assert(w[j - 1] == raw[j]);
                    }
                    if w[j] == '\r' {
                        assert(raw[j + 2] == '\n');
                        assert(w[j + 1] == raw[j + 2]);
                    }
                }
            }
        }
        lemma_crlf_round_trip(w, 0);
        assert(w.skip(0) =~= w);
    }
}


/// The description of the `edit` tool.
pub const EDIT_DESCRIPTION: &'static str = "Edit a file by replacing exact text. The oldText must match exactly (including whitespace). Use this for precise, surgical edits. Example: {\"path\": \"file.txt\", \"oldText\": \"old\", \"newText\": \"new\"}";

/// The parameter schema of the `edit` tool.
pub const EDIT_SCHEMA: &'static str = "{\"type\":\"object\",\"properties\":{\"path\":{\"type\":\"string\",\"description\":\"Path to the file to edit (relative or absolute)\"},\"oldText\":{\"type\":\"string\",\"description\":\"Exact text to find and replace (must match exactly)\"},\"newText\":{\"type\":\"string\",\"description\":\"New text to replace the old text with\"}},\"required\":[\"path\",\"oldText\",\"newText\"]}";


/// Fuzzy matching folds typography onto ASCII: every typographic single
/// quote (U+2018 to U+201B) matches a straight apostrophe, every
/// typographic double quote (U+201C to U+201F) a straight double quote,
/// every dash from U+2010 to U+2015 and the minus sign U+2212 a hyphen, and
/// the no-break and special spaces a plain space; ASCII characters match
/// only themselves.
pub proof fn law_fuzzy_folds_typography(c: char)
    ensures
        '\u{2018}' <= c && c <= '\u{201B}' ==> fuzzy(c) == '\'',
        '\u{201C}' <= c && c <= '\u{201F}' ==> fuzzy(c) == '"',
        ('\u{2010}' <= c && c <= '\u{2015}') || c == '\u{2212}' ==> fuzzy(c) == '-',
        c == '\u{00A0}' || ('\u{2002}' <= c && c <= '\u{200A}') || c == '\u{202F}' || c
            == '\u{205F}' || c == '\u{3000}' ==> fuzzy(c) == ' ',
        c <= '\u{7F}' ==> fuzzy(c) == c,
{
}

/// A line written with typographic single quotes has the same fuzzy form as
/// the same line written with straight apostrophes.
pub proof fn law_smart_single_quotes_match_straight(a: Seq<char>, b: Seq<char>)
    requires
        a.len() == b.len(),
        forall|i: int|
            0 <= i < a.len() ==> #[trigger] a[i] == b[i] || ('\u{2018}' <= a[i] && a[i]
                <= '\u{201B}' && b[i] == '\''),
    ensures
        a.map_values(|c: char| fuzzy(c)) == b.map_values(|c: char| fuzzy(c)),
{
    assert(a.map_values(|c: char| fuzzy(c)) =~= b.map_values(|c: char| fuzzy(c)));
}

} // verus!
