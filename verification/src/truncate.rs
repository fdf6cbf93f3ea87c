//! Output truncation: keep the head or the tail of a text within a line
//! budget and a UTF-8 byte budget, and render byte sizes for notices.

use vstd::prelude::*;

use crate::text::{
    chars_of, chars_view, decimal, decimal_string, join_lines, join_lines_exec, lines, lines_of,
    owned, push_char, push_str, string_from_chars, utf8_len, utf8_size, utf8_size_capped,
    utf8_size_within,
};

verus! {

/// Default maximum number of lines kept by head truncation.
pub const DEFAULT_MAX_LINES: usize = 2000;

/// Default maximum number of bytes kept by head truncation (50 KB).
pub const DEFAULT_MAX_BYTES: usize = 51200;

/// Which budget cut the output short.
#[derive(Debug, Clone, Copy, PartialEq, Eq, Structural)]
pub enum TruncatedBy {
    Lines,
    Bytes,
}

/// The outcome of truncating a text.
#[derive(Debug, Clone)]
pub struct TruncationResult {
    /// The kept text.
    pub content: String,
    /// Whether anything was cut.
    pub truncated: bool,
    /// Which budget cut it, when something was cut.
    pub truncated_by: Option<TruncatedBy>,
    /// The number of lines of the input.
    pub total_lines: usize,
    /// The number of (whole or partial) lines kept.
    pub output_lines: usize,
    /// Head truncation only: the first line alone exceeds the byte budget.
    pub first_line_exceeds_limit: bool,
}

// ---------------------------------------------------------------------------
// Tail truncation model
// ---------------------------------------------------------------------------

/// The bytes a kept line costs from the tail: its UTF-8 size and a newline.
pub open spec fn line_cost(l: Seq<char>) -> nat {
    utf8_size(l) + 1
}

/// The cost of the last `k` lines.
pub open spec fn tail_bytes(ls: Seq<Seq<char>>, k: int) -> nat
    decreases k,
{
    if k <= 0 || k > ls.len() {
        0
    } else {
        tail_bytes(ls, k - 1) + line_cost(ls[ls.len() - k])
    }
}

/// How many lines, counted from the end, fit both budgets when `k` are
/// already kept: lines are taken from the end while the count stays below
/// `max_lines` and the cost within `max_bytes`.
pub open spec fn tail_kept(ls: Seq<Seq<char>>, max_lines: int, max_bytes: int, k: int) -> int
    decreases ls.len() - k,
{
    if 0 <= k < ls.len() && k < max_lines && tail_bytes(ls, k + 1) <= max_bytes {
        tail_kept(ls, max_lines, max_bytes, k + 1)
    } else {
        k
    }
}

/// The longest suffix of `s` whose UTF-8 size is within `max_bytes` starts
/// at `j`.
pub open spec fn fitting_suffix_at(s: Seq<char>, max_bytes: int, j: int) -> bool {
    0 <= j <= s.len() && utf8_size(s.skip(j)) <= max_bytes && (j == 0 || utf8_size(
        s.skip(j - 1),
    ) > max_bytes)
}

/// The tail-truncated text of `s`: the last lines that fit; when not even
/// the last line fits, the longest suffix of characters within the byte
/// budget; the whole text when everything fits.
pub open spec fn tail_content(s: Seq<char>, max_lines: int, max_bytes: int, r: Seq<char>) -> bool {
    let ls = lines(s);
    let k = tail_kept(ls, max_lines, max_bytes, 0);
    if k == ls.len() {
        r == s
    } else if k > 0 {
        r == join_lines(ls.skip(ls.len() - k))
    } else {
        exists|j: int| fitting_suffix_at(s, max_bytes, j) && r == s.skip(j)
    }
}

proof fn lemma_utf8_size_skip_step(s: Seq<char>, j: int)
    requires
        0 < j <= s.len(),
    ensures
        utf8_size(s.skip(j - 1)) == utf8_len(s[j - 1]) + utf8_size(s.skip(j)),
{
    let one = seq![s[j - 1]];
    assert(s.skip(j - 1) =~= one + s.skip(j));
    crate::text::lemma_utf8_size_concat(one, s.skip(j));
    assert(utf8_size(Seq::<char>::empty()) == 0);
    assert(one.drop_last() =~= Seq::<char>::empty());
    assert(utf8_size(one) == utf8_len(s[j - 1]));
}

/// The start of the longest suffix of `s` within `max_bytes` UTF-8 bytes.
fn fitting_suffix(s: &[char], max_bytes: usize) -> (j: usize)
    ensures
        fitting_suffix_at(s@, max_bytes as int, j as int),
{
    let mut j: usize = s.len();
    let mut acc: usize = 0;
    assert(s@.skip(s@.len() as int) =~= Seq::<char>::empty());
    while j > 0
        invariant
            j <= s.len(),
            acc == utf8_size(s@.skip(j as int)),
            acc <= max_bytes,
        decreases j,
    {
        let w = crate::text::char_utf8_len(s[j - 1]);
        proof {
            lemma_utf8_size_skip_step(s@, j as int);
        }
        if w > max_bytes - acc {
            return j;
        }
        acc = acc + w;
        j = j - 1;
    }
    j
}

/// Keep the last `max_lines` lines / `max_bytes` bytes of `content`.
///
/// Lines are taken from the end while both budgets hold (a kept line costs
/// its UTF-8 size plus one newline byte). When everything fits the content
/// is returned unchanged; when not even the last line fits, the longest
/// character suffix within `max_bytes` bytes is returned.
pub fn truncate_tail(content: &str, max_lines: usize, max_bytes: usize) -> (tr: TruncationResult)
    ensures
        tail_content(content@, max_lines as int, max_bytes as int, tr.content@),
        tr.total_lines == lines(content@).len(),
        tr.truncated == (tail_kept(lines(content@), max_lines as int, max_bytes as int, 0) < lines(
            content@,
        ).len()),
        tr.truncated_by == (if !tr.truncated {
            None
        } else if tail_bytes(
            lines(content@),
            tail_kept(lines(content@), max_lines as int, max_bytes as int, 0) + 1,
        ) > max_bytes {
            Some(TruncatedBy::Bytes)
        } else {
            Some(TruncatedBy::Lines)
        }),
        tr.output_lines == (if tail_kept(lines(content@), max_lines as int, max_bytes as int, 0)
            == 0 && tr.truncated && tr.content@.len() > 0 {
            1
        } else {
            tail_kept(lines(content@), max_lines as int, max_bytes as int, 0)
        }),
        !tr.first_line_exceeds_limit,
{
    let cs = chars_of(content);
    let ls = lines_of(cs.as_slice());
    let ghost lv = chars_view(ls@);
    let n = ls.len();
    let mut k: usize = 0;
    let mut bytes: usize = 0;
    let mut over = false;
    while k < n
        invariant_except_break
            lv == chars_view(ls@),
            n == ls@.len(),
            k <= n,
            bytes == tail_bytes(lv, k as int),
            bytes <= max_bytes,
            tail_kept(lv, max_lines as int, max_bytes as int, 0) == tail_kept(
                lv,
                max_lines as int,
                max_bytes as int,
                k as int,
            ),
        ensures
            k <= n,
            tail_kept(lv, max_lines as int, max_bytes as int, 0) == k,
            k < n ==> over == (tail_bytes(lv, k + 1) > max_bytes),
        decreases n - k,
    {
        let size = utf8_size_capped(ls[n - 1 - k].as_slice());
        assert(lv[n - 1 - k] == ls@[n - 1 - k]@);
        over = size >= max_bytes - bytes;
        if over || k >= max_lines {
            break ;
        }
        bytes = bytes + size + 1;
        k = k + 1;
    }
    let (text, output_lines) = if k == n {
        (owned(content), k)
    } else if k > 0 {
        let tail = join_lines_exec(&ls.as_slice()[n - k..n]);
        assert(chars_view(ls@.subrange(n - k, n as int)) =~= lv.skip(lv.len() - k));
        (tail, k)
    } else {
        let j = fitting_suffix(cs.as_slice(), max_bytes);
        let t = string_from_chars(&cs.as_slice()[j..cs.len()]);
        assert(cs@.subrange(j as int, cs@.len() as int) =~= content@.skip(j as int));
        let ol: usize = if t.as_str().is_empty() {
            0
        } else {
            1
        };
        (t, ol)
    };
    TruncationResult {
        content: text,
        truncated: k < n,
        truncated_by: if k == n {
            None
        } else if over {
            Some(TruncatedBy::Bytes)
        } else {
            Some(TruncatedBy::Lines)
        },
        total_lines: n,
        output_lines,
        first_line_exceeds_limit: false,
    }
}

// ---------------------------------------------------------------------------
// Head truncation model
// ---------------------------------------------------------------------------

/// The UTF-8 size of the first `k` lines joined with newlines.
pub open spec fn head_bytes(ls: Seq<Seq<char>>, k: int) -> nat
    decreases k,
{
    if k <= 0 || k > ls.len() {
        0
    } else if k == 1 {
        utf8_size(ls[0])
    } else {
        head_bytes(ls, k - 1) + 1 + utf8_size(ls[k - 1])
    }
}

/// How many lines, counted from the start, fit both budgets.
pub open spec fn head_kept(ls: Seq<Seq<char>>, max_lines: int, max_bytes: int, k: int) -> int
    decreases ls.len() - k,
{
    if 0 <= k < ls.len() && k < max_lines && head_bytes(ls, k + 1) <= max_bytes {
        head_kept(ls, max_lines, max_bytes, k + 1)
    } else {
        k
    }
}

/// Keep the first `max_lines` lines / `max_bytes` bytes of `content`: the
/// longest run of leading lines whose newline-joined UTF-8 size stays within
/// `max_bytes`, at most `max_lines` of them.
pub fn truncate_head(content: &str, max_lines: usize, max_bytes: usize) -> (tr: TruncationResult)
    ensures
        ({
            let ls = lines(content@);
            let k = head_kept(ls, max_lines as int, max_bytes as int, 0);
            &&& tr.content@ == join_lines(ls.take(k))
            &&& tr.total_lines == ls.len()
            &&& tr.output_lines == k
            &&& tr.truncated == (k < ls.len())
            &&& tr.truncated_by == (if k == ls.len() {
                None
            } else if head_bytes(ls, k + 1) > max_bytes {
                Some(TruncatedBy::Bytes)
            } else {
                Some(TruncatedBy::Lines)
            })
            &&& tr.first_line_exceeds_limit == (ls.len() > 0 && utf8_size(ls[0]) > max_bytes)
        }),
{
    let cs = chars_of(content);
    let ls = lines_of(cs.as_slice());
    let ghost lv = chars_view(ls@);
    let n = ls.len();
    let mut k: usize = 0;
    let mut bytes: usize = 0;
    let mut over = false;
    while k < n
        invariant_except_break
            lv == chars_view(ls@),
            n == ls@.len(),
            k <= n,
            bytes == head_bytes(lv, k as int),
            bytes <= max_bytes,
            head_kept(lv, max_lines as int, max_bytes as int, 0) == head_kept(
                lv,
                max_lines as int,
                max_bytes as int,
                k as int,
            ),
        ensures
            k <= n,
            head_kept(lv, max_lines as int, max_bytes as int, 0) == k,
            k < n ==> over == (head_bytes(lv, k + 1) > max_bytes),
        decreases n - k,
    {
        assert(lv[k as int] == ls@[k as int]@);
        let sep: usize = if k > 0 {
            1
        } else {
            0
        };
        proof {
            assert(head_bytes(lv, k + 1) == bytes + sep + utf8_size(lv[k as int]));
        }
        let room = max_bytes - bytes;
        over = match utf8_size_within(ls[k].as_slice(), room) {
            Some(size) => sep > room - size,
            None => true,
        };
        if over || k >= max_lines {
            break ;
        }
        let size = utf8_size_capped(ls[k].as_slice());
        bytes = bytes + sep + size;
        k = k + 1;
    }
    let first_exceeds = if n > 0 {
        assert(lv[0] == ls@[0]@);
        utf8_size_within(ls[0].as_slice(), max_bytes).is_none()
    } else {
        false
    };
    let text = join_lines_exec(&ls.as_slice()[0..k]);
    assert(chars_view(ls@.subrange(0, k as int)) =~= lv.take(k as int));
    TruncationResult {
        content: text,
        truncated: k < n,
        truncated_by: if k == n {
            None
        } else if over {
            Some(TruncatedBy::Bytes)
        } else {
            Some(TruncatedBy::Lines)
        },
        total_lines: n,
        output_lines: k,
        first_line_exceeds_limit: first_exceeds,
    }
}

// ---------------------------------------------------------------------------
// Sizes
// ---------------------------------------------------------------------------

/// `n / d` rounded to one decimal place (halves rounded up), rendered as
/// `"<whole>.<tenth>"`.
pub open spec fn tenths(n: nat, d: nat) -> Seq<char>
    recommends
        d > 0,
{
    let t = (n * 10 + d / 2) / d;
    decimal(t / 10) + seq!['.'] + decimal(t % 10)
}

/// A human-readable byte size: `"512B"`, `"1.5KB"`, `"2.0MB"`.
pub open spec fn format_size_spec(bytes: nat) -> Seq<char> {
    if bytes < 1024 {
        decimal(bytes) + seq!['B']
    } else if bytes < 1048576 {
        tenths(bytes, 1024) + seq!['K', 'B']
    } else {
        tenths(bytes, 1048576) + seq!['M', 'B']
    }
}

fn tenths_exec(n: usize, d: u128) -> (r: String)
    requires
        d == 1024 || d == 1048576,
    ensures
        r@ == tenths(n as nat, d as nat),
{
    let t: u128 = ((n as u128) * 10 + d / 2) / d;
    let mut out = decimal_string((t / 10) as u64);
    push_char(&mut out, '.');
    let frac = decimal_string((t % 10) as u64);
    push_str(&mut out, frac.as_str());
    out
}

/// Formats a byte count for notices.
pub fn format_size(bytes: usize) -> (r: String)
    ensures
        r@ == format_size_spec(bytes as nat),
{
    if bytes < 1024 {
        let mut out = decimal_string(bytes as u64);
        push_char(&mut out, 'B');
        out
    } else if bytes < 1048576 {
        let mut out = tenths_exec(bytes, 1024);
        push_char(&mut out, 'K');
        push_char(&mut out, 'B');
        assert(out@ =~= tenths(bytes as nat, 1024) + seq!['K', 'B']);
        out
    } else {
        let mut out = tenths_exec(bytes, 1048576);
        push_char(&mut out, 'M');
        push_char(&mut out, 'B');
        assert(out@ =~= tenths(bytes as nat, 1048576) + seq!['M', 'B']);
        out
    }
}

} // verus!
