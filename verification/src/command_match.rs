//! Command pattern matching for workflow guards.
//!
//! Matches bash commands against configurable patterns like `"git commit"`,
//! `"gh pr merge"`, `"cargo publish"`. Handles chained commands, flags,
//! subshells, and backtick expressions.
//!
//! The matcher works on the command text with quoted regions blanked out
//! (byte by byte, as the UTF-8 encoding of the command), lowercased, split
//! into segments at `&`, `|`, `;` and newlines, and then looks for
//! `binary [flags...] subcommand...` token runs. `$(...)` and backtick
//! regions are matched recursively.

use vstd::prelude::*;
use vstd::utf8::*;

use crate::text::{
    chars_eq, chars_of, find_chars, find_from, is_whitespace, is_ws, lemma_find_from_contains,
    occurs_at, push_char, starts_with, string_from_chars, trim, trim_bounds,
};

verus! {

// ---------------------------------------------------------------------------
// Model
// ---------------------------------------------------------------------------

/// A parsed pattern: the binary and the subcommand tokens, all lowercased.
pub type PatternView = (Seq<char>, Seq<Seq<char>>);

/// The view of a list of parsed patterns.
pub open spec fn patterns_view(p: Seq<(String, Vec<String>)>) -> Seq<PatternView> {
    p.map_values(|x: (String, Vec<String>)| (x.0@, x.1@.map_values(|t: String| t@)))
}

/// The name for what `str::to_lowercase` returns for a string: its Unicode
/// lowercase mapping.
pub uninterp spec fn unicode_lowercase(s: Seq<char>) -> Seq<char>;

/// Lowercases a string (`str::to_lowercase`). The result is the Unicode
/// lowercase mapping of the input; nothing more is stated about it.
#[verifier::external_body]
pub(crate) fn to_lowercase(s: &str) -> (r: String)
    ensures
        r@ == unicode_lowercase(s@),
{
    s.to_lowercase()
}

/// The character with the same code as byte `b` (`b as char`).
pub open spec fn byte_char(b: u8) -> char {
    b as char
}

/// Blanks out quoted regions of the byte string `b`, starting at index `i`
/// in quoting state `q` (the open quote byte, if any).
///
/// Outside quotes every byte is emitted as the character with that code;
/// an opening quote emits a single space and nothing up to the matching
/// closing quote is emitted. Inside double quotes a backslash skips the
/// following byte.
pub open spec fn strip_from(b: Seq<u8>, i: int, q: Option<u8>) -> Seq<char>
    decreases b.len() - i,
{
    if i < 0 || i >= b.len() {
        seq![]
    } else {
        let c = b[i];
        match q {
            None => if c == 0x27u8 || c == 0x22u8 {
                seq![' '] + strip_from(b, i + 1, Some(c))
            } else {
                seq![byte_char(c)] + strip_from(b, i + 1, None)
            },
            Some(qq) => if c == 0x5cu8 && qq == 0x22u8 && i + 1 < b.len() {
                strip_from(b, i + 2, q)
            } else if c == qq {
                strip_from(b, i + 1, None)
            } else {
                strip_from(b, i + 1, q)
            },
        }
    }
}

/// The command's text with its quoted regions blanked out.
pub open spec fn unquoted(cmd: Seq<char>) -> Seq<char> {
    strip_from(encode_utf8(cmd), 0, None)
}

/// Lowercase mapping of a character whose code is below 256.
pub open spec fn lower_latin1(c: char) -> char {
    if ('A' <= c && c <= 'Z') || ('\u{c0}' <= c && c <= '\u{d6}') || ('\u{d8}' <= c && c
        <= '\u{de}') {
        (((c as u32) + 32) as u8) as char
    } else {
        c
    }
}

/// Lowercases every character of a sequence whose codes are all below 256.
pub open spec fn lower_all(s: Seq<char>) -> Seq<char> {
    s.map_values(|c: char| lower_latin1(c))
}

/// The lowercased, unquoted text the matcher scans.
pub open spec fn lowered(cmd: Seq<char>) -> Seq<char> {
    lower_all(unquoted(cmd))
}

/// The separators between chained commands.
pub open spec fn is_sep(c: char) -> bool {
    c == '&' || c == '|' || c == ';' || c == '\n'
}

/// `s` split at every separator (`str::split`): always at least one piece.
pub open spec fn split_segments(s: Seq<char>) -> Seq<Seq<char>>
    decreases s.len(),
{
    if s.len() == 0 {
        seq![seq![]]
    } else {
        let rest = split_segments(s.drop_last());
        if is_sep(s.last()) {
            rest.push(seq![])
        } else {
            rest.update(rest.len() - 1, rest.last().push(s.last()))
        }
    }
}

/// `s` split at every whitespace character: always at least one piece.
pub open spec fn split_ws(s: Seq<char>) -> Seq<Seq<char>>
    decreases s.len(),
{
    if s.len() == 0 {
        seq![seq![]]
    } else {
        let rest = split_ws(s.drop_last());
        if is_ws(s.last()) {
            rest.push(seq![])
        } else {
            rest.update(rest.len() - 1, rest.last().push(s.last()))
        }
    }
}

/// The non-empty pieces, in order.
pub open spec fn nonempty(ws: Seq<Seq<char>>) -> Seq<Seq<char>>
    decreases ws.len(),
{
    if ws.len() == 0 {
        seq![]
    } else if ws.last().len() == 0 {
        nonempty(ws.drop_last())
    } else {
        nonempty(ws.drop_last()).push(ws.last())
    }
}

/// The whitespace-separated words of `s` (`str::split_whitespace`).
pub open spec fn words(s: Seq<char>) -> Seq<Seq<char>> {
    nonempty(split_ws(s))
}

/// The flags that take a separate argument, which is skipped.
pub open spec fn takes_argument(t: Seq<char>) -> bool {
    t == "-c"@ || t == "-C"@ || t == "--git-dir"@ || t == "--work-tree"@
}

/// Scans tokens from index `i` for `binary [flags...] subcommands...`.
///
/// `found`: the binary was seen and has not been reset; `skip`: the next
/// token is a flag argument; `idx`: how many subcommand tokens matched.
pub open spec fn scan_tokens(
    toks: Seq<Seq<char>>,
    i: int,
    binary: Seq<char>,
    subs: Seq<Seq<char>>,
    found: bool,
    skip: bool,
    idx: int,
) -> bool
    decreases toks.len() - i,
{
    if i < 0 || i >= toks.len() {
        false
    } else {
        let t = toks[i];
        if skip {
            scan_tokens(toks, i + 1, binary, subs, found, false, idx)
        } else if !found {
            if t == binary {
                if subs.len() == 0 {
                    true
                } else {
                    scan_tokens(toks, i + 1, binary, subs, true, false, 0)
                }
            } else {
                scan_tokens(toks, i + 1, binary, subs, found, false, idx)
            }
        } else if t.len() > 0 && t[0] == '-' {
            scan_tokens(toks, i + 1, binary, subs, found, takes_argument(t), idx)
        } else if 0 <= idx < subs.len() && t == subs[idx] {
            if idx + 1 == subs.len() {
                true
            } else {
                scan_tokens(toks, i + 1, binary, subs, found, false, idx + 1)
            }
        } else {
            scan_tokens(toks, i + 1, binary, subs, false, false, idx)
        }
    }
}

/// The token list contains `binary [flags...] subcommands...`.
pub open spec fn matches_pattern(toks: Seq<Seq<char>>, p: PatternView) -> bool {
    scan_tokens(toks, 0, p.0, p.1, false, false, 0)
}

/// Some pattern matches the tokens.
pub open spec fn any_pattern(toks: Seq<Seq<char>>, pats: Seq<PatternView>) -> bool {
    exists|j: int| 0 <= j < pats.len() && matches_pattern(toks, #[trigger] pats[j])
}

/// A chained segment is checked when, trimmed, it is non-empty and not a
/// comment; it matches when its words match some pattern.
pub open spec fn segment_ok(seg: Seq<char>, pats: Seq<PatternView>) -> bool {
    let t = trim(seg);
    t.len() > 0 && t[0] != '#' && any_pattern(words(t), pats)
}

/// Some chained segment of `lower` matches.
pub open spec fn segments_match(lower: Seq<char>, pats: Seq<PatternView>) -> bool {
    let segs = split_segments(lower);
    exists|k: int| 0 <= k < segs.len() && segment_ok(#[trigger] segs[k], pats)
}

/// Occurrences of `c` in `s`.
pub open spec fn count(s: Seq<char>, c: char) -> nat
    decreases s.len(),
{
    if s.len() == 0 {
        0
    } else {
        count(s.drop_last(), c) + (if s.last() == c {
            1nat
        } else {
            0nat
        })
    }
}

/// The number of closing parentheses and backticks: the subshell
/// recursion strictly lowers it.
pub open spec fn marks(s: Seq<char>) -> nat {
    count(s, ')') + count(s, '`')
}

/// Whether the command text matches any pattern: in some chained segment,
/// or inside a `$(...)` or backtick region (matched recursively).
pub open spec fn command_matches_spec(cmd: Seq<char>, pats: Seq<PatternView>) -> bool
    decreases marks(cmd), 1int, 0int,
{
    let lower = lowered(cmd);
    proof {
        lemma_marks_lowered(cmd);
    }
    segments_match(lower, pats) || dollar_scan(lower, pats, 0) || tick_scan(lower, pats, 0)
}

/// `$(...)` regions of `lower` from position `pos`: the text between `$(`
/// and the next `)` is matched as a command.
pub open spec fn dollar_scan(lower: Seq<char>, pats: Seq<PatternView>, pos: int) -> bool
    decreases marks(lower), 0int, lower.len() + 1 - pos,
{
    if pos < 0 {
        false
    } else {
        match find_from(lower, "$("@, pos) {
            None => false,
            Some(start) => {
                let abs = start + 2;
                match find_from(lower, seq![')'], abs) {
                    None => false,
                    Some(end) => {
                        proof {
                            lemma_find_from_contains(lower, "$("@, pos);
                            lemma_find_from_contains(lower, seq![')'], abs);
                            lemma_inside_marks(lower, abs, end, ')');
                        }
                        command_matches_spec(lower.subrange(abs, end), pats) || dollar_scan(
                            lower,
                            pats,
                            end + 1,
                        )
                    },
                }
            },
        }
    }
}

/// Backtick regions of `lower` from position `pos`.
pub open spec fn tick_scan(lower: Seq<char>, pats: Seq<PatternView>, pos: int) -> bool
    decreases marks(lower), 0int, lower.len() + 1 - pos,
{
    if pos < 0 {
        false
    } else {
        match find_from(lower, seq!['`'], pos) {
            None => false,
            Some(start) => {
                let abs = start + 1;
                match find_from(lower, seq!['`'], abs) {
                    None => false,
                    Some(end) => {
                        proof {
                            lemma_find_from_contains(lower, seq!['`'], pos);
                            lemma_find_from_contains(lower, seq!['`'], abs);
                            lemma_inside_marks(lower, abs, end, '`');
                        }
                        command_matches_spec(lower.subrange(abs, end), pats) || tick_scan(
                            lower,
                            pats,
                            end + 1,
                        )
                    },
                }
            },
        }
    }
}

/// The patterns parsed from pattern strings: the first word is the binary,
/// the rest are subcommand tokens, each lowercased.
pub open spec fn parse_pattern_spec(p: Seq<char>) -> PatternView {
    let parts = words(p);
    (
        if parts.len() > 0 {
            unicode_lowercase(parts[0])
        } else {
            unicode_lowercase(seq![])
        },
        rest_words(parts).map_values(|t: Seq<char>| unicode_lowercase(t)),
    )
}

/// All words but the first (none when there are no words).
pub open spec fn rest_words(parts: Seq<Seq<char>>) -> Seq<Seq<char>> {
    if parts.len() > 0 {
        parts.drop_first()
    } else {
        Seq::empty()
    }
}

// ---------------------------------------------------------------------------
// Lemmas: counting
// ---------------------------------------------------------------------------

pub proof fn lemma_count_concat(a: Seq<char>, b: Seq<char>, c: char)
    ensures
        count(a + b, c) == count(a, c) + count(b, c),
    decreases b.len(),
{
    if b.len() == 0 {
        assert(a + b =~= a);
    } else {
        assert((a + b).drop_last() =~= a + b.drop_last());
        lemma_count_concat(a, b.drop_last(), c);
    }
}

proof fn lemma_count_single(x: char, c: char)
    ensures
        count(seq![x], c) == (if x == c {
            1nat
        } else {
            0nat
        }),
{
    assert(seq![x].drop_last() =~= Seq::<char>::empty());
    assert(seq![x].last() == x);
    assert(count(Seq::<char>::empty(), c) == 0);
}

proof fn lemma_count_subrange(s: Seq<char>, lo: int, hi: int, c: char)
    requires
        0 <= lo <= hi <= s.len(),
    ensures
        count(s.subrange(lo, hi), c) + count(s.subrange(0, lo), c) + count(
            s.subrange(hi, s.len() as int),
            c,
        ) == count(s, c),
{
    assert(s =~= s.subrange(0, lo) + s.subrange(lo, hi) + s.subrange(hi, s.len() as int));
    lemma_count_concat(s.subrange(0, lo), s.subrange(lo, hi), c);
    lemma_count_concat(
        s.subrange(0, lo) + s.subrange(lo, hi),
        s.subrange(hi, s.len() as int),
        c,
    );
}

proof fn lemma_count_zero(s: Seq<char>, c: char)
    requires
        forall|i: int| 0 <= i < s.len() ==> s[i] != c,
    ensures
        count(s, c) == 0,
    decreases s.len(),
{
    if s.len() > 0 {
        lemma_count_zero(s.drop_last(), c);
    }
}

proof fn lemma_count_pos(s: Seq<char>, i: int, c: char)
    requires
        0 <= i < s.len(),
        s[i] == c,
    ensures
        count(s, c) >= 1,
{
    lemma_count_subrange(s, i, i + 1, c);
    assert(s.subrange(i, i + 1) =~= seq![c]);
    lemma_count_single(c, c);
}

/// The text strictly between a region's start and its first closing mark
/// has fewer marks than the whole text.
pub proof fn lemma_inside_marks(lower: Seq<char>, abs: int, end: int, close: char)
    requires
        close == ')' || close == '`',
        0 <= abs <= end < lower.len(),
        occurs_at(lower, seq![close], end),
        forall|j: int| abs <= j < end ==> !occurs_at(lower, seq![close], j),
    ensures
        marks(lower.subrange(abs, end)) < marks(lower),
{
    let inside = lower.subrange(abs, end);
    assert(lower.subrange(end, end + 1) =~= seq![lower[end]]);
    assert forall|i: int| 0 <= i < inside.len() implies inside[i] != close by {
        assert(!occurs_at(lower, seq![close], abs + i));
        assert(lower.subrange(abs + i, abs + i + 1) =~= seq![lower[abs + i]]);
    }
    lemma_count_zero(inside, close);
    lemma_count_subrange(lower, abs, end, ')');
    lemma_count_subrange(lower, abs, end, '`');
    lemma_count_subrange(lower, end, lower.len() as int, close);
    lemma_count_pos(lower.subrange(end, lower.len() as int), 0, close);
}

/// Occurrences of byte `v` in `b`.
pub open spec fn count_byte(b: Seq<u8>, v: u8) -> nat
    decreases b.len(),
{
    if b.len() == 0 {
        0
    } else {
        (if b[0] == v {
            1nat
        } else {
            0nat
        }) + count_byte(b.drop_first(), v)
    }
}

proof fn lemma_count_byte_concat(a: Seq<u8>, b: Seq<u8>, v: u8)
    ensures
        count_byte(a + b, v) == count_byte(a, v) + count_byte(b, v),
    decreases a.len(),
{
    if a.len() == 0 {
        assert(a + b =~= b);
    } else {
        assert((a + b).drop_first() =~= a.drop_first() + b);
        lemma_count_byte_concat(a.drop_first(), b, v);
    }
}

proof fn lemma_high_bytes(x: u8)
    ensures
        (0x80u8 | x) >= 0x80,
        (0xC0u8 | x) >= 0x80,
        (0xE0u8 | x) >= 0x80,
        (0xF0u8 | x) >= 0x80,
{
    assert((0x80u8 | x) >= 0x80) by (bit_vector);
    assert((0xC0u8 | x) >= 0x80) by (bit_vector);
    assert((0xE0u8 | x) >= 0x80) by (bit_vector);
    assert((0xF0u8 | x) >= 0x80) by (bit_vector);
}

proof fn lemma_low_byte(v: u32)
    requires
        v <= 0x7f,
    ensures
        (v & 0x7f) == v,
{
    assert(v <= 0x7f ==> (v & 0x7f) == v) by (bit_vector);
}

/// An ASCII byte `v` occurs in the encoding of a character exactly when
/// the character is `v` itself.
proof fn lemma_count_byte_scalar(c: char, v: u8)
    requires
        v < 0x80,
    ensures
        count_byte(encode_scalar(c as u32), v) == (if c == (v as char) {
            1nat
        } else {
            0nat
        }),
{
    let u = c as u32;
    let e = encode_scalar(u);
    assert(count_byte(Seq::<u8>::empty(), v) == 0);
    if has_width_1_encoding(u) {
        lemma_low_byte(u);
        assert(e =~= seq![u as u8]);
        assert(e.drop_first() =~= Seq::<u8>::empty());
        assert(count_byte(e, v) == (if e[0] == v {
            1nat
        } else {
            0nat
        }) + count_byte(e.drop_first(), v));
        assert((c == (v as char)) == ((u as u8) == v));
    } else {
        let b1 = if has_width_2_encoding(u) {
            leading_byte_width_2(u)
        } else if has_width_3_encoding(u) {
            leading_byte_width_3(u)
        } else {
            leading_byte_width_4(u)
        };
        assert(b1 >= 0x80) by {
            lemma_high_bytes(((u >> 6) & 0x1F) as u8);
            lemma_high_bytes(((u >> 12) & 0x0F) as u8);
            lemma_high_bytes(((u >> 18) & 0x7) as u8);
        }
        lemma_high_bytes((u & 0x3F) as u8);
        lemma_high_bytes(((u >> 6) & 0x3F) as u8);
        lemma_high_bytes(((u >> 12) & 0x3F) as u8);
        assert forall|k: int| 0 <= k < e.len() implies e[k] >= 0x80 by {
            if has_width_2_encoding(u) {
                assert(e =~= seq![b1, last_continuation_byte(u)]);
            } else if has_width_3_encoding(u) {
                assert(e =~= seq![b1, second_last_continuation_byte(u), last_continuation_byte(u)]);
            } else {
                assert(e =~= seq![
                    b1,
                    third_last_continuation_byte(u),
                    second_last_continuation_byte(u),
                    last_continuation_byte(u),
                ]);
            }
        }
        lemma_count_byte_none(e, v);
        assert(c != (v as char));
    }
}

proof fn lemma_count_byte_none(b: Seq<u8>, v: u8)
    requires
        v < 0x80,
        forall|k: int| 0 <= k < b.len() ==> b[k] >= 0x80,
    ensures
        count_byte(b, v) == 0,
    decreases b.len(),
{
    if b.len() > 0 {
        lemma_count_byte_none(b.drop_first(), v);
    }
}

/// An ASCII character occurs in a string as often as its byte occurs in
/// the string's UTF-8 encoding.
proof fn lemma_count_encode(s: Seq<char>, c: char)
    requires
        (c as u32) < 0x80,
    ensures
        count_byte(encode_utf8(s), c as u8) == count(s, c),
    decreases s.len(),
{
    if s.len() > 0 {
        lemma_count_encode(s.drop_first(), c);
        lemma_count_byte_scalar(s[0], c as u8);
        lemma_count_byte_concat(encode_scalar(s[0] as u32), encode_utf8(s.drop_first()), c as u8);
        assert(s =~= seq![s[0]] + s.drop_first());
        lemma_count_concat(seq![s[0]], s.drop_first(), c);
        lemma_count_single(s[0], c);
        assert(((c as u8) as char) == c);
    }
}

/// Blanking quoted regions never adds a character: an ASCII character
/// occurs in the result at most as often as its byte occurs in the input.
proof fn lemma_count_strip(b: Seq<u8>, i: int, q: Option<u8>, c: char)
    requires
        0 <= i <= b.len(),
        (c as u32) < 0x80,
        c != ' ',
    ensures
        count(strip_from(b, i, q), c) <= count_byte(b.skip(i), c as u8),
    decreases b.len() - i,
{
    if i < b.len() {
        let x = b[i];
        assert(b.skip(i).drop_first() =~= b.skip(i + 1));
        lemma_count_strip(b, i + 1, None, c);
        lemma_count_strip(b, i + 1, if x == 0x27u8 || x == 0x22u8 {
            Some(x)
        } else {
            None
        }, c);
        lemma_count_strip(b, i + 1, q, c);
        if i + 2 <= b.len() {
            lemma_count_strip(b, i + 2, q, c);
            assert(b.skip(i + 1).drop_first() =~= b.skip(i + 2));
        }
        match q {
            None => {
                if x == 0x27u8 || x == 0x22u8 {
                    lemma_count_concat(seq![' '], strip_from(b, i + 1, Some(x)), c);
                    lemma_count_single(' ', c);
                } else {
                    lemma_count_concat(seq![byte_char(x)], strip_from(b, i + 1, None), c);
                    lemma_count_single(byte_char(x), c);
                    assert((byte_char(x) == c) == (x == c as u8));
                }
            },
            Some(_) => {},
        }
    } else {
        assert(strip_from(b, i, q) =~= Seq::<char>::empty());
    }
}

proof fn lemma_count_lower(s: Seq<char>, c: char)
    requires
        c == ')' || c == '`',
    ensures
        count(lower_all(s), c) == count(s, c),
    decreases s.len(),
{
    if s.len() > 0 {
        assert(lower_all(s).drop_last() =~= lower_all(s.drop_last()));
        lemma_count_lower(s.drop_last(), c);
        let x = s.last();
        if ('A' <= x && x <= 'Z') || ('\u{c0}' <= x && x <= '\u{d6}') || ('\u{d8}' <= x && x
            <= '\u{de}') {
            assert((((x as u32) + 32) as u8) as u32 == (x as u32) + 32);
        }
    }
}

/// Lowering and blanking never add a closing mark.
pub proof fn lemma_marks_lowered(cmd: Seq<char>)
    ensures
        marks(lowered(cmd)) <= marks(cmd),
{
    let b = encode_utf8(cmd);
    assert(b.skip(0) =~= b);
    lemma_count_strip(b, 0, None, ')');
    lemma_count_strip(b, 0, None, '`');
    lemma_count_encode(cmd, ')');
    lemma_count_encode(cmd, '`');
    lemma_count_lower(unquoted(cmd), ')');
    lemma_count_lower(unquoted(cmd), '`');
}

} // verus!

verus! {

// ---------------------------------------------------------------------------
// Lemmas: splitting
// ---------------------------------------------------------------------------

proof fn lemma_split_segments_len(s: Seq<char>)
    ensures
        split_segments(s).len() >= 1,
    decreases s.len(),
{
    if s.len() > 0 {
        lemma_split_segments_len(s.drop_last());
    }
}

proof fn lemma_split_ws_len(s: Seq<char>)
    ensures
        split_ws(s).len() >= 1,
    decreases s.len(),
{
    if s.len() > 0 {
        lemma_split_ws_len(s.drop_last());
    }
}

proof fn lemma_nonempty_push(ws: Seq<Seq<char>>, w: Seq<char>)
    ensures
        nonempty(ws.push(w)) == (if w.len() == 0 {
            nonempty(ws)
        } else {
            nonempty(ws).push(w)
        }),
{
    assert(ws.push(w).drop_last() =~= ws);
}

proof fn lemma_split_stable(s: Seq<char>, n: int, m: int, k: int)
    requires
        0 <= n <= m <= s.len(),
        0 <= k < split_segments(s.take(n)).len() - 1,
    ensures
        k < split_segments(s.take(m)).len() - 1,
        split_segments(s.take(m))[k] == split_segments(s.take(n))[k],
    decreases m - n,
{
    if m > n {
        lemma_split_stable(s, n, m - 1, k);
        assert(s.take(m).drop_last() =~= s.take(m - 1));
        lemma_split_segments_len(s.take(m - 1));
    }
}

proof fn lemma_segments_prefix(s: Seq<char>, n: int, k: int, pv: Seq<PatternView>)
    requires
        0 <= n <= s.len(),
        0 <= k < split_segments(s.take(n)).len() - 1,
        segment_ok(split_segments(s.take(n))[k], pv),
    ensures
        segments_match(s, pv),
{
    lemma_split_stable(s, n, s.len() as int, k);
    assert(s.take(s.len() as int) =~= s);
    let segs = split_segments(s);
    assert(segment_ok(segs[k], pv));
}

// ---------------------------------------------------------------------------
// Executable matcher
// ---------------------------------------------------------------------------

/// Strip content inside single and double quotes, replacing with spaces.
///
/// Handles nested quotes (single inside double and vice versa) by only
/// tracking the outermost quote character. Escaped quotes (`\"`, `\'`)
/// inside double-quoted regions are skipped.
pub fn strip_quoted_regions(s: &str) -> (out: String)
    ensures
        out@ == unquoted(s@),
{
    let bytes = s.as_bytes();
    let ghost b = bytes@;
    let mut out = String::new();
    let mut i: usize = 0;
    let mut in_quote: Option<u8> = None;
    assert(Seq::<char>::empty() + strip_from(b, 0, None) =~= strip_from(b, 0, None));
    while i < bytes.len()
        invariant
            b == bytes@,
            b == encode_utf8(s@),
            i <= bytes.len(),
            out@ + strip_from(b, i as int, in_quote) == strip_from(b, 0, None),
        decreases bytes.len() - i,
    {
        let c = bytes[i];
        match in_quote {
            None => {
                if c == 0x27u8 || c == 0x22u8 {
                    in_quote = Some(c);
                    push_char(&mut out, ' ');
                } else {
                    push_char(&mut out, c as char);
                }
            },
            Some(q) => {
                if c == 0x5cu8 && q == 0x22u8 && i + 1 < bytes.len() {
                    i = i + 2;
                    continue ;
                }
                if c == q {
                    in_quote = None;
                }
            },
        }
        i = i + 1;
    }
    assert(strip_from(b, i as int, in_quote) =~= Seq::<char>::empty());
    assert(out@ + Seq::<char>::empty() =~= out@);
    out
}


/// The character sequences held by a vector of character vectors.
pub open spec fn seqs_view(v: Seq<Vec<char>>) -> Seq<Seq<char>> {
    v.map_values(|w: Vec<char>| w@)
}

fn lower_char(c: char) -> (r: char)
    ensures
        r == lower_latin1(c),
{
    if ('A' <= c && c <= 'Z') || ('\u{c0}' <= c && c <= '\u{d6}') || ('\u{d8}' <= c && c
        <= '\u{de}') {
        (((c as u32) + 32) as u8) as char
    } else {
        c
    }
}

fn lower_chars(s: &[char]) -> (r: Vec<char>)
    ensures
        r@ == lower_all(s@),
{
    let mut r: Vec<char> = Vec::new();
    let mut i: usize = 0;
    while i < s.len()
        invariant
            i <= s.len(),
            r@ == lower_all(s@.take(i as int)),
        decreases s.len() - i,
    {
        r.push(lower_char(s[i]));
        assert(lower_all(s@.take(i as int + 1)) =~= lower_all(s@.take(i as int)).push(
            lower_latin1(s@[i as int]),
        ));
        i = i + 1;
    }
    assert(s@.take(s.len() as int) =~= s@);
    r
}

/// The whitespace-separated words of `s`.
pub fn words_of(s: &[char]) -> (r: Vec<Vec<char>>)
    ensures
        seqs_view(r@) == words(s@),
{
    let mut toks: Vec<Vec<char>> = Vec::new();
    let mut cur: Vec<char> = Vec::new();
    let mut i: usize = 0;
    assert(s@.take(0) =~= Seq::<char>::empty());
    assert(seqs_view(toks@) =~= nonempty(split_ws(s@.take(0)).drop_last()));
    while i < s.len()
        invariant
            i <= s.len(),
            seqs_view(toks@) == nonempty(split_ws(s@.take(i as int)).drop_last()),
            cur@ == split_ws(s@.take(i as int)).last(),
            split_ws(s@.take(i as int)).len() >= 1,
        decreases s.len() - i,
    {
        let ghost pre = split_ws(s@.take(i as int));
        let c = s[i];
        assert(s@.take(i as int + 1).drop_last() =~= s@.take(i as int));
        assert(s@.take(i as int + 1).last() == c);
        assert(pre =~= pre.drop_last().push(pre.last()));
        if is_whitespace(c) {
            proof {
                lemma_nonempty_push(pre.drop_last(), pre.last());
            }
            if cur.len() > 0 {
                let w = cur;
                toks.push(w);
                cur = Vec::new();
                assert(seqs_view(toks@) =~= seqs_view(toks@.drop_last()).push(
                    toks@.last()@,
                ));
            } else {
                cur = Vec::new();
            }
            assert(split_ws(s@.take(i as int + 1)).drop_last() =~= pre);
        } else {
            cur.push(c);
            assert(split_ws(s@.take(i as int + 1)) =~= pre.drop_last().push(
                pre.last().push(c),
            ));
            assert(split_ws(s@.take(i as int + 1)).drop_last() =~= pre.drop_last());
        }
        i = i + 1;
    }
    assert(s@.take(s.len() as int) =~= s@);
    let ghost fin = split_ws(s@);
    assert(fin =~= fin.drop_last().push(fin.last()));
    proof {
        lemma_nonempty_push(fin.drop_last(), fin.last());
    }
    if cur.len() > 0 {
        toks.push(cur);
        assert(seqs_view(toks@) =~= seqs_view(toks@.drop_last()).push(toks@.last()@));
    }
    toks
}

fn takes_argument_exec(t: &[char]) -> (r: bool)
    ensures
        r == takes_argument(t@),
{
    let a = chars_of("-c");
    let b = chars_of("-C");
    let c = chars_of("--git-dir");
    let d = chars_of("--work-tree");
    chars_eq(t, a.as_slice()) || chars_eq(t, b.as_slice()) || chars_eq(t, c.as_slice())
        || chars_eq(t, d.as_slice())
}

/// Check if tokens contain `binary [flags...] subcommand_tokens...`.
fn matches_binary_subcommand(tokens: &Vec<Vec<char>>, binary: &[char], subcmds: &Vec<Vec<char>>) -> (r: bool)
    ensures
        r == scan_tokens(seqs_view(tokens@), 0, binary@, seqs_view(subcmds@), false, false, 0),
{
    let ghost toks = seqs_view(tokens@);
    let ghost subs = seqs_view(subcmds@);
    let mut found_binary = false;
    let mut skip_next = false;
    let mut subcmd_idx: usize = 0;
    let mut i: usize = 0;
    while i < tokens.len()
        invariant
            toks == seqs_view(tokens@),
            subs == seqs_view(subcmds@),
            i <= tokens.len(),
            subcmd_idx <= subcmds.len(),
            scan_tokens(toks, 0, binary@, subs, false, false, 0) == scan_tokens(
                toks,
                i as int,
                binary@,
                subs,
                found_binary,
                skip_next,
                subcmd_idx as int,
            ),
        decreases tokens.len() - i,
    {
        let token = &tokens[i];
        assert(toks[i as int] == token@);
        if skip_next {
            skip_next = false;
            i = i + 1;
            continue ;
        }
        if !found_binary {
            if chars_eq(token.as_slice(), binary) {
                if subcmds.len() == 0 {
                    return true;
                }
                found_binary = true;
                subcmd_idx = 0;
            }
            i = i + 1;
            continue ;
        }
        if token.len() > 0 && token[0] == '-' {
            if takes_argument_exec(token.as_slice()) {
                skip_next = true;
            }
            i = i + 1;
            continue ;
        }
        if subcmd_idx < subcmds.len() && chars_eq(token.as_slice(), subcmds[subcmd_idx].as_slice()) {
            assert(subs[subcmd_idx as int] == subcmds@[subcmd_idx as int]@);
            subcmd_idx = subcmd_idx + 1;
            if subcmd_idx == subcmds.len() {
                return true;
            }
        } else {
            proof {
                if subcmd_idx < subcmds.len() {
                    assert(subs[subcmd_idx as int] == subcmds@[subcmd_idx as int]@);
                }
            }
            found_binary = false;
        }
        i = i + 1;
    }
    false
}

/// The words of each subcommand string of a pattern, as character vectors.
fn pattern_chars(p: &(String, Vec<String>)) -> (r: (Vec<char>, Vec<Vec<char>>))
    ensures
        r.0@ == p.0@,
        seqs_view(r.1@) == p.1@.map_values(|t: String| t@),
{
    let b = chars_of(p.0.as_str());
    let mut subs: Vec<Vec<char>> = Vec::new();
    let mut i: usize = 0;
    while i < p.1.len()
        invariant
            i <= p.1.len(),
            seqs_view(subs@) == p.1@.take(i as int).map_values(|t: String| t@),
        decreases p.1.len() - i,
    {
        let w = chars_of(p.1[i].as_str());
        assert(w@ == p.1@[i as int]@);
        let ghost before = subs@;
        subs.push(w);
        assert(subs@ =~= before.push(w));
        assert(seqs_view(subs@) =~= seqs_view(before).push(w@));
        assert(p.1@.take(i as int + 1).map_values(|t: String| t@) =~= p.1@.take(i as int).map_values(
            |t: String| t@,
        ).push(p.1@[i as int]@));
        i = i + 1;
    }
    assert(p.1@.take(p.1.len() as int) =~= p.1@);
    (b, subs)
}

/// Check if a single command segment's words match any pattern.
fn segment_matches_any(segment: &[char], patterns: &[(String, Vec<String>)]) -> (r: bool)
    ensures
        r == any_pattern(words(segment@), patterns_view(patterns@)),
{
    let tokens = words_of(segment);
    let ghost pv = patterns_view(patterns@);
    let mut j: usize = 0;
    while j < patterns.len()
        invariant
            j <= patterns.len(),
            pv == patterns_view(patterns@),
            seqs_view(tokens@) == words(segment@),
            forall|k: int| 0 <= k < j ==> !matches_pattern(words(segment@), #[trigger] pv[k]),
        decreases patterns.len() - j,
    {
        let (binary, subcmds) = pattern_chars(&patterns[j]);
        assert(pv[j as int] == (binary@, seqs_view(subcmds@)));
        if matches_binary_subcommand(&tokens, binary.as_slice(), &subcmds) {
            return true;
        }
        j = j + 1;
    }
    false
}

fn segment_ok_exec(seg: &[char], patterns: &[(String, Vec<String>)]) -> (r: bool)
    ensures
        r == segment_ok(seg@, patterns_view(patterns@)),
{
    let (lo, hi) = trim_bounds(seg);
    if lo == hi {
        return false;
    }
    let t = &seg[lo..hi];
    if t[0] == '#' {
        return false;
    }
    segment_matches_any(t, patterns)
}

fn segments_match_exec(lower: &[char], patterns: &[(String, Vec<String>)]) -> (r: bool)
    ensures
        r == segments_match(lower@, patterns_view(patterns@)),
{
    let ghost pv = patterns_view(patterns@);
    let mut start: usize = 0;
    let mut i: usize = 0;
    assert(lower@.take(0) =~= Seq::<char>::empty());
    assert(lower@.subrange(0, 0) =~= Seq::<char>::empty());
    while i < lower.len()
        invariant
            pv == patterns_view(patterns@),
            start <= i <= lower.len(),
            split_segments(lower@.take(i as int)).len() >= 1,
            split_segments(lower@.take(i as int)).last() == lower@.subrange(start as int, i as int),
            forall|k: int|
                0 <= k < split_segments(lower@.take(i as int)).len() - 1 ==> !segment_ok(
                    #[trigger] split_segments(lower@.take(i as int))[k],
                    pv,
                ),
        decreases lower.len() - i,
    {
        let ghost pre = split_segments(lower@.take(i as int));
        let c = lower[i];
        assert(lower@.take(i as int + 1).drop_last() =~= lower@.take(i as int));
        assert(lower@.take(i as int + 1).last() == c);
        if c == '&' || c == '|' || c == ';' || c == '\n' {
            if segment_ok_exec(&lower[start..i], patterns) {
                proof {
                    let post = split_segments(lower@.take(i as int + 1));
                    assert(post == pre.push(seq![]));
                    assert(post[pre.len() - 1] == pre.last());
                }
                let ghost post = split_segments(lower@.take(i as int + 1));
                assert(post[pre.len() - 1] == pre.last());
                assert(segment_ok(post[pre.len() - 1], pv));
                assert(segments_match(lower@, pv)) by {
                    lemma_segments_prefix(lower@, i as int + 1, pre.len() - 1, pv);
                }
                return true;
            }
            assert(lower@.subrange(i as int + 1, i as int + 1) =~= Seq::<char>::empty());
            start = i + 1;
        } else {
            assert(lower@.subrange(start as int, i as int + 1) =~= lower@.subrange(
                start as int,
                i as int,
            ).push(c));
        }
        i = i + 1;
    }
    assert(lower@.take(lower.len() as int) =~= lower@);
    let ok = segment_ok_exec(&lower[start..lower.len()], patterns);
    let ghost segs = split_segments(lower@);
    assert(forall|k: int| 0 <= k < segs.len() - 1 ==> !segment_ok(#[trigger] segs[k], pv));
    assert(segs[segs.len() - 1] == lower@.subrange(start as int, lower.len() as int));
    ok
}


fn copy_range(s: &[char], lo: usize, hi: usize) -> (r: String)
    requires
        lo <= hi <= s@.len(),
    ensures
        r@ == s@.subrange(lo as int, hi as int),
{
    string_from_chars(&s[lo..hi])
}

/// Inner matching logic against pre-parsed patterns: some chained segment
/// of the unquoted, lowercased command matches, or a subshell does.
pub fn command_matches_parsed(command: &str, patterns: &[(String, Vec<String>)]) -> (r: bool)
    ensures
        r == command_matches_spec(command@, patterns_view(patterns@)),
    decreases marks(command@), 1int, 0int,
{
    // Strip quoted regions first so data inside strings doesn't trigger
    // false positives.
    let unquoted_text = strip_quoted_regions(command);
    let unquoted_chars = chars_of(unquoted_text.as_str());
    // Lowercase once for case-insensitive matching at all levels.
    let lower = lower_chars(unquoted_chars.as_slice());
    proof {
        lemma_marks_lowered(command@);
    }
    if segments_match_exec(lower.as_slice(), patterns) {
        return true;
    }
    contains_in_subshell_lowered(lower.as_slice(), patterns)
}

/// Detect patterns inside subshells: `$(...)` and backtick expressions.
/// Input should already be lowercased.
fn contains_in_subshell_lowered(lower: &[char], patterns: &[(String, Vec<String>)]) -> (r: bool)
    ensures
        r == (dollar_scan(lower@, patterns_view(patterns@), 0) || tick_scan(
            lower@,
            patterns_view(patterns@),
            0,
        )),
    decreases marks(lower@), 0int, 0int,
{
    let ghost pv = patterns_view(patterns@);
    let dollar = chars_of("$(");
    let close = chars_of(")");
    let tick = chars_of("`");
    assert(close@ =~= seq![')']) by {
        reveal_strlit(")");
    }
    assert(tick@ =~= seq!['`']) by {
        reveal_strlit("`");
    }
    let mut pos: usize = 0;
    loop
        invariant
            pv == patterns_view(patterns@),
            dollar@ == "$("@,
            close@ == seq![')'],
            pos <= lower.len(),
            dollar_scan(lower@, pv, 0) == dollar_scan(lower@, pv, pos as int),
        ensures
            !dollar_scan(lower@, pv, 0),
        decreases lower.len() + 1 - pos,
    {
        match find_chars(lower, dollar.as_slice(), pos) {
            None => {
                assert(!dollar_scan(lower@, pv, pos as int));
                break ;
            },
            Some(start) => {
                proof {
                    lemma_find_from_contains(lower@, "$("@, pos as int);
                }
                assert(dollar@.len() == 2) by {
                    reveal_strlit("$(");
                }
                let abs_start = start + 2;
                match find_chars(lower, close.as_slice(), abs_start) {
                    None => {
                        assert(!dollar_scan(lower@, pv, pos as int));
                        break ;
                    },
                    Some(end) => {
                        proof {
                            lemma_find_from_contains(lower@, seq![')'], abs_start as int);
                            lemma_inside_marks(lower@, abs_start as int, end as int, ')');
                        }
                        let inside = copy_range(lower, abs_start, end);
                        if command_matches_parsed(inside.as_str(), patterns) {
                            return true;
                        }
                        pos = end + 1;
                    },
                }
            },
        }
    }
    let mut pos: usize = 0;
    loop
        invariant
            pv == patterns_view(patterns@),
            tick@ == seq!['`'],
            pos <= lower.len(),
            !dollar_scan(lower@, pv, 0),
            tick_scan(lower@, pv, 0) == tick_scan(lower@, pv, pos as int),
        ensures
            !tick_scan(lower@, pv, 0),
        decreases lower.len() + 1 - pos,
    {
        match find_chars(lower, tick.as_slice(), pos) {
            None => {
                assert(!tick_scan(lower@, pv, pos as int));
                break ;
            },
            Some(start) => {
                proof {
                    lemma_find_from_contains(lower@, seq!['`'], pos as int);
                }
                let abs_start = start + 1;
                match find_chars(lower, tick.as_slice(), abs_start) {
                    None => {
                        assert(!tick_scan(lower@, pv, pos as int));
                        break ;
                    },
                    Some(end) => {
                        proof {
                            lemma_find_from_contains(lower@, seq!['`'], abs_start as int);
                            lemma_inside_marks(lower@, abs_start as int, end as int, '`');
                        }
                        let inside = copy_range(lower, abs_start, end);
                        if command_matches_parsed(inside.as_str(), patterns) {
                            return true;
                        }
                        pos = end + 1;
                    },
                }
            },
        }
    }
    false
}


/// The patterns parsed from pattern strings.
pub open spec fn parse_patterns_spec(p: Seq<String>) -> Seq<PatternView> {
    p.map_values(|x: String| parse_pattern_spec(x@))
}

fn parse_pattern(p: &str) -> (r: (String, Vec<String>))
    ensures
        (r.0@, r.1@.map_values(|t: String| t@)) == parse_pattern_spec(p@),
{
    let cs = chars_of(p);
    let parts = words_of(cs.as_slice());
    let ghost pw = words(p@);
    let binary = if parts.len() > 0 {
        let first = string_from_chars(parts[0].as_slice());
        to_lowercase(first.as_str())
    } else {
        let empty = String::new();
        to_lowercase(empty.as_str())
    };
    let mut subcmds: Vec<String> = Vec::new();
    let mut i: usize = 1;
    while i < parts.len()
        invariant
            1 <= i <= parts.len() || (parts.len() == 0 && i == 1),
            pw == seqs_view(parts@),
            subcmds@.map_values(|t: String| t@) == rest_words(pw).take(i - 1).map_values(
                |t: Seq<char>| unicode_lowercase(t),
            ),
        decreases parts.len() - i,
    {
        let w = string_from_chars(parts[i].as_slice());
        let l = to_lowercase(w.as_str());
        let ghost before = subcmds@;
        subcmds.push(l);
        assert(subcmds@ =~= before.push(l));
        assert(rest_words(pw).take(i as int) =~= rest_words(pw).take(i - 1).push(pw[i as int]));
        assert(subcmds@.map_values(|t: String| t@) =~= before.map_values(|t: String| t@).push(
            l@,
        ));
        assert(rest_words(pw).take(i as int).map_values(|t: Seq<char>| unicode_lowercase(t))
            =~= rest_words(pw).take(i - 1).map_values(|t: Seq<char>| unicode_lowercase(t)).push(
            unicode_lowercase(pw[i as int]),
        ));
        i = i + 1;
    }
    proof {
        if parts.len() > 0 {
            assert(rest_words(pw).take(i - 1) =~= rest_words(pw));
        } else {
            assert(rest_words(pw).take(0) =~= Seq::<Seq<char>>::empty());
        }
    }
    (binary, subcmds)
}

/// Parse command pattern strings into (binary, subcommand tokens) pairs.
pub fn parse_patterns(patterns: &[String]) -> (r: Vec<(String, Vec<String>)>)
    ensures
        patterns_view(r@) == parse_patterns_spec(patterns@),
{
    let mut out: Vec<(String, Vec<String>)> = Vec::new();
    let mut i: usize = 0;
    while i < patterns.len()
        invariant
            i <= patterns.len(),
            patterns_view(out@) == parse_patterns_spec(patterns@.take(i as int)),
        decreases patterns.len() - i,
    {
        let pp = parse_pattern(patterns[i].as_str());
        let ghost before = out@;
        out.push(pp);
        assert(out@ =~= before.push(pp));
        assert(patterns_view(out@) =~= patterns_view(before).push(
            (pp.0@, pp.1@.map_values(|t: String| t@)),
        ));
        assert(parse_patterns_spec(patterns@.take(i as int + 1)) =~= parse_patterns_spec(
            patterns@.take(i as int),
        ).push(parse_pattern_spec(patterns@[i as int]@)));
        i = i + 1;
    }
    assert(patterns@.take(patterns.len() as int) =~= patterns@);
    out
}

/// Check if a bash command matches any of the given command patterns.
///
/// Each pattern is `"binary subcommand"` (e.g. `"git commit"`,
/// `"gh pr merge"`). Handles chained commands (`&&`, `||`, `;`, newlines),
/// flags between binary and subcommand, and subshells (`$(...)`,
/// backticks). An empty pattern list never matches.
pub fn command_matches_patterns(command: &str, patterns: &[String]) -> (r: bool)
    ensures
        r == (patterns@.len() > 0 && command_matches_spec(
            command@,
            parse_patterns_spec(patterns@),
        )),
{
    if patterns.len() == 0 {
        return false;
    }
    let parsed = parse_patterns(patterns);
    command_matches_parsed(command, parsed.as_slice())
}


// ---------------------------------------------------------------------------
// Laws
// ---------------------------------------------------------------------------

proof fn lemma_any_pattern_mono(toks: Seq<Seq<char>>, p: Seq<PatternView>, q: Seq<PatternView>)
    requires
        any_pattern(toks, p),
    ensures
        any_pattern(toks, p + q),
{
    let j = choose|j: int| 0 <= j < p.len() && matches_pattern(toks, #[trigger] p[j]);
    assert((p + q)[j] == p[j]);
}

proof fn lemma_segments_mono(lower: Seq<char>, p: Seq<PatternView>, q: Seq<PatternView>)
    requires
        segments_match(lower, p),
    ensures
        segments_match(lower, p + q),
{
    let segs = split_segments(lower);
    let k = choose|k: int| 0 <= k < segs.len() && segment_ok(#[trigger] segs[k], p);
    lemma_any_pattern_mono(words(trim(segs[k])), p, q);
    assert(segment_ok(segs[k], p + q));
}

proof fn lemma_dollar_mono(lower: Seq<char>, p: Seq<PatternView>, q: Seq<PatternView>, pos: int)
    requires
        dollar_scan(lower, p, pos),
    ensures
        dollar_scan(lower, p + q, pos),
    decreases marks(lower), 0int, lower.len() + 1 - pos,
{
    let start = find_from(lower, "$("@, pos)->0;
    let abs = start + 2;
    let end = find_from(lower, seq![')'], abs)->0;
    lemma_find_from_contains(lower, "$("@, pos);
    lemma_find_from_contains(lower, seq![')'], abs);
    lemma_inside_marks(lower, abs, end, ')');
    if command_matches_spec(lower.subrange(abs, end), p) {
        law_more_patterns_still_match(lower.subrange(abs, end), p, q);
    } else {
        lemma_dollar_mono(lower, p, q, end + 1);
    }
}

proof fn lemma_tick_mono(lower: Seq<char>, p: Seq<PatternView>, q: Seq<PatternView>, pos: int)
    requires
        tick_scan(lower, p, pos),
    ensures
        tick_scan(lower, p + q, pos),
    decreases marks(lower), 0int, lower.len() + 1 - pos,
{
    let start = find_from(lower, seq!['`'], pos)->0;
    let abs = start + 1;
    let end = find_from(lower, seq!['`'], abs)->0;
    lemma_find_from_contains(lower, seq!['`'], pos);
    lemma_find_from_contains(lower, seq!['`'], abs);
    lemma_inside_marks(lower, abs, end, '`');
    if command_matches_spec(lower.subrange(abs, end), p) {
        law_more_patterns_still_match(lower.subrange(abs, end), p, q);
    } else {
        lemma_tick_mono(lower, p, q, end + 1);
    }
}

/// Adding patterns never turns a matching command into a non-matching one:
/// a command guarded by a pattern list stays guarded when the list grows.
pub proof fn law_more_patterns_still_match(
    cmd: Seq<char>,
    p: Seq<PatternView>,
    q: Seq<PatternView>,
)
    requires
        command_matches_spec(cmd, p),
    ensures
        command_matches_spec(cmd, p + q),
    decreases marks(cmd), 1int, 0int,
{
    let lower = lowered(cmd);
    lemma_marks_lowered(cmd);
    if segments_match(lower, p) {
        lemma_segments_mono(lower, p, q);
    } else if dollar_scan(lower, p, 0) {
        lemma_dollar_mono(lower, p, q, 0);
    } else {
        lemma_tick_mono(lower, p, q, 0);
    }
}

proof fn lemma_dollar_none(lower: Seq<char>, pos: int)
    ensures
        !dollar_scan(lower, Seq::empty(), pos),
    decreases marks(lower), 0int, lower.len() + 1 - pos,
{
    if pos >= 0 {
        if let Some(start) = find_from(lower, "$("@, pos) {
            let abs = start + 2;
            if let Some(end) = find_from(lower, seq![')'], abs) {
                lemma_find_from_contains(lower, "$("@, pos);
                lemma_find_from_contains(lower, seq![')'], abs);
                lemma_inside_marks(lower, abs, end, ')');
                law_no_patterns_never_match(lower.subrange(abs, end));
                lemma_dollar_none(lower, end + 1);
            }
        }
    }
}

proof fn lemma_tick_none(lower: Seq<char>, pos: int)
    ensures
        !tick_scan(lower, Seq::empty(), pos),
    decreases marks(lower), 0int, lower.len() + 1 - pos,
{
    if pos >= 0 {
        if let Some(start) = find_from(lower, seq!['`'], pos) {
            let abs = start + 1;
            if let Some(end) = find_from(lower, seq!['`'], abs) {
                lemma_find_from_contains(lower, seq!['`'], pos);
                lemma_find_from_contains(lower, seq!['`'], abs);
                lemma_inside_marks(lower, abs, end, '`');
                law_no_patterns_never_match(lower.subrange(abs, end));
                lemma_tick_none(lower, end + 1);
            }
        }
    }
}

/// With no patterns, no command matches, whatever its chaining or subshells.
pub proof fn law_no_patterns_never_match(cmd: Seq<char>)
    ensures
        !command_matches_spec(cmd, Seq::empty()),
    decreases marks(cmd), 1int, 0int,
{
    lemma_marks_lowered(cmd);
    lemma_dollar_none(lowered(cmd), 0);
    lemma_tick_none(lowered(cmd), 0);
}

/// Only the unquoted text of a command decides whether it matches: two
/// commands that differ only inside quotes match the same patterns.
pub proof fn law_quoted_text_is_ignored(c1: Seq<char>, c2: Seq<char>, p: Seq<PatternView>)
    requires
        unquoted(c1) == unquoted(c2),
    ensures
        command_matches_spec(c1, p) == command_matches_spec(c2, p),
{
    assert(lowered(c1) == lowered(c2));
}

/// A chained segment that matches makes the whole command match, whatever
/// the other segments hold.
pub proof fn law_matching_segment_suffices(cmd: Seq<char>, p: Seq<PatternView>, k: int)
    requires
        0 <= k < split_segments(lowered(cmd)).len(),
        segment_ok(split_segments(lowered(cmd))[k], p),
    ensures
        command_matches_spec(cmd, p),
{
}

proof fn lemma_first_close_is(lower: Seq<char>, from: int, e: int)
    requires
        0 <= from <= e < lower.len(),
        lower[e] == ')',
        forall|c: int| from <= c < e ==> lower[c] != ')',
    ensures
        find_from(lower, seq![')'], from) == Some(e),
{
    lemma_find_from_contains(lower, seq![')'], from);
    assert(occurs_at(lower, seq![')'], e)) by {
        assert(lower.subrange(e, e + 1) =~= seq![')']);
    }
    let i = find_from(lower, seq![')'], from)->0;
    assert(lower.subrange(i, i + 1)[0] == lower[i]);
    if i < e {
        assert(lower[i] == ')');
    }
}

proof fn lemma_dollar_scan_reaches(
    lower: Seq<char>,
    pats: Seq<PatternView>,
    pos: int,
    a: int,
    e: int,
)
    requires
        0 <= pos <= a,
        occurs_at(lower, "$("@, a),
        a + 2 <= e < lower.len(),
        lower[e] == ')',
        forall|c: int| a + 2 <= c < e ==> lower[c] != ')',
        forall|b: int|
            pos <= b < a && #[trigger] occurs_at(lower, "$("@, b) ==> exists|c: int|
                b + 2 <= c < a && lower[c] == ')',
        command_matches_spec(lower.subrange(a + 2, e), pats),
    ensures
        dollar_scan(lower, pats, pos),
    decreases a - pos,
{
    lemma_find_from_contains(lower, "$("@, pos);
    let start = find_from(lower, "$("@, pos)->0;
    assert(start <= a);
    if start == a {
        lemma_first_close_is(lower, a + 2, e);
    } else {
        let c = choose|c: int| start + 2 <= c < a && lower[c] == ')';
        lemma_find_from_contains(lower, seq![')'], start + 2);
        assert(occurs_at(lower, seq![')'], c)) by {
            assert(lower.subrange(c, c + 1) =~= seq![')']);
        }
        let end = find_from(lower, seq![')'], start + 2)->0;
        assert(end <= c);
        lemma_dollar_scan_reaches(lower, pats, end + 1, a, e);
    }
}

/// A command matches when the text inside any of its `$(...)` regions
/// matches, not only the first: the region opened by `$(` at `a` and
/// closed by the first `)` after it, at `e`, counts as long as every
/// `$(` before it was closed before `a` (so it is not inside another
/// region).
pub proof fn law_any_dollar_region_matches(cmd: Seq<char>, pats: Seq<PatternView>, a: int, e: int)
    requires
        occurs_at(lowered(cmd), "$("@, a),
        a + 2 <= e < lowered(cmd).len(),
        lowered(cmd)[e] == ')',
        forall|c: int| a + 2 <= c < e ==> lowered(cmd)[c] != ')',
        forall|b: int|
            0 <= b < a && #[trigger] occurs_at(lowered(cmd), "$("@, b) ==> exists|c: int|
                b + 2 <= c < a && lowered(cmd)[c] == ')',
        command_matches_spec(lowered(cmd).subrange(a + 2, e), pats),
    ensures
        command_matches_spec(cmd, pats),
{
    lemma_dollar_scan_reaches(lowered(cmd), pats, 0, a, e);
}

proof fn lemma_first_tick_is(lower: Seq<char>, from: int, e: int)
    requires
        0 <= from <= e < lower.len(),
        lower[e] == '`',
        forall|c: int| from <= c < e ==> lower[c] != '`',
    ensures
        find_from(lower, seq!['`'], from) == Some(e),
{
    lemma_find_from_contains(lower, seq!['`'], from);
    assert(occurs_at(lower, seq!['`'], e)) by {
        assert(lower.subrange(e, e + 1) =~= seq!['`']);
    }
    let i = find_from(lower, seq!['`'], from)->0;
    assert(lower.subrange(i, i + 1)[0] == lower[i]);
    if i < e {
        assert(lower[i] == '`');
    }
}

proof fn lemma_tick_scan_reaches(
    lower: Seq<char>,
    pats: Seq<PatternView>,
    pos: int,
    ps: Seq<int>,
    a: int,
    e: int,
)
    requires
        0 <= pos <= a,
        a < e < lower.len(),
        lower[a] == '`',
        lower[e] == '`',
        forall|c: int| a < c < e ==> lower[c] != '`',
        ps.len() % 2 == 0,
        forall|i: int| 0 <= i < ps.len() ==> pos <= #[trigger] ps[i] < a && lower[ps[i]] == '`',
        forall|i: int, j: int| 0 <= i < j < ps.len() ==> ps[i] < ps[j],
        forall|c: int| pos <= c < a && lower[c] == '`' ==> exists|i: int| 0 <= i < ps.len() && ps[i] == c,
        command_matches_spec(lower.subrange(a + 1, e), pats),
    ensures
        tick_scan(lower, pats, pos),
    decreases ps.len(),
{
    if ps.len() == 0 {
        lemma_first_tick_is(lower, pos, a);
        lemma_first_tick_is(lower, a + 1, e);
    } else {
        assert forall|c: int| pos <= c < ps[0] implies lower[c] != '`' by {
            if lower[c] == '`' {
                let i = choose|i: int| 0 <= i < ps.len() && ps[i] == c;
                if i > 0 {
                    assert(ps[0] < ps[i]);
                }
            }
        }
        lemma_first_tick_is(lower, pos, ps[0]);
        assert forall|c: int| ps[0] + 1 <= c < ps[1] implies lower[c] != '`' by {
            if lower[c] == '`' {
                let i = choose|i: int| 0 <= i < ps.len() && ps[i] == c;
                if i == 0 {
                } else if i > 1 {
                    assert(ps[1] < ps[i]);
                }
            }
        }
        lemma_first_tick_is(lower, ps[0] + 1, ps[1]);
        let rest = ps.skip(2);
        assert forall|c: int| ps[1] + 1 <= c < a && lower[c] == '`' implies exists|i: int|
            0 <= i < rest.len() && rest[i] == c by {
            let i = choose|i: int| 0 <= i < ps.len() && ps[i] == c;
            if i < 2 {
                if i == 0 {
                    assert(ps[0] < ps[1]);
                }
            } else {
                assert(rest[i - 2] == c);
            }
        }
        assert forall|i: int| 0 <= i < rest.len() implies ps[1] + 1 <= #[trigger] rest[i] < a
            && lower[rest[i]] == '`' by {
            assert(rest[i] == ps[i + 2]);
            assert(ps[1] < ps[i + 2]);
        }
        assert forall|i: int, j: int| 0 <= i < j < rest.len() implies rest[i] < rest[j] by {
            assert(rest[i] == ps[i + 2]);
            assert(rest[j] == ps[j + 2]);
        }
        lemma_tick_scan_reaches(lower, pats, ps[1] + 1, rest, a, e);
    }
}

/// A command matches when the text inside any of its backtick regions
/// matches, not only the first: the region opened by the backtick at `a`
/// and closed by the next backtick, at `e`, counts when the backticks
/// before `a` (at the increasing positions `ps`) pair up among themselves.
pub proof fn law_any_backtick_region_matches(
    cmd: Seq<char>,
    pats: Seq<PatternView>,
    ps: Seq<int>,
    a: int,
    e: int,
)
    requires
        0 <= a < e < lowered(cmd).len(),
        lowered(cmd)[a] == '`',
        lowered(cmd)[e] == '`',
        forall|c: int| a < c < e ==> lowered(cmd)[c] != '`',
        ps.len() % 2 == 0,
        forall|i: int| 0 <= i < ps.len() ==> 0 <= #[trigger] ps[i] < a && lowered(cmd)[ps[i]] == '`',
        forall|i: int, j: int| 0 <= i < j < ps.len() ==> ps[i] < ps[j],
        forall|c: int|
            0 <= c < a && lowered(cmd)[c] == '`' ==> exists|i: int| 0 <= i < ps.len() && ps[i] == c,
        command_matches_spec(lowered(cmd).subrange(a + 1, e), pats),
    ensures
        command_matches_spec(cmd, pats),
{
    lemma_tick_scan_reaches(lowered(cmd), pats, 0, ps, a, e);
}


/// The `command` member of a `bash` call, empty when the call is not JSON
/// or has no string `command`.
pub fn extract_bash_command(arguments: &str) -> (r: String)
    ensures
        r@ == match crate::tool::json_string_member(arguments@, "command"@) {
            Some(Some(c)) => c,
            _ => Seq::<char>::empty(),
        },
{
    match crate::tool::json_str_member(arguments, "command") {
        Ok(Some(c)) => c,
        _ => {
            let e = crate::text::owned("");
            proof {
                reveal_strlit("");
            }
            e
        },
    }
}

} // verus!
