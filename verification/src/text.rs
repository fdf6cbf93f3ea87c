//! Character-level text utilities shared by the tools: conversions between
//! `str`/`String` and character sequences, Unicode whitespace, trimming,
//! prefix/suffix tests, searching, decimal rendering and UTF-8 lengths.

use vstd::prelude::*;
use vstd::std_specs::iter::IteratorSpec;

verus! {

// ---------------------------------------------------------------------------
// Conversions
// ---------------------------------------------------------------------------

/// The characters of a string slice, in order.
pub fn chars_of(s: &str) -> (out: Vec<char>)
    ensures
        out@ == s@,
{
    broadcast use vstd::string::group_string_axioms;

    let mut out: Vec<char> = Vec::new();
    let mut it = s.chars();
    let ghost all = s@;
    loop
        invariant_except_break
            it.remaining() == all.skip(out@.len() as int),
            out@ == all.take(out@.len() as int),
            out@.len() <= all.len(),
            all == s@,
        ensures
            out@ == all,
        decreases all.len() - out@.len(),
    {
        match it.next() {
            Some(c) => {
                out.push(c);
            },
            None => {
                break ;
            },
        }
    }
    out
}

/// Appends one character to a `String` (`String::push`): the string's
/// characters afterwards are the old ones followed by `c`.
#[verifier::external_body]
pub(crate) fn push_char(s: &mut String, c: char)
    ensures
        final(s)@ == old(s)@.push(c),
{
    s.push(c)
}

/// Appends every character of `more` to `s`.
pub fn push_chars(s: &mut String, more: &[char])
    ensures
        final(s)@ == old(s)@ + more@,
{
    let mut i: usize = 0;
    while i < more.len()
        invariant
            i <= more.len(),
            s@ == old(s)@ + more@.take(i as int),
        decreases more.len() - i,
    {
        push_char(s, more[i]);
        assert(more@.take(i as int + 1) =~= more@.take(i as int).push(more@[i as int]));
        i = i + 1;
    }
    assert(more@.take(more.len() as int) =~= more@);
}

/// Appends the characters of a string slice to `s`.
pub fn push_str(s: &mut String, more: &str)
    ensures
        final(s)@ == old(s)@ + more@,
{
    let cs = chars_of(more);
    push_chars(s, cs.as_slice());
}

/// A `String` holding exactly the given characters.
pub fn string_from_chars(cs: &[char]) -> (out: String)
    ensures
        out@ == cs@,
{
    let mut out = String::new();
    push_chars(&mut out, cs);
    assert(Seq::<char>::empty() + cs@ =~= cs@);
    out
}

/// An owned copy of a string slice.
pub fn owned(s: &str) -> (out: String)
    ensures
        out@ == s@,
{
    s.to_owned()
}

// ---------------------------------------------------------------------------
// Unicode whitespace (`char::is_whitespace`: the White_Space property)
// ---------------------------------------------------------------------------

/// `c` has the Unicode White_Space property.
pub open spec fn is_ws(c: char) -> bool {
    ||| ('\u{9}' <= c && c <= '\u{d}')
    ||| c == ' '
    ||| c == '\u{85}'
    ||| c == '\u{a0}'
    ||| c == '\u{1680}'
    ||| ('\u{2000}' <= c && c <= '\u{200a}')
    ||| c == '\u{2028}'
    ||| c == '\u{2029}'
    ||| c == '\u{202f}'
    ||| c == '\u{205f}'
    ||| c == '\u{3000}'
}

/// Whether `c` is Unicode whitespace.
pub fn is_whitespace(c: char) -> (b: bool)
    ensures
        b == is_ws(c),
{
    ('\u{9}' <= c && c <= '\u{d}') || c == ' ' || c == '\u{85}' || c == '\u{a0}' || c
        == '\u{1680}' || ('\u{2000}' <= c && c <= '\u{200a}') || c == '\u{2028}' || c
        == '\u{2029}' || c == '\u{202f}' || c == '\u{205f}' || c == '\u{3000}'
}

// ---------------------------------------------------------------------------
// Trimming
// ---------------------------------------------------------------------------

/// `s` without its leading whitespace.
pub open spec fn trim_start(s: Seq<char>) -> Seq<char>
    decreases s.len(),
{
    if s.len() > 0 && is_ws(s[0]) {
        trim_start(s.drop_first())
    } else {
        s
    }
}

/// `s` without its trailing whitespace.
pub open spec fn trim_end(s: Seq<char>) -> Seq<char>
    decreases s.len(),
{
    if s.len() > 0 && is_ws(s.last()) {
        trim_end(s.drop_last())
    } else {
        s
    }
}

/// `s` without leading and trailing whitespace (`str::trim`).
pub open spec fn trim(s: Seq<char>) -> Seq<char> {
    trim_end(trim_start(s))
}

/// The index of the first non-whitespace character of `s` at or after
/// `i`, or `s.len()`.
pub open spec fn skip_ws(s: Seq<char>, i: int) -> int
    decreases s.len() - i,
{
    if 0 <= i < s.len() && is_ws(s[i]) {
        skip_ws(s, i + 1)
    } else {
        i
    }
}

proof fn lemma_trim_start_skip(s: Seq<char>, i: int)
    requires
        0 <= i <= s.len(),
    ensures
        trim_start(s.subrange(i, s.len() as int)) == s.subrange(skip_ws(s, i), s.len() as int),
        i <= skip_ws(s, i) <= s.len(),
    decreases s.len() - i,
{
    let t = s.subrange(i, s.len() as int);
    if i < s.len() && is_ws(s[i]) {
        assert(t.drop_first() =~= s.subrange(i + 1, s.len() as int));
        lemma_trim_start_skip(s, i + 1);
    }
}

proof fn lemma_trim_end_sub(s: Seq<char>, lo: int, hi: int)
    requires
        0 <= lo <= hi <= s.len(),
    ensures
        exists|k: int|
            lo <= k <= hi && trim_end(s.subrange(lo, hi)) == s.subrange(lo, k) && (k == lo
                || !is_ws(s[k - 1])) && (forall|j: int| k <= j < hi ==> is_ws(#[trigger] s[j])),
    decreases hi - lo,
{
    let t = s.subrange(lo, hi);
    if hi > lo && is_ws(s[hi - 1]) {
        assert(t.drop_last() =~= s.subrange(lo, hi - 1));
        lemma_trim_end_sub(s, lo, hi - 1);
    } else {
        assert(trim_end(t) == t);
    }
}

/// The bounds `(lo, hi)` of `s` with leading and trailing whitespace
/// removed: `s[lo..hi]` is `trim(s)`.
pub fn trim_bounds(s: &[char]) -> (r: (usize, usize))
    ensures
        r.0 <= r.1 <= s@.len(),
        s@.subrange(r.0 as int, r.1 as int) == trim(s@),
{
    let mut lo: usize = 0;
    proof {
        lemma_trim_start_skip(s@, 0);
        assert(s@.subrange(0, s@.len() as int) =~= s@);
    }
    while lo < s.len() && is_whitespace(s[lo])
        invariant
            lo <= s.len(),
            skip_ws(s@, lo as int) == skip_ws(s@, 0),
        decreases s.len() - lo,
    {
        lo = lo + 1;
    }
    proof {
        lemma_trim_start_skip(s@, 0);
    }
    let mut hi: usize = s.len();
    while hi > lo && is_whitespace(s[hi - 1])
        invariant
            lo <= hi <= s.len(),
            trim_end(s@.subrange(lo as int, hi as int)) == trim_end(
                s@.subrange(lo as int, s@.len() as int),
            ),
        decreases hi - lo,
    {
        assert(s@.subrange(lo as int, hi as int).drop_last() =~= s@.subrange(
            lo as int,
            hi as int - 1,
        ));
        hi = hi - 1;
    }
    assert(trim_end(s@.subrange(lo as int, hi as int)) == s@.subrange(lo as int, hi as int));
    (lo, hi)
}

/// The length of `s` without its trailing whitespace: `s[..n]` is
/// `trim_end(s)`.
pub fn trim_end_len(s: &[char]) -> (n: usize)
    ensures
        n <= s@.len(),
        s@.take(n as int) == trim_end(s@),
{
    let mut hi: usize = s.len();
    assert(s@.take(hi as int) =~= s@);
    while hi > 0 && is_whitespace(s[hi - 1])
        invariant
            hi <= s.len(),
            trim_end(s@.take(hi as int)) == trim_end(s@),
        decreases hi,
    {
        assert(s@.take(hi as int).drop_last() =~= s@.take(hi as int - 1));
        hi = hi - 1;
    }
    assert(trim_end(s@.take(hi as int)) == s@.take(hi as int));
    hi
}

// ---------------------------------------------------------------------------
// Comparisons and searching
// ---------------------------------------------------------------------------

/// Whether two character slices are equal.
pub fn chars_eq(a: &[char], b: &[char]) -> (r: bool)
    ensures
        r == (a@ == b@),
{
    if a.len() != b.len() {
        return false;
    }
    let mut i: usize = 0;
    while i < a.len()
        invariant
            a@.len() == b@.len(),
            i <= a.len(),
            forall|j: int| 0 <= j < i ==> a@[j] == b@[j],
        decreases a.len() - i,
    {
        if a[i] != b[i] {
            return false;
        }
        i = i + 1;
    }
    assert(a@ =~= b@);
    true
}

/// Whether two strings hold the same characters.
pub fn str_is(a: &str, b: &str) -> (r: bool)
    ensures
        r == (a@ == b@),
{
    let x = chars_of(a);
    let y = chars_of(b);
    chars_eq(x.as_slice(), y.as_slice())
}

/// `p` is a prefix of `s`.
pub open spec fn has_prefix(s: Seq<char>, p: Seq<char>) -> bool {
    p.len() <= s.len() && s.take(p.len() as int) == p
}

/// `p` is a suffix of `s`.
pub open spec fn has_suffix(s: Seq<char>, p: Seq<char>) -> bool {
    p.len() <= s.len() && s.skip(s.len() - p.len()) == p
}

/// `p` occurs in `s` starting at index `i`.
pub open spec fn occurs_at(s: Seq<char>, p: Seq<char>, i: int) -> bool {
    0 <= i && i + p.len() <= s.len() && s.subrange(i, i + p.len()) == p
}

/// `p` occurs somewhere in `s`.
pub open spec fn contains_seq(s: Seq<char>, p: Seq<char>) -> bool {
    exists|i: int| occurs_at(s, p, i)
}

/// Whether `s` starts with `p` at index `at`.
pub fn matches_at(s: &[char], p: &[char], at: usize) -> (r: bool)
    ensures
        r == occurs_at(s@, p@, at as int),
{
    if at > s.len() || p.len() > s.len() - at {
        return false;
    }
    let mut i: usize = 0;
    while i < p.len()
        invariant
            at + p@.len() <= s.len(),
            i <= p.len(),
            forall|j: int| 0 <= j < i ==> s@[at + j] == p@[j],
        decreases p.len() - i,
    {
        if s[at + i] != p[i] {
            assert(s@.subrange(at as int, at + p@.len())[i as int] != p@[i as int]);
            return false;
        }
        i = i + 1;
    }
    assert(s@.subrange(at as int, at + p@.len()) =~= p@);
    true
}

/// Whether `s` starts with `p`.
pub fn starts_with(s: &[char], p: &[char]) -> (r: bool)
    ensures
        r == has_prefix(s@, p@),
{
    let r = matches_at(s, p, 0);
    proof {
        if p@.len() <= s@.len() {
            assert(s@.subrange(0, p@.len() as int) =~= s@.take(p@.len() as int));
        }
    }
    r
}

/// Whether `s` ends with `p`.
pub fn ends_with(s: &[char], p: &[char]) -> (r: bool)
    ensures
        r == has_suffix(s@, p@),
{
    if p.len() > s.len() {
        return false;
    }
    let r = matches_at(s, p, s.len() - p.len());
    proof {
        assert(s@.subrange(s@.len() - p@.len(), s@.len() as int) =~= s@.skip(
            s@.len() - p@.len(),
        ));
    }
    r
}

/// The first index at or after `from` where `p` occurs in `s`.
pub open spec fn find_from(s: Seq<char>, p: Seq<char>, from: int) -> Option<int>
    decreases s.len() + 1 - from,
{
    if from < 0 || from + p.len() > s.len() {
        None
    } else if occurs_at(s, p, from) {
        Some(from)
    } else {
        find_from(s, p, from + 1)
    }
}

/// The first index at or after `from` where `p` occurs in `s` (`str::find`).
pub fn find_chars(s: &[char], p: &[char], from: usize) -> (r: Option<usize>)
    requires
        from <= s.len(),
    ensures
        r == (match find_from(s@, p@, from as int) {
            Some(i) => Some(i as usize),
            None => None,
        }),
        match r {
            Some(i) => find_from(s@, p@, from as int) == Some(i as int),
            None => find_from(s@, p@, from as int) is None,
        },
{
    let mut i = from;
    while i <= s.len() && p.len() <= s.len() - i
        invariant
            from <= i,
            i <= s.len() + 1,
            find_from(s@, p@, from as int) == find_from(s@, p@, i as int),
        decreases s.len() + 1 - i,
    {
        if matches_at(s, p, i) {
            return Some(i);
        }
        if i == s.len() {
            assert(find_from(s@, p@, i as int + 1) is None);
            return None;
        }
        i = i + 1;
    }
    None
}

/// Whether `p` occurs in `s`.
pub fn contains_chars(s: &[char], p: &[char]) -> (r: bool)
    ensures
        r == contains_seq(s@, p@),
{
    let f = find_chars(s, p, 0);
    proof {
        lemma_find_from_contains(s@, p@, 0);
    }
    f.is_some()
}

/// `find_from` finds an occurrence exactly when one exists at or after `from`.
pub proof fn lemma_find_from_contains(s: Seq<char>, p: Seq<char>, from: int)
    requires
        0 <= from,
    ensures
        find_from(s, p, from) is Some <==> exists|i: int| from <= i && occurs_at(s, p, i),
        find_from(s, p, from) matches Some(i) ==> from <= i && occurs_at(s, p, i) && forall|
            j: int,
        |
            from <= j < i ==> !occurs_at(s, p, j),
    decreases s.len() + 1 - from,
{
    if from + p.len() > s.len() {
    } else if occurs_at(s, p, from) {
    } else {
        lemma_find_from_contains(s, p, from + 1);
        assert forall|i: int| from <= i && occurs_at(s, p, i) implies from + 1 <= i by {
            if i == from {
            }
        }
    }
}

/// Whether `c` occurs in `s`.
pub fn contains_char(s: &[char], c: char) -> (r: bool)
    ensures
        r == s@.contains(c),
{
    let mut i: usize = 0;
    while i < s.len()
        invariant
            i <= s.len(),
            forall|j: int| 0 <= j < i ==> s@[j] != c,
        decreases s.len() - i,
    {
        if s[i] == c {
            return true;
        }
        i = i + 1;
    }
    false
}

// ---------------------------------------------------------------------------
// Decimal rendering
// ---------------------------------------------------------------------------

/// The decimal digit character for `d < 10`.
pub open spec fn digit_char(d: nat) -> char {
    if d == 0 {
        '0'
    } else if d == 1 {
        '1'
    } else if d == 2 {
        '2'
    } else if d == 3 {
        '3'
    } else if d == 4 {
        '4'
    } else if d == 5 {
        '5'
    } else if d == 6 {
        '6'
    } else if d == 7 {
        '7'
    } else if d == 8 {
        '8'
    } else {
        '9'
    }
}

/// The decimal rendering of `n` (no sign, no leading zeros).
pub open spec fn decimal(n: nat) -> Seq<char>
    decreases n,
{
    if n < 10 {
        seq![digit_char(n)]
    } else {
        decimal(n / 10).push(digit_char(n % 10))
    }
}

fn digit(d: u64) -> (c: char)
    requires
        d < 10,
    ensures
        c == digit_char(d as nat),
{
    if d == 0 {
        '0'
    } else if d == 1 {
        '1'
    } else if d == 2 {
        '2'
    } else if d == 3 {
        '3'
    } else if d == 4 {
        '4'
    } else if d == 5 {
        '5'
    } else if d == 6 {
        '6'
    } else if d == 7 {
        '7'
    } else if d == 8 {
        '8'
    } else {
        '9'
    }
}

/// The decimal digits of `n` (as `n.to_string()` renders it).
pub fn decimal_chars(n: u64) -> (out: Vec<char>)
    ensures
        out@ == decimal(n as nat),
    decreases n,
{
    if n < 10 {
        let mut v = Vec::new();
        v.push(digit(n));
        assert(v@ =~= seq![digit_char(n as nat)]);
        v
    } else {
        let mut v = decimal_chars(n / 10);
        v.push(digit(n % 10));
        v
    }
}

/// The decimal rendering of `n` as a `String`.
pub fn decimal_string(n: u64) -> (out: String)
    ensures
        out@ == decimal(n as nat),
{
    let cs = decimal_chars(n);
    string_from_chars(cs.as_slice())
}

// ---------------------------------------------------------------------------
// UTF-8 lengths
// ---------------------------------------------------------------------------

/// The number of bytes `c` takes in UTF-8 (`char::len_utf8`).
pub open spec fn utf8_len(c: char) -> nat {
    if (c as u32) < 0x80 {
        1
    } else if (c as u32) < 0x800 {
        2
    } else if (c as u32) < 0x10000 {
        3
    } else {
        4
    }
}

/// The number of bytes of the UTF-8 encoding of `s` (`str::len`).
pub open spec fn utf8_size(s: Seq<char>) -> nat
    decreases s.len(),
{
    if s.len() == 0 {
        0
    } else {
        utf8_size(s.drop_last()) + utf8_len(s.last())
    }
}

/// The UTF-8 width of one character.
pub fn char_utf8_len(c: char) -> (n: usize)
    ensures
        n == utf8_len(c),
{
    let u = c as u32;
    if u < 0x80 {
        1
    } else if u < 0x800 {
        2
    } else if u < 0x10000 {
        3
    } else {
        4
    }
}

/// `utf8_size` distributes over concatenation.
pub proof fn lemma_utf8_size_concat(a: Seq<char>, b: Seq<char>)
    ensures
        utf8_size(a + b) == utf8_size(a) + utf8_size(b),
    decreases b.len(),
{
    if b.len() == 0 {
        assert(a + b =~= a);
    } else {
        assert((a + b).drop_last() =~= a + b.drop_last());
        lemma_utf8_size_concat(a, b.drop_last());
    }
}

/// A prefix of a sequence is never larger in UTF-8 than the sequence.
pub proof fn lemma_utf8_size_take(s: Seq<char>, i: int)
    requires
        0 <= i <= s.len(),
    ensures
        utf8_size(s.take(i)) <= utf8_size(s),
        utf8_size(s.take(i)) + utf8_size(s.skip(i)) == utf8_size(s),
{
    assert(s =~= s.take(i) + s.skip(i));
    lemma_utf8_size_concat(s.take(i), s.skip(i));
}

/// The UTF-8 byte length of a character slice, capped at `usize::MAX`.
pub fn utf8_size_of(s: &[char]) -> (n: usize)
    requires
        utf8_size(s@) <= usize::MAX,
    ensures
        n == utf8_size(s@),
{
    let mut n: usize = 0;
    let mut i: usize = 0;
    while i < s.len()
        invariant
            i <= s.len(),
            n == utf8_size(s@.take(i as int)),
            utf8_size(s@) <= usize::MAX,
        decreases s.len() - i,
    {
        proof {
            assert(s@.take(i as int + 1).drop_last() =~= s@.take(i as int));
            lemma_utf8_size_take(s@, i as int + 1);
        }
        n = n + char_utf8_len(s[i]);
        i = i + 1;
    }
    assert(s@.take(s.len() as int) =~= s@);
    n
}


// ---------------------------------------------------------------------------
// Lines (`str::lines`)
// ---------------------------------------------------------------------------

/// `s` split at every `'\n'`: always at least one piece.
pub open spec fn split_nl(s: Seq<char>) -> Seq<Seq<char>>
    decreases s.len(),
{
    if s.len() == 0 {
        seq![seq![]]
    } else {
        let rest = split_nl(s.drop_last());
        if s.last() == '\n' {
            rest.push(seq![])
        } else {
            rest.update(rest.len() - 1, rest.last().push(s.last()))
        }
    }
}

/// A line without one trailing carriage return.
pub open spec fn strip_cr(l: Seq<char>) -> Seq<char> {
    if l.len() > 0 && l.last() == '\r' {
        l.drop_last()
    } else {
        l
    }
}

/// The lines of `s` (`str::lines`): split at `'\n'`, a `'\r'` before a
/// `'\n'` dropped, and no empty last line after a final line ending.
pub open spec fn lines(s: Seq<char>) -> Seq<Seq<char>> {
    let p = split_nl(s);
    let full = p.drop_last().map_values(|l: Seq<char>| strip_cr(l));
    if p.last().len() == 0 {
        full
    } else {
        full.push(p.last())
    }
}

/// `ls` joined with `'\n'` between consecutive elements.
pub open spec fn join_lines(ls: Seq<Seq<char>>) -> Seq<char>
    decreases ls.len(),
{
    if ls.len() == 0 {
        seq![]
    } else if ls.len() == 1 {
        ls[0]
    } else {
        join_lines(ls.drop_last()) + seq!['\n'] + ls.last()
    }
}

pub proof fn lemma_split_nl_len(s: Seq<char>)
    ensures
        split_nl(s).len() >= 1,
    decreases s.len(),
{
    if s.len() > 0 {
        lemma_split_nl_len(s.drop_last());
    }
}

/// The character vectors' contents.
pub open spec fn chars_view(v: Seq<Vec<char>>) -> Seq<Seq<char>> {
    v.map_values(|w: Vec<char>| w@)
}

fn strip_cr_exec(l: Vec<char>) -> (r: Vec<char>)
    ensures
        r@ == strip_cr(l@),
{
    let mut l = l;
    if l.len() > 0 && l[l.len() - 1] == '\r' {
        l.pop();
    }
    l
}

/// The lines of a character slice.
pub fn lines_of(s: &[char]) -> (r: Vec<Vec<char>>)
    ensures
        chars_view(r@) == lines(s@),
{
    let mut done: Vec<Vec<char>> = Vec::new();
    let mut cur: Vec<char> = Vec::new();
    let mut i: usize = 0;
    assert(s@.take(0) =~= Seq::<char>::empty());
    assert(chars_view(done@) =~= split_nl(s@.take(0)).drop_last().map_values(
        |l: Seq<char>| strip_cr(l),
    ));
    while i < s.len()
        invariant
            i <= s.len(),
            split_nl(s@.take(i as int)).len() >= 1,
            chars_view(done@) == split_nl(s@.take(i as int)).drop_last().map_values(
                |l: Seq<char>| strip_cr(l),
            ),
            cur@ == split_nl(s@.take(i as int)).last(),
        decreases s.len() - i,
    {
        let ghost pre = split_nl(s@.take(i as int));
        let c = s[i];
        assert(s@.take(i as int + 1).drop_last() =~= s@.take(i as int));
        assert(s@.take(i as int + 1).last() == c);
        if c == '\n' {
            let w = strip_cr_exec(cur);
            let ghost before = done@;
            done.push(w);
            assert(done@ =~= before.push(w));
            cur = Vec::new();
            let ghost post = split_nl(s@.take(i as int + 1));
            assert(post == pre.push(seq![]));
            assert(post.drop_last() =~= pre);
            assert(pre =~= pre.drop_last().push(pre.last()));
            assert(chars_view(done@) =~= chars_view(before).push(w@));
            assert(pre.map_values(|l: Seq<char>| strip_cr(l)) =~= pre.drop_last().map_values(
                |l: Seq<char>| strip_cr(l),
            ).push(strip_cr(pre.last())));
        } else {
            cur.push(c);
            let ghost post = split_nl(s@.take(i as int + 1));
            assert(post =~= pre.drop_last().push(pre.last().push(c)));
            assert(post.drop_last() =~= pre.drop_last());
        }
        i = i + 1;
    }
    assert(s@.take(s.len() as int) =~= s@);
    if cur.len() > 0 {
        let ghost before = done@;
        done.push(cur);
        assert(chars_view(done@) =~= chars_view(before).push(done@.last()@));
    }
    done
}

/// Joins lines with `'\n'`.
pub fn join_lines_exec(ls: &[Vec<char>]) -> (r: String)
    ensures
        r@ == join_lines(chars_view(ls@)),
{
    let mut out = String::new();
    let mut i: usize = 0;
    while i < ls.len()
        invariant
            i <= ls.len(),
            out@ == join_lines(chars_view(ls@.take(i as int))),
        decreases ls.len() - i,
    {
        let ghost pre = chars_view(ls@.take(i as int));
        let ghost post = chars_view(ls@.take(i as int + 1));
        assert(post =~= pre.push(ls@[i as int]@));
        assert(post.drop_last() =~= pre);
        if i > 0 {
            push_char(&mut out, '\n');
            push_chars(&mut out, ls[i].as_slice());
            assert(out@ =~= join_lines(pre) + seq!['\n'] + ls@[i as int]@);
        } else {
            push_chars(&mut out, ls[i].as_slice());
            assert(out@ =~= ls@[0]@);
        }
        i = i + 1;
    }
    assert(ls@.take(ls.len() as int) =~= ls@);
    out
}

/// `utf8_size(s)`, or `usize::MAX` when it does not fit.
pub fn utf8_size_capped(s: &[char]) -> (n: usize)
    ensures
        n == (if utf8_size(s@) <= usize::MAX {
            utf8_size(s@)
        } else {
            usize::MAX as nat
        }),
{
    let mut n: usize = 0;
    let mut i: usize = 0;
    while i < s.len()
        invariant
            i <= s.len(),
            n == (if utf8_size(s@.take(i as int)) <= usize::MAX {
                utf8_size(s@.take(i as int))
            } else {
                usize::MAX as nat
            }),
        decreases s.len() - i,
    {
        assert(s@.take(i as int + 1).drop_last() =~= s@.take(i as int));
        let w = char_utf8_len(s[i]);
        if n > usize::MAX - w {
            n = usize::MAX;
        } else {
            n = n + w;
        }
        i = i + 1;
    }
    assert(s@.take(s.len() as int) =~= s@);
    n
}

/// `Some(utf8_size(s))` when it is at most `limit`, `None` otherwise.
pub fn utf8_size_within(s: &[char], limit: usize) -> (r: Option<usize>)
    ensures
        match r {
            Some(n) => n == utf8_size(s@) && n <= limit,
            None => utf8_size(s@) > limit,
        },
{
    let mut n: usize = 0;
    let mut i: usize = 0;
    while i < s.len()
        invariant
            i <= s.len(),
            n == utf8_size(s@.take(i as int)),
            n <= limit,
        decreases s.len() - i,
    {
        assert(s@.take(i as int + 1).drop_last() =~= s@.take(i as int));
        let w = char_utf8_len(s[i]);
        if w > limit - n {
            proof {
                lemma_utf8_size_take(s@, i as int + 1);
            }
            return None;
        }
        n = n + w;
        i = i + 1;
    }
    assert(s@.take(s.len() as int) =~= s@);
    Some(n)
}

/// The decimal rendering of a signed integer (`-` before negatives).
pub open spec fn signed_decimal(i: int) -> Seq<char> {
    if i < 0 {
        seq!['-'] + decimal((-i) as nat)
    } else {
        decimal(i as nat)
    }
}

/// `i.to_string()` for an `i32`.
pub fn i32_string(i: i32) -> (out: String)
    ensures
        out@ == signed_decimal(i as int),
{
    if i < 0 {
        let m: i64 = -(i as i64);
        let mut out = String::new();
        push_char(&mut out, '-');
        let d = decimal_string(m as u64);
        push_str(&mut out, d.as_str());
        assert(out@ =~= seq!['-'] + decimal((-i) as nat));
        out
    } else {
        decimal_string(i as u64)
    }
}

/// The decimal digits of a `u128`.
pub fn decimal_chars_wide(n: u128) -> (out: Vec<char>)
    ensures
        out@ == decimal(n as nat),
    decreases n,
{
    if n < 10 {
        let mut v = Vec::new();
        v.push(digit((n as u64)));
        assert(v@ =~= seq![digit_char(n as nat)]);
        v
    } else {
        let mut v = decimal_chars_wide(n / 10);
        v.push(digit((n % 10) as u64));
        v
    }
}

/// The decimal rendering of a `u128` as a `String`.
pub fn decimal_string_wide(n: u128) -> (out: String)
    ensures
        out@ == decimal(n as nat),
{
    let cs = decimal_chars_wide(n);
    string_from_chars(cs.as_slice())
}

/// ASCII letters folded to lower case, everything else unchanged
/// (`str::to_ascii_lowercase`).
pub open spec fn ascii_lower(s: Seq<char>) -> Seq<char> {
    s.map_values(|c: char| if 'A' <= c && c <= 'Z' {
        ((c as u32) + 32) as char
    } else {
        c
    })
}

/// Folds ASCII letters to lower case.
pub fn to_ascii_lower(s: &str) -> (r: String)
    ensures
        r@ == ascii_lower(s@),
{
    let cs = chars_of(s);
    let mut out = String::new();
    let mut i: usize = 0;
    while i < cs.len()
        invariant
            i <= cs.len(),
            cs@ == s@,
            out@ == ascii_lower(s@.take(i as int)),
        decreases cs.len() - i,
    {
        let c = cs[i];
        let d = if 'A' <= c && c <= 'Z' {
            ((c as u32) + 32) as u8 as char
        } else {
            c
        };
        assert(d == (if 'A' <= c && c <= 'Z' {
            ((c as u32) + 32) as char
        } else {
            c
        }));
        push_char(&mut out, d);
        assert(ascii_lower(s@.take(i as int + 1)) =~= ascii_lower(s@.take(i as int)).push(d));
        i = i + 1;
    }
    assert(s@.take(cs.len() as int) =~= s@);
    out
}

/// `utf8_size(s)` capped at `usize::MAX` (a real string never reaches it).
pub open spec fn byte_count(s: Seq<char>) -> nat {
    if utf8_size(s) <= usize::MAX {
        utf8_size(s)
    } else {
        usize::MAX as nat
    }
}

/// The number of bytes of a string's UTF-8 encoding.
pub fn byte_len(s: &str) -> (n: usize)
    ensures
        n == byte_count(s@),
{
    let cs = chars_of(s);
    utf8_size_capped(cs.as_slice())
}

} // verus!
