//! The `ls` tool: a directory's entries sorted without regard to case,
//! directories marked with `/`, under a limit on entries and on bytes.
//! Reading the directory happens in the caller; the library orders the
//! names and lays the listing out.

use vstd::prelude::*;

use crate::command_match::{to_lowercase, unicode_lowercase};
use crate::grep::{joined_lines, longest_fit};
use crate::jail::strs;
use crate::subagent_monitor::lemma_take_size_grows;
use crate::text::{
    char_utf8_len, chars_of, decimal, decimal_string, owned, push_str, string_from_chars, utf8_size,
};
use crate::tool::{json_str_member, json_string_member, Sandbox, ToolDefinition, ToolResult};

verus! {

/// Entries listed at most, by default.
pub const LS_DEFAULT_LIMIT: usize = 500;

/// The largest limit that may be asked for.
pub const LS_MAX_LIMIT: usize = 5000;

/// The listing is cut at this many bytes.
pub const LS_MAX_BYTES: usize = 51200;

// ---------------------------------------------------------------------------
// Ordering names
// ---------------------------------------------------------------------------

/// `a` comes before `b` in code point order (which is also the order of
/// their UTF-8 bytes).
pub open spec fn seq_lt(a: Seq<char>, b: Seq<char>) -> bool
    decreases a.len(),
{
    if a.len() == 0 {
        b.len() > 0
    } else if b.len() == 0 {
        false
    } else if a[0] != b[0] {
        (a[0] as int) < (b[0] as int)
    } else {
        seq_lt(a.drop_first(), b.drop_first())
    }
}

pub proof fn lemma_seq_lt_irrefl(a: Seq<char>)
    ensures
        !seq_lt(a, a),
    decreases a.len(),
{
    if a.len() > 0 {
        lemma_seq_lt_irrefl(a.drop_first());
    }
}

pub proof fn lemma_seq_lt_trans(a: Seq<char>, b: Seq<char>, c: Seq<char>)
    requires
        seq_lt(a, b),
        seq_lt(b, c),
    ensures
        seq_lt(a, c),
    decreases a.len(),
{
    if a.len() > 0 && b.len() > 0 && c.len() > 0 {
        if a[0] == b[0] && b[0] == c[0] {
            lemma_seq_lt_trans(a.drop_first(), b.drop_first(), c.drop_first());
        }
    }
}

pub proof fn lemma_seq_lt_total(a: Seq<char>, b: Seq<char>)
    requires
        a != b,
    ensures
        seq_lt(a, b) || seq_lt(b, a),
    decreases a.len(),
{
    if a.len() > 0 && b.len() > 0 {
        if a[0] == b[0] {
            if a.drop_first() == b.drop_first() {
                assert(a =~= seq![a[0]] + a.drop_first());
                assert(b =~= seq![b[0]] + b.drop_first());
            }
            lemma_seq_lt_total(a.drop_first(), b.drop_first());
        } else {
            assert((a[0] as int) != (b[0] as int));
        }
    } else if a.len() == 0 && b.len() == 0 {
        assert(a =~= b);
    }
}

/// Entry `x` comes before entry `y` when sorted by key, ties kept in
/// their original order.
pub open spec fn entry_before(keys: Seq<Seq<char>>, x: int, y: int) -> bool {
    seq_lt(keys[x], keys[y]) || (keys[x] == keys[y] && x < y)
}

proof fn lemma_before_trans(keys: Seq<Seq<char>>, x: int, y: int, z: int)
    requires
        entry_before(keys, x, y),
        entry_before(keys, y, z),
    ensures
        entry_before(keys, x, z),
{
    if seq_lt(keys[x], keys[y]) && seq_lt(keys[y], keys[z]) {
        lemma_seq_lt_trans(keys[x], keys[y], keys[z]);
    }
}

proof fn lemma_before_total(keys: Seq<Seq<char>>, x: int, y: int)
    requires
        x != y,
    ensures
        entry_before(keys, x, y) || entry_before(keys, y, x),
{
    if keys[x] != keys[y] {
        lemma_seq_lt_total(keys[x], keys[y]);
    }
}

proof fn lemma_before_asym(keys: Seq<Seq<char>>, x: int, y: int)
    requires
        entry_before(keys, x, y),
    ensures
        !entry_before(keys, y, x),
{
    if entry_before(keys, y, x) {
        if seq_lt(keys[x], keys[y]) && seq_lt(keys[y], keys[x]) {
            lemma_seq_lt_trans(keys[x], keys[y], keys[x]);
            lemma_seq_lt_irrefl(keys[x]);
        } else if seq_lt(keys[x], keys[y]) {
            lemma_seq_lt_irrefl(keys[x]);
        } else if seq_lt(keys[y], keys[x]) {
            lemma_seq_lt_irrefl(keys[y]);
        }
    }
}

/// `order` lists the entries `0..n` each once, sorted (see
/// `entry_before`): a stable sort by key.
pub open spec fn sorted_order(keys: Seq<Seq<char>>, order: Seq<usize>) -> bool {
    &&& order.len() == keys.len()
    &&& forall|a: int| 0 <= a < order.len() ==> order[a] < keys.len()
    &&& forall|a: int, b: int|
        0 <= a < b < order.len() ==> entry_before(keys, order[a] as int, order[b] as int)
}

/// Whether `a` comes before `b` (see `seq_lt`).
pub fn chars_lt(a: &[char], b: &[char]) -> (r: bool)
    ensures
        r == seq_lt(a@, b@),
{
    let mut i: usize = 0;
    assert(a@.skip(0) =~= a@);
    assert(b@.skip(0) =~= b@);
    while i < a.len() && i < b.len() && a[i] == b[i]
        invariant
            i <= a.len(),
            i <= b.len(),
            seq_lt(a@, b@) == seq_lt(a@.skip(i as int), b@.skip(i as int)),
        decreases a.len() - i,
    {
        assert(a@.skip(i as int).drop_first() =~= a@.skip(i + 1));
        assert(b@.skip(i as int).drop_first() =~= b@.skip(i + 1));
        i = i + 1;
    }
    if i == a.len() {
        return i < b.len();
    }
    if i == b.len() {
        return false;
    }
    a[i] < b[i]
}

/// The order of a stable sort of the entries by key.
pub fn stable_order(keys: &Vec<Vec<char>>) -> (order: Vec<usize>)
    ensures
        sorted_order(keys@.map_values(|k: Vec<char>| k@), order@),
{
    let ghost kv = keys@.map_values(|k: Vec<char>| k@);
    let mut order: Vec<usize> = Vec::new();
    let mut i: usize = 0;
    while i < keys.len()
        invariant
            i <= keys@.len(),
            kv == keys@.map_values(|k: Vec<char>| k@),
            order@.len() == i,
            forall|a: int| 0 <= a < order@.len() ==> order@[a] < i,
            forall|a: int, b: int|
                0 <= a < b < order@.len() ==> entry_before(kv, order@[a] as int, order@[b] as int),
        decreases keys.len() - i,
    {
        // The first place whose entry comes after entry `i`.
        let mut p: usize = 0;
        while p < order.len() && !chars_lt(keys[i].as_slice(), keys[order[p]].as_slice())
            invariant
                p <= order@.len(),
                i < keys@.len(),
                kv == keys@.map_values(|k: Vec<char>| k@),
                forall|a: int| 0 <= a < order@.len() ==> order@[a] < i,
                forall|a: int| 0 <= a < p ==> entry_before(kv, order@[a] as int, i as int),
            decreases order.len() - p,
        {
            proof {
                let o = order@[p as int] as int;
                assert(kv[o] == keys@[o]@);
                assert(kv[i as int] == keys@[i as int]@);
                if kv[o] != kv[i as int] {
                    lemma_seq_lt_total(kv[o], kv[i as int]);
                }
            }
            p = p + 1;
        }
        proof {
            if p < order@.len() {
                let o = order@[p as int] as int;
                assert(kv[o] == keys@[o]@);
                assert(kv[i as int] == keys@[i as int]@);
                assert(entry_before(kv, i as int, o));
                assert forall|b: int| p <= b < order@.len() implies entry_before(
                    kv,
                    i as int,
                    #[trigger] order@[b] as int,
                ) by {
                    if b > p {
                        lemma_before_trans(kv, i as int, o, order@[b] as int);
                    }
                }
            }
        }
        let ghost before = order@;
        order.insert(p, i);
        proof {
            assert forall|a: int, b: int| 0 <= a < b < order@.len() implies entry_before(
                kv,
                order@[a] as int,
                order@[b] as int,
            ) by {
                if b < p {
                    assert(order@[a] == before[a] && order@[b] == before[b]);
                } else if b == p {
                    assert(order@[a] == before[a]);
                } else if a < p {
                    assert(order@[a] == before[a] && order@[b] == before[b - 1]);
                    lemma_before_trans(kv, order@[a] as int, i as int, order@[b] as int);
                } else if a == p {
                    assert(order@[b] == before[b - 1]);
                } else {
                    assert(order@[a] == before[a - 1] && order@[b] == before[b - 1]);
                }
            }
        }
        i = i + 1;
    }
    order
}


// ---------------------------------------------------------------------------
// The listing
// ---------------------------------------------------------------------------

/// The names shown for entries `names`, ordered by `order`, under `limit`:
/// `(empty directory)` for none; otherwise the first `limit` names (all
/// when there are no more), one per line, cut at `LS_MAX_BYTES` bytes, and
/// a note when entries were left out or the listing was cut.
pub open spec fn listing_of(names: Seq<Seq<char>>, order: Seq<usize>, limit: nat) -> Seq<char> {
    if names.len() == 0 {
        "(empty directory)"@
    } else {
        let sorted = in_order(names, order);
        let over = names.len() > limit;
        let shown = if over {
            sorted.take(limit as int)
        } else {
            sorted
        };
        let out = joined_lines(shown);
        let cut = utf8_size(out) > LS_MAX_BYTES;
        let body = if cut {
            out.take(choose|k: int| longest_fit(out, LS_MAX_BYTES as nat, k))
        } else {
            out
        };
        let suggested = if limit * 2 < LS_MAX_LIMIT {
            limit * 2
        } else {
            LS_MAX_LIMIT as nat
        };
        body + if over {
            "\n["@ + decimal(limit) + " entries limit reached. Use limit="@ + decimal(suggested)
                + " for more, or use a more specific path]"@
        } else if cut {
            "\n[Output truncated at 51200 bytes]"@
        } else {
            seq![]
        }
    }
}

/// The names taken in `order`.
pub open spec fn in_order(names: Seq<Seq<char>>, order: Seq<usize>) -> Seq<Seq<char>> {
    order.map_values(|i: usize| names[i as int])
}

/// The sort keys of names: their Unicode lowercase forms.
pub open spec fn sort_keys(names: Seq<Seq<char>>) -> Seq<Seq<char>> {
    names.map_values(|n: Seq<char>| unicode_lowercase(n))
}

fn cut_to_bytes(s: &[char], max: usize) -> (r: usize)
    ensures
        longest_fit(s@, max as nat, r as int),
{
    let mut n: usize = 0;
    let mut i: usize = 0;
    while i < s.len() && char_utf8_len(s[i]) <= max - n
        invariant
            i <= s.len(),
            n == utf8_size(s@.take(i as int)),
            n <= max,
        decreases s.len() - i,
    {
        assert(s@.take(i as int + 1).drop_last() =~= s@.take(i as int));
        n = n + char_utf8_len(s[i]);
        i = i + 1;
    }
    if i < s.len() {
        assert(s@.take(i as int + 1).drop_last() =~= s@.take(i as int));
    }
    i
}

proof fn lemma_fit_unique(s: Seq<char>, max: nat, k1: int, k2: int)
    requires
        longest_fit(s, max, k1),
        longest_fit(s, max, k2),
    ensures
        k1 == k2,
{
    if k1 + 1 < k2 {
        lemma_take_size_grows(s, k1 + 1, k2);
    } else if k2 + 1 < k1 {
        lemma_take_size_grows(s, k2 + 1, k1);
    }
}

/// The listing of the entries read (see `listing_of`), sorted stably by
/// their lowercase forms.
pub fn ls_listing(names: &Vec<String>, limit: usize) -> (r: String)
    requires
        1 <= limit <= LS_MAX_LIMIT,
    ensures
        exists|order: Seq<usize>|
            sorted_order(sort_keys(strs(names@)), order) && r@ == listing_of(
                strs(names@),
                order,
                limit as nat,
            ),
{
    let ghost nv = strs(names@);
    if names.len() == 0 {
        let r = owned("(empty directory)");
        assert(sorted_order(sort_keys(nv), Seq::<usize>::empty()));
        return r;
    }
    let mut keys: Vec<Vec<char>> = Vec::new();
    let mut i: usize = 0;
    while i < names.len()
        invariant
            i <= names@.len(),
            nv == strs(names@),
            keys@.map_values(|k: Vec<char>| k@) == sort_keys(nv).take(i as int),
        decreases names.len() - i,
    {
        let low = to_lowercase(names[i].as_str());
        let k = chars_of(low.as_str());
        let ghost before = keys@.map_values(|k: Vec<char>| k@);
        keys.push(k);
        assert(keys@.map_values(|k: Vec<char>| k@) =~= before.push(unicode_lowercase(nv[i as int])));
        assert(sort_keys(nv).take(i as int + 1) =~= sort_keys(nv).take(i as int).push(
            unicode_lowercase(nv[i as int]),
        ));
        i = i + 1;
    }
    assert(sort_keys(nv).take(names@.len() as int) =~= sort_keys(nv));
    let order = stable_order(&keys);
    let ghost ov = order@;
    let over = names.len() > limit;
    let shown_count: usize = if over {
        limit
    } else {
        names.len()
    };
    let ghost sorted = in_order(nv, ov);
    let ghost shown = if over {
        sorted.take(limit as int)
    } else {
        sorted
    };
    let mut out = owned("");
    proof {
        reveal_strlit("");
    }
    let mut j: usize = 0;
    while j < shown_count
        invariant
            j <= shown_count <= ov.len() == names@.len(),
            nv == strs(names@),
            ov == order@,
            forall|a: int| 0 <= a < ov.len() ==> ov[a] < names@.len(),
            shown == (if over {
                in_order(nv, ov).take(limit as int)
            } else {
                in_order(nv, ov)
            }),
            shown.len() == shown_count,
            over == (names@.len() > limit),
            out@ == joined_lines(shown.take(j as int)),
        decreases shown_count - j,
    {
        assert(shown.take(j as int + 1).drop_last() =~= shown.take(j as int));
        proof {
            let sv = in_order(nv, ov);
            if over {
                assert(shown == sv.take(limit as int));
                assert(j < limit);
                assert(sv.len() == ov.len());
                assert(sv.take(limit as int)[j as int] == sv[j as int]);
            } else {
                assert(shown == sv);
            }
            assert(shown[j as int] == sv[j as int]);
            assert(sv[j as int] == nv[ov[j as int] as int]);
            assert(nv[ov[j as int] as int] == names@[ov[j as int] as int]@);
        }
        if j > 0 {
            push_str(&mut out, "\n");
        }
        push_str(&mut out, names[order[j]].as_str());
        proof {
            if j == 0 {
                assert(shown.take(1) =~= seq![shown[0]]);
                assert(out@ =~= shown[0]);
            }
        }
        j = j + 1;
    }
    assert(shown.take(shown_count as int) =~= shown);
    let ghost full = out@;
    let cs = chars_of(out.as_str());
    let cut = crate::text::utf8_size_within(cs.as_slice(), LS_MAX_BYTES).is_none();
    let mut body = if cut {
        let k = cut_to_bytes(cs.as_slice(), LS_MAX_BYTES);
        proof {
            let c = choose|k: int| longest_fit(full, LS_MAX_BYTES as nat, k);
            lemma_fit_unique(full, LS_MAX_BYTES as nat, c, k as int);
        }
        assert(cs@.subrange(0, k as int) =~= full.take(k as int));
        string_from_chars(&cs.as_slice()[0..k])
    } else {
        out
    };
    if over {
        push_str(&mut body, "\n[");
        let d = decimal_string(limit as u64);
        push_str(&mut body, d.as_str());
        push_str(&mut body, " entries limit reached. Use limit=");
        let suggested: usize = if limit * 2 < LS_MAX_LIMIT {
            limit * 2
        } else {
            LS_MAX_LIMIT
        };
        let d2 = decimal_string(suggested as u64);
        push_str(&mut body, d2.as_str());
        push_str(&mut body, " for more, or use a more specific path]");
    } else if cut {
        push_str(&mut body, "\n[Output truncated at 51200 bytes]");
    }
    assert(body@ =~= listing_of(nv, ov, limit as nat));
    body
}


// ---------------------------------------------------------------------------
// The tool
// ---------------------------------------------------------------------------

/// The `ls` tool.
#[derive(Debug)]
pub struct LsTool {
    pub workspace: String,
    pub sandbox: Sandbox,
}

impl LsTool {
    pub fn new(workspace: String, sandbox: Sandbox) -> (t: LsTool)
        ensures
            t.workspace@ == workspace@,
    {
        LsTool { workspace, sandbox }
    }

    pub fn definition(&self) -> (d: ToolDefinition)
        ensures
            d.name@ == "ls"@,
            d.description@ == LS_DESCRIPTION@,
            d.parameters_schema@ == LS_SCHEMA@,
    {
        ToolDefinition {
            name: owned("ls"),
            description: owned(LS_DESCRIPTION),
            parameters_schema: owned(LS_SCHEMA),
        }
    }
}

/// The directory an `ls` call names: its `path`, `.` when there is none
/// (its `limit`, a number that may be fractional, is read by the caller);
/// an error reply when the call is not JSON.
pub fn ls_path(arguments: &str) -> (r: Result<String, ToolResult>)
    ensures
        json_string_member(arguments@, "path"@) is None ==> (r matches Err(e) && e.is_error
            && crate::text::has_prefix(e.content@, "invalid JSON arguments: "@)),
        json_string_member(arguments@, "path"@) matches Some(p) ==> (r matches Ok(x) && x@
            == match p {
            Some(q) => q,
            None => "."@,
        }),
{
    match json_str_member(arguments, "path") {
        Err(e) => {
            let mut m = owned("invalid JSON arguments: ");
            push_str(&mut m, e.as_str());
            push_str(&mut m, ". Example: {\"path\": \".\"}");
            proof {
                reveal_strlit("invalid JSON arguments: ");
            }
            assert(m@.take(24) =~= "invalid JSON arguments: "@);
            Err(ToolResult::error(m))
        },
        Ok(None) => Ok(owned(".")),
        Ok(Some(p)) => Ok(p),
    }
}

/// An entry's shown name: directories end with `/`.
pub fn entry_name(name: &str, is_dir: bool) -> (r: String)
    ensures
        r@ == if is_dir {
            name@ + "/"@
        } else {
            name@
        },
{
    let mut r = owned(name);
    if is_dir {
        push_str(&mut r, "/");
    }
    r
}


/// The description of the `ls` tool.
pub const LS_DESCRIPTION: &'static str = "List directory contents. Defaults to the current working directory when path is omitted. Entries are sorted case-insensitively; directories are suffixed with '/'. Output capped at 500 entries or 50KB. Example: {\"path\": \"src\"}";

/// The parameter schema of the `ls` tool.
pub const LS_SCHEMA: &'static str = "{\n                \"type\": \"object\",\n                \"properties\": {\n                    \"path\":  {\"type\":\"string\",\"description\":\"Directory path to list (relative or absolute, defaults to '.')\"},\n                    \"limit\": {\"type\":\"number\",\"description\":\"Maximum number of entries to return (default 500, max 5000)\"}\n                }\n            }";

} // verus!
