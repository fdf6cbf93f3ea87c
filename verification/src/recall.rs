//! The `recall` tool: retrieves a tool output that was collapsed out of the
//! conversation ("spilled") by its id, or lists the spilled outputs of the
//! session. The spill store itself belongs to the caller; the library reads
//! the arguments, counts repeated recalls and renders the replies.

use vstd::prelude::*;

use crate::jail::{lookup, pairs};
use crate::text::{decimal, decimal_string, decimal_string_wide, owned, push_str};
use crate::tool::{json_str_member, json_string_member, ToolDefinition, ToolResult};

verus! {

/// From this many recalls of one id on, a run is reported as a likely
/// recall/collapse loop.
pub const REPEATED_RECALL_THRESHOLD: u32 = 3;

/// One spilled output as the index lists it.
pub struct SpillIndex {
    pub id: String,
    pub tool: String,
    pub input_preview: String,
    pub tokens: u64,
}

/// The `recall` tool of one session.
pub struct RecallTool {
    pub session_key: String,
    /// How often each id was recalled, one entry per id.
    pub recall_counts: Vec<(String, u32)>,
}

/// The count recorded for `id`, 0 when there is none.
pub open spec fn count_of(counts: Seq<(String, u32)>, id: Seq<char>) -> nat
    decreases counts.len(),
{
    if counts.len() == 0 {
        0
    } else if counts[0].0@ == id {
        counts[0].1 as nat
    } else {
        count_of(counts.drop_first(), id)
    }
}

impl RecallTool {
    pub fn new(session_key: String) -> (t: RecallTool)
        ensures
            t.session_key@ == session_key@,
            forall|id: Seq<char>| count_of(t.recall_counts@, id) == 0,
    {
        RecallTool { session_key, recall_counts: Vec::new() }
    }

    pub fn definition(&self) -> (d: ToolDefinition)
        ensures
            d.name@ == "recall"@,
    {
        ToolDefinition {
            name: owned("recall"),
            description: owned(
                "Retrieve a previously collapsed tool output by its ID. Use the ID shown in collapse stubs like: recall(\"turn20:bash:0\"). Use recall(\"list\") for the full index.",
            ),
            parameters_schema: owned(
                "{\"type\":\"object\",\"properties\":{\"id\":{\"type\":\"string\",\"description\":\"The spill ID from the collapse stub, or \\\"list\\\" for the full index\"}},\"required\":[\"id\"]}",
            ),
        }
    }

    /// Records one more recall of `id` (saturating at `u32::MAX`) and
    /// returns the new count; other ids keep theirs.
    pub fn note_recall(&mut self, id: &str) -> (n: u32)
        ensures
            n == if count_of(old(self).recall_counts@, id@) < u32::MAX {
                count_of(old(self).recall_counts@, id@) + 1
            } else {
                u32::MAX as nat
            },
            count_of(final(self).recall_counts@, id@) == n,
            forall|other: Seq<char>|
                other != id@ ==> count_of(final(self).recall_counts@, other) == count_of(
                    old(self).recall_counts@,
                    other,
                ),
            final(self).session_key == old(self).session_key,
    {
        let target = owned(id);
        let ghost v0 = self.recall_counts@;
        match find_count(self.recall_counts.as_slice(), id) {
            Some(i) => {
                let c = self.recall_counts[i].1;
                let n: u32 = if c < u32::MAX {
                    c + 1
                } else {
                    c
                };
                let key = self.recall_counts[i].0.clone();
                self.recall_counts.set(i, (key, n));
                proof {
                    lemma_count_update(v0, i as int, id@, n);
                }
                n
            },
            None => {
                proof {
                    lemma_count_absent(v0, id@);
                    lemma_count_push(v0, id@, target, 1);
                }
                self.recall_counts.push((target, 1));
                1
            },
        }
    }
}

/// The first entry for `id`.
fn find_count(counts: &[(String, u32)], id: &str) -> (r: Option<usize>)
    ensures
        match r {
            Some(i) => i < counts@.len() && counts@[i as int].0@ == id@ && forall|j: int|
                0 <= j < i ==> counts@[j].0@ != id@,
            None => forall|j: int| 0 <= j < counts@.len() ==> counts@[j].0@ != id@,
        },
{
    let target = owned(id);
    let mut i: usize = 0;
    while i < counts.len()
        invariant
            i <= counts.len(),
            target@ == id@,
            forall|j: int| 0 <= j < i ==> counts@[j].0@ != id@,
        decreases counts.len() - i,
    {
        if counts[i].0 == target {
            return Some(i);
        }
        i = i + 1;
    }
    None
}

proof fn lemma_count_update(v: Seq<(String, u32)>, i: int, id: Seq<char>, n: u32)
    requires
        0 <= i < v.len(),
        v[i].0@ == id,
        forall|j: int| 0 <= j < i ==> v[j].0@ != id,
    ensures
        count_of(v, id) == v[i].1,
        count_of(v.update(i, (v[i].0, n)), id) == n,
        forall|other: Seq<char>|
            other != id ==> count_of(v.update(i, (v[i].0, n)), other) == count_of(v, other),
    decreases i,
{
    let w = v.update(i, (v[i].0, n));
    if i > 0 {
        assert(w.drop_first() =~= v.drop_first().update(i - 1, (v[i].0, n)));
        lemma_count_update(v.drop_first(), i - 1, id, n);
        assert forall|other: Seq<char>| other != id implies count_of(w, other) == count_of(
            v,
            other,
        ) by {
            assert(w[0] == v[0]);
            assert(count_of(w.drop_first(), other) == count_of(v.drop_first(), other));
        }
    } else {
        assert(w.drop_first() =~= v.drop_first());
        assert forall|other: Seq<char>| other != id implies count_of(w, other) == count_of(
            v,
            other,
        ) by {
            assert(w[0].0@ == id);
        }
    }
}

proof fn lemma_count_absent(v: Seq<(String, u32)>, id: Seq<char>)
    requires
        forall|j: int| 0 <= j < v.len() ==> v[j].0@ != id,
    ensures
        count_of(v, id) == 0,
    decreases v.len(),
{
    if v.len() > 0 {
        lemma_count_absent(v.drop_first(), id);
    }
}

proof fn lemma_count_push(v: Seq<(String, u32)>, id: Seq<char>, k: String, n: u32)
    requires
        forall|j: int| 0 <= j < v.len() ==> v[j].0@ != id,
        k@ == id,
    ensures
        count_of(v.push((k, n)), id) == n,
        forall|other: Seq<char>|
            other != id ==> count_of(v.push((k, n)), other) == count_of(v, other),
    decreases v.len(),
{
    let w = v.push((k, n));
    if v.len() > 0 {
        assert(w.drop_first() =~= v.drop_first().push((k, n)));
        lemma_count_push(v.drop_first(), id, k, n);
        assert forall|other: Seq<char>| other != id implies count_of(w, other) == count_of(
            v,
            other,
        ) by {
            assert(w[0] == v[0]);
            assert(count_of(w.drop_first(), other) == count_of(v.drop_first(), other));
        }
    } else {
        assert(w.drop_first() =~= Seq::<(String, u32)>::empty());
        assert forall|other: Seq<char>| other != id implies count_of(w, other) == count_of(
            v,
            other,
        ) by {
            assert(w[0].0@ == id);
            assert(count_of(w.drop_first(), other) == 0);
        }
    }
}

/// The id a `recall` call asks for: the string member `id`, empty when the
/// arguments are not JSON or have none.
pub fn extract_id(arguments: &str) -> (r: String)
    ensures
        r@ == match json_string_member(arguments@, "id"@) {
            Some(Some(id)) => id,
            _ => Seq::empty(),
        },
{
    match json_str_member(arguments, "id") {
        Ok(Some(id)) => id,
        _ => String::new(),
    }
}

/// The reply to a recall of `id`: the spilled output, or an error when
/// the store has none under that id.
pub fn recall_result(id: &str, spilled: Option<String>) -> (r: ToolResult)
    ensures
        match spilled {
            Some(c) => !r.is_error && r.content@ == c@,
            None => r.is_error && r.content@ == "No spilled output found for id: "@ + id@,
        },
{
    match spilled {
        Some(c) => ToolResult::text(c),
        None => {
            let mut out = owned("No spilled output found for id: ");
            push_str(&mut out, id);
            ToolResult::error(out)
        },
    }
}

/// One index line: `  id — preview (N tokens)`.
pub open spec fn index_line(e: SpillIndex) -> Seq<char> {
    "  "@ + e.id@ + " \u{2014} "@ + e.input_preview@ + " ("@ + decimal(e.tokens as nat)
        + " tokens)\n"@
}

/// The index lines of `es`, in order.
pub open spec fn index_lines(es: Seq<SpillIndex>) -> Seq<char>
    decreases es.len(),
{
    if es.len() == 0 {
        Seq::empty()
    } else {
        index_lines(es.drop_last()) + index_line(es.last())
    }
}

/// The reply to `recall("list")`: the number of spilled outputs and one
/// line per output (never the outputs themselves).
pub fn list_result(entries: &[SpillIndex]) -> (r: ToolResult)
    ensures
        !r.is_error,
        entries@.len() == 0 ==> r.content@ == "No spilled outputs in this session."@,
        entries@.len() > 0 ==> r.content@ == "Spilled outputs ("@ + decimal(entries@.len())
            + " entries):\n"@ + index_lines(entries@),
{
    if entries.len() == 0 {
        return ToolResult::text(owned("No spilled outputs in this session."));
    }
    let mut out = owned("Spilled outputs (");
    let n = decimal_string_wide(entries.len() as u128);
    push_str(&mut out, n.as_str());
    push_str(&mut out, " entries):\n");
    let ghost head = out@;
    let mut i: usize = 0;
    assert(entries@.take(0) =~= Seq::<SpillIndex>::empty());
    assert(out@ =~= head + index_lines(entries@.take(0)));
    while i < entries.len()
        invariant
            i <= entries.len(),
            out@ == head + index_lines(entries@.take(i as int)),
        decreases entries.len() - i,
    {
        assert(entries@.take(i as int + 1).drop_last() =~= entries@.take(i as int));
        let e = &entries[i];
        push_str(&mut out, "  ");
        push_str(&mut out, e.id.as_str());
        push_str(&mut out, " \u{2014} ");
        push_str(&mut out, e.input_preview.as_str());
        push_str(&mut out, " (");
        let t = decimal_string(e.tokens);
        push_str(&mut out, t.as_str());
        push_str(&mut out, " tokens)\n");
        assert(out@ =~= head + index_lines(entries@.take(i as int + 1)));
        i = i + 1;
    }
    assert(entries@.take(entries.len() as int) =~= entries@);
    ToolResult::text(out)
}

} // verus!
