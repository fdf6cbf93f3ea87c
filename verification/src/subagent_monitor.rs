//! Live status of child agents: each JSON line a child emits on its socket
//! is read as an event, applied to the child's registry entry, and may give
//! the parent a notification or a workflow update to forward. Reading the
//! socket and delivering the results happen in the caller.

use vstd::prelude::*;

use crate::subagent_registry::{
    copy_entry, extract_summary, run_summary, MessageView, SequencedSubagentNotification,
    SubagentEntry, SubagentNotification, SubagentRegistry, SubagentStatus, WorkflowSnapshot,
};
use crate::text::{
    char_utf8_len, chars_of, contains_chars, contains_seq, lemma_utf8_size_take, owned, push_str,
    utf8_len, utf8_size,
};
use crate::tool::{
    json_bool_member_of, json_member_text_of, json_quoted, json_string_member, json_u64_member_of,
};

verus! {

/// Lines longer than this many bytes are dropped.
pub const MAX_LINE_BYTES: usize = 1048576;

/// Tool names and errors are stored cut to this many bytes.
pub const MAX_STORED_STRING: usize = 256;

// ---------------------------------------------------------------------------
// Cutting stored strings
// ---------------------------------------------------------------------------

/// The first `k` characters of `s` take exactly `n` bytes.
pub open spec fn cut_at(s: Seq<char>, n: nat, k: int) -> bool {
    0 <= k <= s.len() && utf8_size(s.take(k)) == n
}

/// `s` fits in `n` bytes, or a character boundary falls exactly `n` bytes
/// in, so that cutting it there is possible.
pub open spec fn cuttable(s: Seq<char>, n: nat) -> bool {
    utf8_size(s) <= n || exists|k: int| cut_at(s, n, k)
}

/// `s` when it fits in `max` bytes; otherwise its first `max` bytes and
/// `…`.
pub open spec fn clipped(s: Seq<char>, max: nat) -> Seq<char> {
    if utf8_size(s) <= max {
        s
    } else {
        s.take(choose|k: int| cut_at(s, max, k)) + seq!['…']
    }
}

pub proof fn lemma_take_size_grows(s: Seq<char>, a: int, b: int)
    requires
        0 <= a < b <= s.len(),
    ensures
        utf8_size(s.take(a)) < utf8_size(s.take(b)),
    decreases b - a,
{
    assert(s.take(b).drop_last() =~= s.take(b - 1));
    assert(utf8_len(s.take(b).last()) >= 1);
    if a < b - 1 {
        lemma_take_size_grows(s, a, b - 1);
    }
}

proof fn lemma_cut_unique(s: Seq<char>, n: nat, k1: int, k2: int)
    requires
        cut_at(s, n, k1),
        cut_at(s, n, k2),
    ensures
        k1 == k2,
{
    if k1 < k2 {
        lemma_take_size_grows(s, k1, k2);
    } else if k2 < k1 {
        lemma_take_size_grows(s, k2, k1);
    }
}

/// Cuts `s` to at most `max_len` bytes, appending `…` when it was cut. The
/// cut must fall on a character boundary.
pub fn truncate_string(s: &str, max_len: usize) -> (r: String)
    requires
        cuttable(s@, max_len as nat),
    ensures
        r@ == clipped(s@, max_len as nat),
{
    let cs = chars_of(s);
    let mut n: usize = 0;
    let mut i: usize = 0;
    while i < cs.len()
        invariant
            i <= cs.len(),
            cs@ == s@,
            n == utf8_size(s@.take(i as int)),
            n <= max_len,
            cuttable(s@, max_len as nat),
        decreases cs.len() - i,
    {
        assert(s@.take(i as int + 1).drop_last() =~= s@.take(i as int));
        let w = char_utf8_len(cs[i]);
        if w > max_len - n {
            proof {
                lemma_utf8_size_take(s@, i as int + 1);
                lemma_utf8_size_take(s@, i as int);
                assert(utf8_size(s@) > max_len);
            }
            // The boundary at `max_len` bytes must be the one at `i`.
            if n < max_len {
                proof {
                    assert(exists|k: int| cut_at(s@, max_len as nat, k));
                    let k = choose|k: int| cut_at(s@, max_len as nat, k);
                    if k < i {
                        lemma_take_size_grows(s@, k, i as int);
                    } else if k > i + 1 {
                        lemma_take_size_grows(s@, i as int + 1, k);
                    }
                    assert(false);
                }
            }
            proof {
                assert(exists|k: int| cut_at(s@, max_len as nat, k));
                let k = choose|k: int| cut_at(s@, max_len as nat, k);
                assert(cut_at(s@, max_len as nat, i as int));
                lemma_cut_unique(s@, max_len as nat, k, i as int);
            }
            let mut out = crate::text::string_from_chars(&cs.as_slice()[0..i]);
            assert(cs@.subrange(0, i as int) =~= s@.take(i as int));
            crate::text::push_char(&mut out, '…');
            return out;
        }
        n = n + w;
        i = i + 1;
    }
    assert(s@.take(s@.len() as int) =~= s@);
    owned(s)
}


/// Whether `s` can be cut at `n` bytes (see `cuttable`).
pub fn is_cuttable(s: &str, n: usize) -> (r: bool)
    ensures
        r == cuttable(s@, n as nat),
{
    let cs = chars_of(s);
    let mut used: usize = 0;
    let mut i: usize = 0;
    while i < cs.len()
        invariant
            i <= cs.len(),
            cs@ == s@,
            used == utf8_size(s@.take(i as int)),
            used <= n,
            forall|k: int| 0 <= k < i ==> !cut_at(s@, n as nat, k),
        decreases cs.len() - i,
    {
        if used == n {
            assert(cut_at(s@, n as nat, i as int));
            return true;
        }
        assert(s@.take(i as int + 1).drop_last() =~= s@.take(i as int));
        let w = char_utf8_len(cs[i]);
        if w > n - used {
            proof {
                lemma_utf8_size_take(s@, i as int + 1);
                assert forall|k: int| !cut_at(s@, n as nat, k) by {
                    if 0 <= k <= s@.len() {
                        if k > i {
                            if k > i + 1 {
                                lemma_take_size_grows(s@, i as int + 1, k);
                            }
                        } else if k < i {
                        }
                    }
                }
            }
            return false;
        }
        used = used + w;
        i = i + 1;
    }
    assert(s@.take(s@.len() as int) =~= s@);
    true
}

// ---------------------------------------------------------------------------
// Events
// ---------------------------------------------------------------------------

/// What the monitor reads of one event line of a child.
#[derive(Debug)]
pub struct ChildEvent {
    /// `type`, when a string.
    pub kind: Option<String>,
    /// `command`, when a string.
    pub command: Option<String>,
    /// `toolName`, when a string.
    pub tool_name: Option<String>,
    /// `isError`, when a boolean.
    pub is_error: Option<bool>,
    /// `error`, when a string.
    pub error: Option<String>,
    /// `mode`, when a string.
    pub mode: Option<String>,
    /// `progress.done`, when an integer in `u64` range.
    pub done: Option<u64>,
    /// `progress.total`, when an integer in `u64` range.
    pub total: Option<u64>,
    /// `mode` written back as JSON, when present.
    pub mode_json: Option<String>,
    /// `progress` written back as JSON, when present.
    pub progress_json: Option<String>,
    /// The `messages` list, when it is a list.
    pub messages: Option<Vec<MessageView>>,
}

pub open spec fn ov(o: Option<String>) -> Option<Seq<char>> {
    match o {
        Some(s) => Some(s@),
        None => None,
    }
}

/// The event is of type `k`.
pub open spec fn is_kind(ev: ChildEvent, k: Seq<char>) -> bool {
    ov(ev.kind) == Some(k)
}

/// A `response` to the `agent_error` command.
pub open spec fn agent_error_response(ev: ChildEvent) -> bool {
    is_kind(ev, "response"@) && ov(ev.command) == Some("agent_error"@)
}

/// The tool named in the event, `unknown` when none is.
pub open spec fn tool_label(ev: ChildEvent) -> Seq<char> {
    match ov(ev.tool_name) {
        Some(n) => n,
        None => "unknown"@,
    }
}

/// The error the event carries, `agent error` when none.
pub open spec fn error_label(ev: ChildEvent) -> Seq<char> {
    match ov(ev.error) {
        Some(e) => e,
        None => "agent error"@,
    }
}

/// The event reports a failed tool.
pub open spec fn tool_failed(ev: ChildEvent) -> bool {
    is_kind(ev, "tool_execution_end"@) && ev.is_error == Some(true)
}

/// `tool '<name>' returned error`.
pub open spec fn tool_error_text(name: Seq<char>) -> Seq<char> {
    "tool '"@ + name + "' returned error"@
}

/// Every string the event makes the monitor cut can be cut at
/// `MAX_STORED_STRING` bytes.
pub open spec fn event_cuts_ok(ev: ChildEvent) -> bool {
    &&& (is_kind(ev, "tool_execution_start"@) || tool_failed(ev)) ==> match ov(ev.tool_name) {
        Some(n) => cuttable(n, MAX_STORED_STRING as nat),
        None => true,
    }
    &&& tool_failed(ev) ==> cuttable(tool_error_text(tool_label(ev)), MAX_STORED_STRING as nat)
    &&& agent_error_response(ev) ==> cuttable(error_label(ev), MAX_STORED_STRING as nat)
}

/// The fields of an entry that events leave alone.
pub open spec fn same_identity(a: SubagentEntry, b: SubagentEntry) -> bool {
    &&& a.socket_path == b.socket_path
    &&& a.pid == b.pid
    &&& a.notification_sequence == b.notification_sequence
    &&& a.parent_id == b.parent_id
    &&& a.completion_consumed_by_await == b.completion_consumed_by_await
}

/// `b` is entry `a` after event `ev`:
/// - `agent_start`: running, errors cleared;
/// - `agent_end`: idle, unless the run failed;
/// - `tool_execution_start`: running, the tool remembered;
/// - `tool_execution_end`: a failed tool sets the error status and
///   message, a successful one clears the message;
/// - `workflow_state`: the workflow snapshot (mode, done, total);
/// - a `response` to `agent_error`: the error status, message and run error;
/// - anything else: no change.
pub open spec fn applied(a: SubagentEntry, b: SubagentEntry, ev: ChildEvent) -> bool {
    if is_kind(ev, "agent_start"@) {
        &&& same_identity(a, b)
        &&& b.status == SubagentStatus::Running
        &&& b.last_error is None
        &&& b.run_error is None
        &&& b.last_tool == a.last_tool
        &&& b.workflow == a.workflow
    } else if is_kind(ev, "agent_end"@) {
        &&& same_identity(a, b)
        &&& b.status == (if a.run_error is None {
            SubagentStatus::Idle
        } else {
            a.status
        })
        &&& b.last_error == a.last_error
        &&& b.run_error == a.run_error
        &&& b.last_tool == a.last_tool
        &&& b.workflow == a.workflow
    } else if is_kind(ev, "tool_execution_start"@) {
        &&& same_identity(a, b)
        &&& b.status == SubagentStatus::Running
        &&& ov(b.last_tool) == match ov(ev.tool_name) {
            Some(n) => Some(clipped(n, MAX_STORED_STRING as nat)),
            None => ov(a.last_tool),
        }
        &&& b.last_error == a.last_error
        &&& b.run_error == a.run_error
        &&& b.workflow == a.workflow
    } else if is_kind(ev, "tool_execution_end"@) {
        &&& same_identity(a, b)
        &&& b.status == (if tool_failed(ev) {
            SubagentStatus::Error
        } else {
            a.status
        })
        &&& ov(b.last_error) == (if tool_failed(ev) {
            Some(clipped(tool_error_text(tool_label(ev)), MAX_STORED_STRING as nat))
        } else {
            None
        })
        &&& b.run_error == a.run_error
        &&& b.last_tool == a.last_tool
        &&& b.workflow == a.workflow
    } else if is_kind(ev, "workflow_state"@) {
        &&& same_identity(a, b)
        &&& b.status == a.status
        &&& b.last_error == a.last_error
        &&& b.run_error == a.run_error
        &&& b.last_tool == a.last_tool
        &&& b.workflow matches Some(w) && w.mode@ == (match ov(ev.mode) {
            Some(m) => m,
            None => "unknown"@,
        }) && w.steps_completed == (match ev.done {
            Some(d) => d,
            None => 0,
        }) as u32 && w.steps_total == (match ev.total {
            Some(t) => t,
            None => 0,
        }) as u32
    } else if agent_error_response(ev) {
        &&& same_identity(a, b)
        &&& b.status == SubagentStatus::Error
        &&& ov(b.last_error) == Some(clipped(error_label(ev), MAX_STORED_STRING as nat))
        &&& ov(b.run_error) == Some(clipped(error_label(ev), MAX_STORED_STRING as nat))
        &&& b.last_tool == a.last_tool
        &&& b.workflow == a.workflow
    } else {
        b == a
    }
}

fn kind_is(ev: &ChildEvent, k: &str) -> (r: bool)
    ensures
        r == is_kind(*ev, k@),
{
    match &ev.kind {
        Some(t) => crate::text::str_is(t.as_str(), k),
        None => false,
    }
}

fn is_agent_error_response(ev: &ChildEvent) -> (r: bool)
    ensures
        r == agent_error_response(*ev),
{
    kind_is(ev, "response") && match &ev.command {
        Some(c) => crate::text::str_is(c.as_str(), "agent_error"),
        None => false,
    }
}

fn tool_error_message(ev: &ChildEvent) -> (r: String)
    ensures
        r@ == tool_error_text(tool_label(*ev)),
{
    let mut m = owned("tool '");
    match &ev.tool_name {
        Some(n) => push_str(&mut m, n.as_str()),
        None => push_str(&mut m, "unknown"),
    }
    push_str(&mut m, "' returned error");
    m
}

fn error_message(ev: &ChildEvent) -> (r: String)
    ensures
        r@ == error_label(*ev),
{
    match &ev.error {
        Some(e) => e.clone(),
        None => owned("agent error"),
    }
}

/// Applies a read event to an entry (see `applied`).
pub fn apply_event_parsed(entry: &mut SubagentEntry, ev: &ChildEvent)
    requires
        event_cuts_ok(*ev),
    ensures
        applied(*old(entry), *final(entry), *ev),
{
    if kind_is(ev, "agent_start") {
        entry.status = SubagentStatus::Running;
        entry.last_error = None;
        entry.run_error = None;
    } else if kind_is(ev, "agent_end") {
        if entry.run_error.is_none() {
            entry.status = SubagentStatus::Idle;
        }
    } else if kind_is(ev, "tool_execution_start") {
        entry.status = SubagentStatus::Running;
        match &ev.tool_name {
            Some(n) => {
                entry.last_tool = Some(truncate_string(n.as_str(), MAX_STORED_STRING));
            },
            None => {},
        }
    } else if kind_is(ev, "tool_execution_end") {
        let is_error = match ev.is_error {
            Some(b) => b,
            None => false,
        };
        if is_error {
            entry.status = SubagentStatus::Error;
            let m = tool_error_message(ev);
            entry.last_error = Some(truncate_string(m.as_str(), MAX_STORED_STRING));
        } else {
            entry.last_error = None;
        }
    } else if kind_is(ev, "workflow_state") {
        let mode = match &ev.mode {
            Some(m) => m.clone(),
            None => owned("unknown"),
        };
        let done: u64 = match ev.done {
            Some(d) => d,
            None => 0,
        };
        let total: u64 = match ev.total {
            Some(t) => t,
            None => 0,
        };
        entry.workflow = Some(
            WorkflowSnapshot {
                mode,
                steps_completed: #[verifier::truncate] (done as u32),
                steps_total: #[verifier::truncate] (total as u32),
            },
        );
    } else if is_agent_error_response(ev) {
        entry.status = SubagentStatus::Error;
        let m = error_message(ev);
        let e = truncate_string(m.as_str(), MAX_STORED_STRING);
        entry.last_error = Some(e.clone());
        entry.run_error = Some(e);
    }
}

/// Marks an entry exited (its connection closed or its process was
/// reaped).
pub fn mark_exited(entry: &mut SubagentEntry)
    ensures
        final(entry).status == SubagentStatus::Exited,
        same_identity(*old(entry), *final(entry)),
        final(entry).last_tool == old(entry).last_tool,
        final(entry).last_error == old(entry).last_error,
        final(entry).run_error == old(entry).run_error,
        final(entry).workflow == old(entry).workflow,
{
    entry.status = SubagentStatus::Exited;
}

/// Whether an `agent_end` ends the child's work: it runs no workflow, or
/// its workflow is complete.
pub fn agent_end_is_terminal(workflow_mode: Option<&str>) -> (r: bool)
    ensures
        r == match workflow_mode {
            None => true,
            Some(m) => m@ == "complete"@,
        },
{
    match workflow_mode {
        None => true,
        Some(m) => crate::text::str_is(m, "complete"),
    }
}


// ---------------------------------------------------------------------------
// Reading event lines
// ---------------------------------------------------------------------------

/// Reading `text` as JSON: `None` when it is not valid JSON; otherwise,
/// when member `key` of the top-level object is a list, each item's `role`
/// and `content` where they are strings; `Some(None)` when the member is
/// missing or not a list.
pub uninterp spec fn json_messages_of(text: Seq<char>, key: Seq<char>) -> Option<
    Option<Seq<(Option<Seq<char>>, Option<Seq<char>>)>>,
>;

/// The role and content of each message.
pub open spec fn message_views(v: Seq<MessageView>) -> Seq<(Option<Seq<char>>, Option<Seq<char>>)> {
    v.map_values(|m: MessageView| (ov(m.role), ov(m.content)))
}

/// Parses `text` with `serde_json` and reads member `key` as a list of
/// messages (`role` and `content` of each item, as strings when they are).
#[verifier::external_body]
fn json_message_list(text: &str, key: &str) -> (r: Result<Option<Vec<MessageView>>, String>)
    ensures
        match r {
            Ok(v) => json_messages_of(text@, key@) == Some(
                match v {
                    Some(l) => Some(message_views(l@)),
                    None => None,
                },
            ),
            Err(_) => json_messages_of(text@, key@) is None,
        },
{
    match serde_json::from_str::<serde_json::Value>(text) {
        Ok(v) => Ok(v.get(key).and_then(|m| m.as_array()).map(|a| a.iter().map(|m| MessageView {
            role: m.get("role").and_then(|x| x.as_str()).map(|x| x.to_string()),
            content: m.get("content").and_then(|x| x.as_str()).map(|x| x.to_string()),
        }).collect())),
        Err(e) => Err(e.to_string()),
    }
}

/// Member `key` of the `progress` object, when it is an integer in `u64`
/// range.
pub open spec fn progress_member(progress: Option<Option<Seq<char>>>, key: Seq<char>) -> Option<u64> {
    match progress {
        Some(Some(t)) => match json_u64_member_of(t, key) {
            Some(x) => x,
            None => None,
        },
        _ => None,
    }
}

/// The line reads as JSON for every member the monitor looks at.
pub open spec fn event_parses(line: Seq<char>) -> bool {
    &&& json_string_member(line, "type"@) is Some
    &&& json_string_member(line, "command"@) is Some
    &&& json_string_member(line, "toolName"@) is Some
    &&& json_bool_member_of(line, "isError"@) is Some
    &&& json_string_member(line, "error"@) is Some
    &&& json_string_member(line, "mode"@) is Some
    &&& json_member_text_of(line, "mode"@) is Some
    &&& json_member_text_of(line, "progress"@) is Some
    &&& json_messages_of(line, "messages"@) is Some
}

/// `ev` is what the monitor reads of `line`.
pub open spec fn event_read(line: Seq<char>, ev: ChildEvent) -> bool {
    &&& json_string_member(line, "type"@) == Some(ov(ev.kind))
    &&& json_string_member(line, "command"@) == Some(ov(ev.command))
    &&& json_string_member(line, "toolName"@) == Some(ov(ev.tool_name))
    &&& json_bool_member_of(line, "isError"@) == Some(ev.is_error)
    &&& json_string_member(line, "error"@) == Some(ov(ev.error))
    &&& json_string_member(line, "mode"@) == Some(ov(ev.mode))
    &&& json_member_text_of(line, "mode"@) == Some(ov(ev.mode_json))
    &&& json_member_text_of(line, "progress"@) == Some(ov(ev.progress_json))
    &&& ev.done == progress_member(json_member_text_of(line, "progress"@), "done"@)
    &&& ev.total == progress_member(json_member_text_of(line, "progress"@), "total"@)
    &&& json_messages_of(line, "messages"@) == Some(
        match ev.messages {
            Some(l) => Some(message_views(l@)),
            None => None,
        },
    )
}

fn progress_u64(progress: &Option<String>, key: &str) -> (r: Option<u64>)
    ensures
        r == progress_member(Some(ov(*progress)), key@),
{
    match progress {
        Some(t) => match crate::tool::json_u64_member(t.as_str(), key) {
            Ok(x) => x,
            Err(_) => None,
        },
        None => None,
    }
}

/// Reads one event line: `None` when it is not JSON.
pub fn parse_child_event(line: &str) -> (r: Option<ChildEvent>)
    ensures
        r is Some <==> event_parses(line@),
        r matches Some(ev) ==> event_read(line@, ev),
{
    let kind = match crate::tool::json_str_member(line, "type") {
        Ok(v) => v,
        Err(_) => {
            return None;
        },
    };
    let command = match crate::tool::json_str_member(line, "command") {
        Ok(v) => v,
        Err(_) => {
            return None;
        },
    };
    let tool_name = match crate::tool::json_str_member(line, "toolName") {
        Ok(v) => v,
        Err(_) => {
            return None;
        },
    };
    let is_error = match crate::tool::json_bool_member(line, "isError") {
        Ok(v) => v,
        Err(_) => {
            return None;
        },
    };
    let error = match crate::tool::json_str_member(line, "error") {
        Ok(v) => v,
        Err(_) => {
            return None;
        },
    };
    let mode = match crate::tool::json_str_member(line, "mode") {
        Ok(v) => v,
        Err(_) => {
            return None;
        },
    };
    let mode_json = match crate::tool::json_member_text(line, "mode") {
        Ok(v) => v,
        Err(_) => {
            return None;
        },
    };
    let progress_json = match crate::tool::json_member_text(line, "progress") {
        Ok(v) => v,
        Err(_) => {
            return None;
        },
    };
    let messages = match json_message_list(line, "messages") {
        Ok(v) => v,
        Err(_) => {
            return None;
        },
    };
    let done = progress_u64(&progress_json, "done");
    let total = progress_u64(&progress_json, "total");
    Some(
        ChildEvent {
            kind,
            command,
            tool_name,
            is_error,
            error,
            mode,
            done,
            total,
            mode_json,
            progress_json,
            messages,
        },
    )
}

/// The line names one of the events that change a child's state (a cheap
/// test made before parsing).
pub open spec fn state_changing(line: Seq<char>) -> bool {
    ||| contains_seq(line, "\"type\":\"agent_start\""@)
    ||| contains_seq(line, "\"type\":\"agent_end\""@)
    ||| contains_seq(line, "\"type\":\"tool_execution_start\""@)
    ||| contains_seq(line, "\"type\":\"tool_execution_end\""@)
    ||| contains_seq(line, "\"type\":\"workflow_state\""@)
    ||| contains_seq(line, "\"command\":\"agent_error\""@)
}

fn mentions(line: &[char], pat: &str) -> (r: bool)
    ensures
        r == contains_seq(line@, pat@),
{
    let p = chars_of(pat);
    contains_chars(line, p.as_slice())
}

/// Whether the line names a state-changing event (see `state_changing`).
pub fn is_state_changing(line: &str) -> (r: bool)
    ensures
        r == state_changing(line@),
{
    let cs = chars_of(line);
    let l = cs.as_slice();
    mentions(l, "\"type\":\"agent_start\"") || mentions(l, "\"type\":\"agent_end\"")
        || mentions(l, "\"type\":\"tool_execution_start\"") || mentions(
        l,
        "\"type\":\"tool_execution_end\"",
    ) || mentions(l, "\"type\":\"workflow_state\"") || mentions(
        l,
        "\"command\":\"agent_error\"",
    )
}

/// Whether every string the event makes the monitor cut can be cut (see
/// `event_cuts_ok`).
pub fn event_cuts_fit(ev: &ChildEvent) -> (r: bool)
    ensures
        r == event_cuts_ok(*ev),
{
    let start = kind_is(ev, "tool_execution_start");
    let failed = kind_is(ev, "tool_execution_end") && ev.is_error == Some(true);
    if start || failed {
        match &ev.tool_name {
            Some(n) => {
                if !is_cuttable(n.as_str(), MAX_STORED_STRING) {
                    return false;
                }
            },
            None => {},
        }
    }
    if failed {
        let m = tool_error_message(ev);
        if !is_cuttable(m.as_str(), MAX_STORED_STRING) {
            return false;
        }
    }
    if is_agent_error_response(ev) {
        let m = error_message(ev);
        if !is_cuttable(m.as_str(), MAX_STORED_STRING) {
            return false;
        }
    }
    true
}

/// Applies one event line to an entry: lines that name no state-changing
/// event, or are not JSON, change nothing; an event whose strings could not
/// be cut at a character boundary is left unapplied too.
pub fn apply_event(entry: &mut SubagentEntry, line: &str)
    ensures
        !(state_changing(line@) && event_parses(line@)) ==> *final(entry) == *old(entry),
        state_changing(line@) && event_parses(line@) ==> exists|ev: ChildEvent|
            #[trigger] event_read(line@, ev) && (if event_cuts_ok(ev) {
                applied(*old(entry), *final(entry), ev)
            } else {
                *final(entry) == *old(entry)
            }),
{
    if !is_state_changing(line) {
        return;
    }
    let ev = match parse_child_event(line) {
        Some(ev) => ev,
        None => {
            return;
        },
    };
    if event_cuts_fit(&ev) {
        apply_event_parsed(entry, &ev);
    }
    assert(event_read(line@, ev));
}


// ---------------------------------------------------------------------------
// The registry
// ---------------------------------------------------------------------------

/// `e` with its notification sequence set to `n`.
pub open spec fn with_sequence(e: SubagentEntry, n: u64) -> SubagentEntry {
    SubagentEntry { notification_sequence: n, ..e }
}

/// The next notification sequence after `n` (it stays at `u64::MAX`).
pub open spec fn next_sequence(n: u64) -> u64 {
    if n < u64::MAX {
        (n + 1) as u64
    } else {
        n
    }
}

fn bump(e: &mut SubagentEntry) -> (n: u64)
    ensures
        n == next_sequence(old(e).notification_sequence),
        *final(e) == with_sequence(*old(e), n),
{
    let n = e.notification_sequence.saturating_add(1);
    e.notification_sequence = n;
    n
}

/// Applies `ev` to the entry of `agent_id` and takes its next notification
/// sequence, which is returned; an unregistered agent gets 0 and the
/// registry is left as it is.
pub fn record_event(registry: &mut SubagentRegistry, agent_id: &str, ev: &ChildEvent) -> (n: u64)
    requires
        event_cuts_ok(*ev),
    ensures
        !old(registry).view().contains_key(agent_id@) ==> n == 0 && final(registry).view()
            == old(registry).view(),
        old(registry).view().contains_key(agent_id@) ==> {
            let a = old(registry).view()[agent_id@];
            let b = final(registry).view()[agent_id@];
            &&& final(registry).view() == old(registry).view().insert(agent_id@, b)
            &&& n == next_sequence(a.notification_sequence)
            &&& b.notification_sequence == n
            &&& applied(a, with_sequence(b, a.notification_sequence), *ev)
        },
{
    let mut e = match registry.get(agent_id) {
        Some(e) => copy_entry(e),
        None => {
            return 0;
        },
    };
    let ghost a = e;
    apply_event_parsed(&mut e, ev);
    let ghost mid = e;
    let n = bump(&mut e);
    assert(with_sequence(e, a.notification_sequence) == mid);
    registry.insert(owned(agent_id), e);
    n
}

/// Marks the entry of `agent_id` exited and takes its next notification
/// sequence, which is returned; an unregistered agent gets 0 and the
/// registry is left as it is.
pub fn record_exit(registry: &mut SubagentRegistry, agent_id: &str) -> (n: u64)
    ensures
        !old(registry).view().contains_key(agent_id@) ==> n == 0 && final(registry).view()
            == old(registry).view(),
        old(registry).view().contains_key(agent_id@) ==> {
            let a = old(registry).view()[agent_id@];
            let b = final(registry).view()[agent_id@];
            &&& final(registry).view() == old(registry).view().insert(agent_id@, b)
            &&& n == next_sequence(a.notification_sequence)
            &&& b == with_sequence(SubagentEntry { status: SubagentStatus::Exited, ..a }, n)
        },
{
    let mut e = match registry.get(agent_id) {
        Some(e) => copy_entry(e),
        None => {
            return 0;
        },
    };
    mark_exited(&mut e);
    let n = bump(&mut e);
    registry.insert(owned(agent_id), e);
    n
}

// ---------------------------------------------------------------------------
// Notifications
// ---------------------------------------------------------------------------

/// The summary of a finished run carried in its completion note.
pub open spec fn event_summary(ev: ChildEvent) -> Seq<char> {
    match ev.messages {
        Some(l) => run_summary(l@),
        None => "(no output)"@,
    }
}

/// The note, if any, that event `ev` of `agent_id` gives the parent, when
/// the child's workflow is in `mode`:
/// - an `agent_end` that ends the child's work (see
///   `agent_end_is_terminal`): completed, with the run's summary;
/// - a failed tool: errored, naming the tool (cut);
/// - a `response` to `agent_error`: errored, with the error (cut);
/// - nothing otherwise.
pub open spec fn notifies(
    agent_id: Seq<char>,
    sequence: u64,
    ev: ChildEvent,
    mode: Option<Seq<char>>,
    r: Option<SequencedSubagentNotification>,
) -> bool {
    if is_kind(ev, "agent_end"@) {
        if mode is None || mode == Some("complete"@) {
            completed_note(r, agent_id, sequence, event_summary(ev))
        } else {
            r is None
        }
    } else if tool_failed(ev) {
        errored_note(
            r,
            agent_id,
            sequence,
            tool_error_text(
                match ov(ev.tool_name) {
                    Some(t) => clipped(t, MAX_STORED_STRING as nat),
                    None => "unknown"@,
                },
            ),
        )
    } else if agent_error_response(ev) {
        errored_note(r, agent_id, sequence, clipped(error_label(ev), MAX_STORED_STRING as nat))
    } else {
        r is None
    }
}

/// `r` is a completion note of `agent_id` with `sequence` and `summary`.
pub open spec fn completed_note(
    r: Option<SequencedSubagentNotification>,
    agent_id: Seq<char>,
    sequence: u64,
    summary: Seq<char>,
) -> bool {
    match r {
        Some(n) => n.sequence == sequence && match n.notification {
            SubagentNotification::Completed { agent_id: a, summary: t } => a@ == agent_id && t@
                == summary,
            _ => false,
        },
        None => false,
    }
}

/// `r` is an error note of `agent_id` with `sequence` and `error`.
pub open spec fn errored_note(
    r: Option<SequencedSubagentNotification>,
    agent_id: Seq<char>,
    sequence: u64,
    error: Seq<char>,
) -> bool {
    match r {
        Some(n) => n.sequence == sequence && match n.notification {
            SubagentNotification::Errored { agent_id: a, error: t } => a@ == agent_id && t@ == error,
            _ => false,
        },
        None => false,
    }
}

/// The note event `ev` of `agent_id` gives the parent (see `notifies`).
pub fn notification_for(
    agent_id: &str,
    sequence: u64,
    ev: &ChildEvent,
    workflow_mode: Option<&str>,
) -> (r: Option<SequencedSubagentNotification>)
    requires
        event_cuts_ok(*ev),
    ensures
        notifies(
            agent_id@,
            sequence,
            *ev,
            match workflow_mode {
                Some(m) => Some(m@),
                None => None,
            },
            r,
        ),
{
    if kind_is(ev, "agent_end") {
        if !agent_end_is_terminal(workflow_mode) {
            return None;
        }
        let summary = match &ev.messages {
            Some(l) => extract_summary(Some(l.as_slice())),
            None => extract_summary(None),
        };
        return Some(
            SequencedSubagentNotification::new(
                sequence,
                SubagentNotification::Completed { agent_id: owned(agent_id), summary },
            ),
        );
    }
    if kind_is(ev, "tool_execution_end") && ev.is_error == Some(true) {
        let name = match &ev.tool_name {
            Some(t) => truncate_string(t.as_str(), MAX_STORED_STRING),
            None => owned("unknown"),
        };
        let mut error = owned("tool '");
        push_str(&mut error, name.as_str());
        push_str(&mut error, "' returned error");
        return Some(
            SequencedSubagentNotification::new(
                sequence,
                SubagentNotification::Errored { agent_id: owned(agent_id), error },
            ),
        );
    }
    if is_agent_error_response(ev) {
        let m = error_message(ev);
        let error = truncate_string(m.as_str(), MAX_STORED_STRING);
        return Some(
            SequencedSubagentNotification::new(
                sequence,
                SubagentNotification::Errored { agent_id: owned(agent_id), error },
            ),
        );
    }
    None
}

/// The note given when a child's connection ends.
pub fn exit_notification(agent_id: &str, sequence: u64) -> (r: SequencedSubagentNotification)
    ensures
        r.sequence == sequence,
        (r.notification matches SubagentNotification::Exited { agent_id: a } && a@ == agent_id@),
{
    SequencedSubagentNotification::new(
        sequence,
        SubagentNotification::Exited { agent_id: owned(agent_id) },
    )
}

// ---------------------------------------------------------------------------
// Forwarding workflow updates
// ---------------------------------------------------------------------------

/// A child's `workflow_state` event as the parent forwards it: rebuilt
/// from the known members only, with the child's identity stamped in
/// (members in `serde_json`'s key order).
pub open spec fn forwarded(ev: ChildEvent, child_id: Seq<char>, parent_id: Option<Seq<char>>) -> Seq<
    char,
> {
    "{\"agent_id\":"@ + json_quoted(child_id) + ",\"mode\":"@ + (match ov(ev.mode_json) {
        Some(t) => t,
        None => "null"@,
    }) + ",\"parent_id\":"@ + (match parent_id {
        Some(p) => json_quoted(p),
        None => "null"@,
    }) + ",\"progress\":"@ + (match ov(ev.progress_json) {
        Some(t) => t,
        None => "null"@,
    }) + ",\"type\":\"workflow_state\"}"@
}

/// The forwarded form of a `workflow_state` event (see `forwarded`);
/// `None` for any other event.
pub fn canonical_workflow_forward(ev: &ChildEvent, child_id: &str, parent_id: Option<&str>) -> (r:
    Option<String>)
    ensures
        !is_kind(*ev, "workflow_state"@) ==> r is None,
        is_kind(*ev, "workflow_state"@) ==> (r matches Some(t) && t@ == forwarded(
            *ev,
            child_id@,
            match parent_id {
                Some(p) => Some(p@),
                None => None,
            },
        )),
{
    if !kind_is(ev, "workflow_state") {
        return None;
    }
    let mut out = owned("{\"agent_id\":");
    let q = crate::tool::json_quote(child_id);
    push_str(&mut out, q.as_str());
    push_str(&mut out, ",\"mode\":");
    match &ev.mode_json {
        Some(t) => push_str(&mut out, t.as_str()),
        None => push_str(&mut out, "null"),
    }
    push_str(&mut out, ",\"parent_id\":");
    match parent_id {
        Some(p) => {
            let q = crate::tool::json_quote(p);
            push_str(&mut out, q.as_str());
        },
        None => push_str(&mut out, "null"),
    }
    push_str(&mut out, ",\"progress\":");
    match &ev.progress_json {
        Some(t) => push_str(&mut out, t.as_str()),
        None => push_str(&mut out, "null"),
    }
    push_str(&mut out, ",\"type\":\"workflow_state\"}");
    Some(out)
}

/// Forwards a child's event line when it is a `workflow_state` event.
pub fn forward_child_workflow_event(line: &str, child_id: &str, parent_id: Option<&str>) -> (r:
    Option<String>)
    ensures
        !(contains_seq(line@, "\"type\":\"workflow_state\""@) && event_parses(line@)) ==> r is None,
        contains_seq(line@, "\"type\":\"workflow_state\""@) && event_parses(line@) ==> exists|
            ev: ChildEvent,
        | #[trigger] event_read(line@, ev) && (if is_kind(ev, "workflow_state"@) {
            r matches Some(t) && t@ == forwarded(
                ev,
                child_id@,
                match parent_id {
                    Some(p) => Some(p@),
                    None => None,
                },
            )
        } else {
            r is None
        }),
{
    let cs = chars_of(line);
    if !mentions(cs.as_slice(), "\"type\":\"workflow_state\"") {
        return None;
    }
    let ev = match parse_child_event(line) {
        Some(ev) => ev,
        None => {
            return None;
        },
    };
    let r = canonical_workflow_forward(&ev, child_id, parent_id);
    assert(event_read(line@, ev));
    r
}


// ---------------------------------------------------------------------------
// One line of a child's stream
// ---------------------------------------------------------------------------

/// What one line of a child's stream gives: a note for the parent and a
/// workflow update to forward, each when there is one.
#[derive(Debug)]
pub struct MonitorOutput {
    pub notification: Option<SequencedSubagentNotification>,
    pub forward: Option<String>,
}

/// The workflow mode registered for `agent_id`, if any.
pub open spec fn mode_in(m: Map<Seq<char>, SubagentEntry>, agent_id: Seq<char>) -> Option<Seq<char>> {
    if m.contains_key(agent_id) {
        match m[agent_id].workflow {
            Some(w) => Some(w.mode@),
            None => None,
        }
    } else {
        None
    }
}

/// The sequence an event of `agent_id` takes in registry `m`.
pub open spec fn sequence_in(m: Map<Seq<char>, SubagentEntry>, agent_id: Seq<char>) -> u64 {
    if m.contains_key(agent_id) {
        next_sequence(m[agent_id].notification_sequence)
    } else {
        0
    }
}

/// Registry `b` and output `out` follow from registry `a` and event `ev` of
/// `agent_id`: the event is applied to the agent's entry (when registered)
/// with its next sequence, the note is the one `notifies` gives for the
/// workflow mode after the event, and a `workflow_state` event is forwarded.
pub open spec fn monitor_step(
    a: Map<Seq<char>, SubagentEntry>,
    b: Map<Seq<char>, SubagentEntry>,
    agent_id: Seq<char>,
    parent_id: Option<Seq<char>>,
    ev: ChildEvent,
    out: MonitorOutput,
) -> bool {
    &&& (!a.contains_key(agent_id) ==> b == a)
    &&& (a.contains_key(agent_id) ==> {
        &&& b == a.insert(agent_id, b[agent_id])
        &&& b[agent_id].notification_sequence == sequence_in(a, agent_id)
        &&& applied(a[agent_id], with_sequence(b[agent_id], a[agent_id].notification_sequence), ev)
    })
    &&& notifies(agent_id, sequence_in(a, agent_id), ev, mode_in(b, agent_id), out.notification)
    &&& (!is_kind(ev, "workflow_state"@) ==> out.forward is None)
    &&& (is_kind(ev, "workflow_state"@) ==> (out.forward matches Some(t) && t@ == forwarded(
        ev,
        agent_id,
        parent_id,
    )))
}

fn workflow_mode_of<'a>(registry: &'a SubagentRegistry, agent_id: &str) -> (r: Option<&'a str>)
    ensures
        match r {
            Some(m) => mode_in(registry.view(), agent_id@) == Some(m@),
            None => mode_in(registry.view(), agent_id@) is None,
        },
{
    match registry.get(agent_id) {
        Some(e) => match &e.workflow {
            Some(w) => Some(w.mode.as_str()),
            None => None,
        },
        None => None,
    }
}

/// Handles one line of a child's stream: lines over `MAX_LINE_BYTES`
/// bytes, lines that name no state-changing event and lines that are not
/// JSON are dropped; so is an event whose strings could not be cut at a
/// character boundary. Otherwise the event is recorded and its note and
/// forward returned (see `monitor_step`).
pub fn handle_monitor_line(
    registry: &mut SubagentRegistry,
    line: &str,
    agent_id: &str,
    parent_id: Option<&str>,
) -> (out: MonitorOutput)
    ensures
        (utf8_size(line@) > MAX_LINE_BYTES || !state_changing(line@) || !event_parses(line@))
            ==> final(registry).view() == old(registry).view() && out.notification is None
            && out.forward is None,
        (utf8_size(line@) <= MAX_LINE_BYTES && state_changing(line@) && event_parses(line@))
            ==> exists|ev: ChildEvent|
            #[trigger] event_read(line@, ev) && (if event_cuts_ok(ev) {
                monitor_step(
                    old(registry).view(),
                    final(registry).view(),
                    agent_id@,
                    match parent_id {
                        Some(p) => Some(p@),
                        None => None,
                    },
                    ev,
                    out,
                )
            } else {
                final(registry).view() == old(registry).view() && out.notification is None
                    && out.forward is None
            }),
{
    let nothing = MonitorOutput { notification: None, forward: None };
    let cs = chars_of(line);
    if crate::text::utf8_size_within(cs.as_slice(), MAX_LINE_BYTES).is_none() {
        return nothing;
    }
    if !is_state_changing(line) {
        return nothing;
    }
    let ev = match parse_child_event(line) {
        Some(ev) => ev,
        None => {
            return nothing;
        },
    };
    assert(event_read(line@, ev));
    if !event_cuts_fit(&ev) {
        return nothing;
    }
    let sequence = record_event(registry, agent_id, &ev);
    let mode = workflow_mode_of(registry, agent_id);
    let notification = notification_for(agent_id, sequence, &ev, mode);
    let forward = canonical_workflow_forward(&ev, agent_id, parent_id);
    MonitorOutput { notification, forward }
}

/// Records that a child's connection ended: its entry is marked exited
/// and the exit note, with the entry's next sequence, is returned.
pub fn handle_monitor_close(registry: &mut SubagentRegistry, agent_id: &str) -> (r:
    SequencedSubagentNotification)
    ensures
        r.sequence == sequence_in(old(registry).view(), agent_id@),
        (r.notification matches SubagentNotification::Exited { agent_id: a } && a@ == agent_id@),
        !old(registry).view().contains_key(agent_id@) ==> final(registry).view() == old(
            registry,
        ).view(),
        old(registry).view().contains_key(agent_id@) ==> {
            let a = old(registry).view()[agent_id@];
            final(registry).view() == old(registry).view().insert(
                agent_id@,
                with_sequence(SubagentEntry { status: SubagentStatus::Exited, ..a }, r.sequence),
            )
        },
{
    let n = record_exit(registry, agent_id);
    exit_notification(agent_id, n)
}


/// A child's turn ending while its workflow is still under way (its mode is
/// anything but `complete`) gives the parent no note: only the end of the
/// whole workflow, or of a turn of a child without one, completes.
pub proof fn law_no_completion_mid_workflow(
    a: Map<Seq<char>, SubagentEntry>,
    b: Map<Seq<char>, SubagentEntry>,
    agent_id: Seq<char>,
    parent_id: Option<Seq<char>>,
    ev: ChildEvent,
    out: MonitorOutput,
)
    requires
        a.contains_key(agent_id),
        a[agent_id].workflow matches Some(w) && w.mode@ != "complete"@,
        is_kind(ev, "agent_end"@),
        monitor_step(a, b, agent_id, parent_id, ev, out),
    ensures
        out.notification is None,
{
    assert(b[agent_id].workflow == a[agent_id].workflow);
}

/// Every event leaves a child's socket, process, parent and await flag as
/// they were; only the sequence number moves, by one.
pub proof fn law_events_keep_identity(
    a: Map<Seq<char>, SubagentEntry>,
    b: Map<Seq<char>, SubagentEntry>,
    agent_id: Seq<char>,
    parent_id: Option<Seq<char>>,
    ev: ChildEvent,
    out: MonitorOutput,
)
    requires
        a.contains_key(agent_id),
        monitor_step(a, b, agent_id, parent_id, ev, out),
    ensures
        b[agent_id].socket_path == a[agent_id].socket_path,
        b[agent_id].pid == a[agent_id].pid,
        b[agent_id].parent_id == a[agent_id].parent_id,
        b[agent_id].completion_consumed_by_await == a[agent_id].completion_consumed_by_await,
        b[agent_id].notification_sequence == next_sequence(a[agent_id].notification_sequence),
        forall|k: Seq<char>| k != agent_id ==> b.contains_key(k) == a.contains_key(k),
{
    let x = a[agent_id];
    let y = with_sequence(b[agent_id], x.notification_sequence);
    assert(applied(x, y, ev));
    assert(same_identity(x, y) || y == x);
}


/// A run of the monitor: `ms[i + 1]` is the registry after event `i`, and
/// `outs[i]` what that event produced.
pub open spec fn monitor_run(
    ms: Seq<Map<Seq<char>, SubagentEntry>>,
    agent_id: Seq<char>,
    parent_id: Option<Seq<char>>,
    evs: Seq<ChildEvent>,
    outs: Seq<MonitorOutput>,
) -> bool {
    &&& ms.len() == evs.len() + 1
    &&& outs.len() == evs.len()
    &&& forall|i: int|
        0 <= i < evs.len() ==> monitor_step(
            #[trigger] ms[i],
            ms[i + 1],
            agent_id,
            parent_id,
            evs[i],
            outs[i],
        )
}

/// The event reports the workflow as complete.
pub open spec fn reports_complete(ev: ChildEvent) -> bool {
    is_kind(ev, "workflow_state"@) && ov(ev.mode) == Some("complete"@)
}

/// The child is in a workflow that is not complete.
pub open spec fn mid_workflow(m: Map<Seq<char>, SubagentEntry>, agent_id: Seq<char>) -> bool {
    m.contains_key(agent_id) && (m[agent_id].workflow matches Some(w) && w.mode@ != "complete"@)
}

/// The notification is a completion note.
pub open spec fn is_completion(n: Option<SequencedSubagentNotification>) -> bool {
    (n matches Some(x) && x.notification is Completed)
}

proof fn lemma_mid_workflow_step(
    a: Map<Seq<char>, SubagentEntry>,
    b: Map<Seq<char>, SubagentEntry>,
    agent_id: Seq<char>,
    parent_id: Option<Seq<char>>,
    ev: ChildEvent,
    out: MonitorOutput,
)
    requires
        mid_workflow(a, agent_id),
        !reports_complete(ev),
        monitor_step(a, b, agent_id, parent_id, ev, out),
    ensures
        mid_workflow(b, agent_id),
        !is_completion(out.notification),
{
    reveal_strlit("complete");
    reveal_strlit("unknown");
    let x = with_sequence(b[agent_id], a[agent_id].notification_sequence);
    assert(x.workflow == b[agent_id].workflow);
    assert("unknown"@.len() != "complete"@.len());
}

/// Across any run of events in which none reports the workflow complete,
/// a child that started in an unfinished workflow is never announced as
/// completed, whatever else happens (turns ending, tools failing).
pub proof fn law_no_completion_before_workflow_complete(
    ms: Seq<Map<Seq<char>, SubagentEntry>>,
    agent_id: Seq<char>,
    parent_id: Option<Seq<char>>,
    evs: Seq<ChildEvent>,
    outs: Seq<MonitorOutput>,
)
    requires
        monitor_run(ms, agent_id, parent_id, evs, outs),
        mid_workflow(ms[0], agent_id),
        forall|i: int| 0 <= i < evs.len() ==> !reports_complete(#[trigger] evs[i]),
    ensures
        forall|i: int| 0 <= i < outs.len() ==> !is_completion(#[trigger] outs[i].notification),
        mid_workflow(ms[evs.len() as int], agent_id),
    decreases evs.len(),
{
    if evs.len() > 0 {
        let n = evs.len() - 1;
        let ms2 = ms.take(n + 1);
        let evs2 = evs.take(n);
        let outs2 = outs.take(n);
        assert forall|i: int| 0 <= i < evs2.len() implies monitor_step(
            #[trigger] ms2[i],
            ms2[i + 1],
            agent_id,
            parent_id,
            evs2[i],
            outs2[i],
        ) by {
            assert(monitor_step(ms[i], ms[i + 1], agent_id, parent_id, evs[i], outs[i]));
        }
        assert forall|i: int| 0 <= i < evs2.len() implies !reports_complete(#[trigger] evs2[i]) by {
            assert(!reports_complete(evs[i]));
        }
        law_no_completion_before_workflow_complete(ms2, agent_id, parent_id, evs2, outs2);
        assert(monitor_step(ms[n], ms[n + 1], agent_id, parent_id, evs[n], outs[n]));
        assert(!reports_complete(evs[n]));
        lemma_mid_workflow_step(ms[n], ms[n + 1], agent_id, parent_id, evs[n], outs[n]);
        assert forall|i: int| 0 <= i < outs.len() implies !is_completion(#[trigger] outs[i].notification) by {
            if i < n {
                assert(outs2[i] == outs[i]);
            }
        }
    }
}

} // verus!
