//! The state shared by the tools that spawn and drive subagents: each
//! subagent's live status, the typed verdict of an `await`, the one-line
//! notifications a parent receives, and the registry of spawned agents.

use vstd::prelude::*;

use crate::text::{chars_of, decimal, decimal_string, owned, push_chars, push_str, utf8_size};

verus! {

// ---------------------------------------------------------------------------
// Status
// ---------------------------------------------------------------------------

/// Live status of a spawned subagent.
#[derive(Debug, Clone, Copy, PartialEq, Eq, Structural)]
pub enum SubagentStatus {
    /// Spawned but not yet confirmed running.
    Starting,
    /// Waiting for the next prompt.
    Idle,
    /// Processing a prompt or executing a tool.
    Running,
    /// The last tool execution failed.
    Error,
    /// The child process exited.
    Exited,
}

/// The wire name of a status: its name in lower case.
pub open spec fn wire_name(s: SubagentStatus) -> Seq<char> {
    match s {
        SubagentStatus::Starting => "starting"@,
        SubagentStatus::Idle => "idle"@,
        SubagentStatus::Running => "running"@,
        SubagentStatus::Error => "error"@,
        SubagentStatus::Exited => "exited"@,
    }
}

/// The status a wire name denotes; unknown names denote `Starting`.
pub open spec fn status_of_wire(s: Seq<char>) -> SubagentStatus {
    if s == "idle"@ {
        SubagentStatus::Idle
    } else if s == "running"@ {
        SubagentStatus::Running
    } else if s == "error"@ {
        SubagentStatus::Error
    } else if s == "exited"@ {
        SubagentStatus::Exited
    } else {
        SubagentStatus::Starting
    }
}

impl Default for SubagentStatus {
    fn default() -> (r: Self)
        ensures
            r == SubagentStatus::Starting,
    {
        SubagentStatus::Starting
    }
}

impl SubagentStatus {
    /// The wire-format name of the status.
    pub fn to_wire_str(&self) -> (r: &'static str)
        ensures
            r@ == wire_name(*self),
    {
        match self {
            SubagentStatus::Starting => "starting",
            SubagentStatus::Idle => "idle",
            SubagentStatus::Running => "running",
            SubagentStatus::Error => "error",
            SubagentStatus::Exited => "exited",
        }
    }

    /// The status a wire-format name denotes (`Starting` for unknown names).
    pub fn from_wire_str(s: &str) -> (r: SubagentStatus)
        ensures
            r == status_of_wire(s@),
    {
        let v = owned(s);
        if v == owned("idle") {
            SubagentStatus::Idle
        } else if v == owned("running") {
            SubagentStatus::Running
        } else if v == owned("error") {
            SubagentStatus::Error
        } else if v == owned("exited") {
            SubagentStatus::Exited
        } else {
            SubagentStatus::Starting
        }
    }

    /// The status's name, capitalized (`"Starting"`, `"Idle"`, ...).
    pub fn display_name(&self) -> (r: &'static str)
        ensures
            r@ == match *self {
                SubagentStatus::Starting => "Starting"@,
                SubagentStatus::Idle => "Idle"@,
                SubagentStatus::Running => "Running"@,
                SubagentStatus::Error => "Error"@,
                SubagentStatus::Exited => "Exited"@,
            },
    {
        match self {
            SubagentStatus::Starting => "Starting",
            SubagentStatus::Idle => "Idle",
            SubagentStatus::Running => "Running",
            SubagentStatus::Error => "Error",
            SubagentStatus::Exited => "Exited",
        }
    }
}

/// Reading back the wire name of a status gives the status.
pub proof fn law_wire_round_trip(s: SubagentStatus)
    ensures
        status_of_wire(wire_name(s)) == s,
{
    reveal_strlit("starting");
    reveal_strlit("idle");
    reveal_strlit("running");
    reveal_strlit("error");
    reveal_strlit("exited");
    assert("starting"@.len() == 8);
    assert("idle"@.len() == 4);
    assert("running"@.len() == 7);
    assert("error"@.len() == 5);
    assert("exited"@.len() == 6);
}

// ---------------------------------------------------------------------------
// Agent ids
// ---------------------------------------------------------------------------

/// An ASCII letter or digit, `_` or `-`.
pub open spec fn id_char(c: char) -> bool {
    ('a' <= c && c <= 'z') || ('A' <= c && c <= 'Z') || ('0' <= c && c <= '9') || c == '_' || c
        == '-'
}

/// Why an agent id is malformed: `None` for a well-formed id of 1 to 64
/// bytes of `[a-zA-Z0-9_-]`.
pub open spec fn agent_id_problem(id: Seq<char>) -> Option<Seq<char>> {
    if utf8_size(id) == 0 || utf8_size(id) > 64 {
        Some("agent_id must be 1-64 characters"@)
    } else if forall|i: int| 0 <= i < id.len() ==> id_char(#[trigger] id[i]) {
        None
    } else {
        Some("agent_id must use only [a-zA-Z0-9_-]"@)
    }
}

/// Checks the format of an agent id (see `agent_id_problem`).
pub fn validate_agent_id_format(agent_id: &str) -> (r: Result<(), String>)
    ensures
        match agent_id_problem(agent_id@) {
            None => r is Ok,
            Some(m) => r matches Err(e) && e@ == m,
        },
{
    let cs = chars_of(agent_id);
    let len = crate::text::utf8_size_within(cs.as_slice(), 64);
    match len {
        None => {
            return Err(owned("agent_id must be 1-64 characters"));
        },
        Some(n) => {
            if n == 0 {
                return Err(owned("agent_id must be 1-64 characters"));
            }
        },
    }
    let mut i: usize = 0;
    while i < cs.len()
        invariant
            i <= cs.len(),
            cs@ == agent_id@,
            0 < utf8_size(agent_id@) <= 64,
            forall|j: int| 0 <= j < i ==> id_char(#[trigger] cs@[j]),
        decreases cs.len() - i,
    {
        let c = cs[i];
        if !(('a' <= c && c <= 'z') || ('A' <= c && c <= 'Z') || ('0' <= c && c <= '9') || c == '_'
            || c == '-') {
            assert(!id_char(agent_id@[i as int]));
            return Err(owned("agent_id must use only [a-zA-Z0-9_-]"));
        }
        i = i + 1;
    }
    Ok(())
}

// ---------------------------------------------------------------------------
// Await verdicts
// ---------------------------------------------------------------------------

/// The outcome a parent branches on after awaiting a subagent.
#[derive(Debug, Clone, Copy, PartialEq, Eq, Structural)]
pub enum VerdictStatus {
    Completed,
    Incomplete,
    Failed,
}

/// The workflow state of a subagent when an `await` returns.
#[derive(Debug, Clone, PartialEq, Eq)]
pub struct WorkflowSnapshot {
    pub mode: String,
    pub steps_completed: u32,
    pub steps_total: u32,
}

/// Step progress carried in a verdict.
#[derive(Debug, Clone, Copy, PartialEq, Eq, Structural)]
pub struct ResultProgress {
    pub done: u32,
    pub total: u32,
}

/// The typed verdict of an awaited subagent, with a one-line summary.
#[derive(Debug, Clone, PartialEq, Eq)]
pub struct WorkflowResult {
    pub status: VerdictStatus,
    pub summary: String,
    pub workflow_progress: Option<ResultProgress>,
}

/// `"<done>/<total> steps"`, or `"no workflow"`.
pub open spec fn progress_text(w: Option<WorkflowSnapshot>) -> Seq<char> {
    match w {
        Some(s) => decimal(s.steps_completed as nat) + seq!['/'] + decimal(s.steps_total as nat)
            + " steps"@,
        None => "no workflow"@,
    }
}

/// The verdict and summary of an await that ended with lifecycle `status`
/// and `reason`, given the workflow snapshot and the run's error cause.
///
/// Completion is only ever observed: idle with the workflow in mode
/// `complete`. An error or an unclean exit fails; going idle early, a clean
/// exit before completion, a timeout or any other status is incomplete.
pub open spec fn verdict(
    status: Seq<char>,
    reason: Option<Seq<char>>,
    workflow: Option<WorkflowSnapshot>,
    error: Option<Seq<char>>,
) -> (VerdictStatus, Seq<char>) {
    let complete = workflow matches Some(w) && w.mode@ == "complete"@;
    if status == "idle"@ {
        if complete {
            (VerdictStatus::Completed, "workflow complete ("@ + progress_text(workflow) + ")"@)
        } else {
            (
                VerdictStatus::Incomplete,
                "went idle without completing the workflow ("@ + progress_text(workflow) + ")"@,
            )
        }
    } else if status == "exited"@ {
        if reason is None || reason == Some("exit_code_0"@) {
            (VerdictStatus::Incomplete, "subagent exited before completion was observed"@)
        } else {
            (VerdictStatus::Failed, "subagent exited: "@ + reason->0)
        }
    } else if status == "timeout"@ {
        (VerdictStatus::Incomplete, "await timed out before the subagent completed"@)
    } else if status == "error"@ {
        let base = "await error: "@ + match reason {
            Some(r) => r,
            None => "unknown"@,
        };
        (
            VerdictStatus::Failed,
            match error {
                Some(cause) => base + " \u{2014} "@ + cause,
                None => base,
            },
        )
    } else {
        (VerdictStatus::Incomplete, "subagent status: "@ + status)
    }
}

fn progress_exec(workflow: Option<&WorkflowSnapshot>) -> (r: String)
    ensures
        r@ == progress_text(
            match workflow {
                Some(w) => Some(*w),
                None => None,
            },
        ),
{
    match workflow {
        Some(w) => {
            let mut out = decimal_string(w.steps_completed as u64);
            crate::text::push_char(&mut out, '/');
            let t = decimal_string(w.steps_total as u64);
            push_str(&mut out, t.as_str());
            push_str(&mut out, " steps");
            out
        },
        None => owned("no workflow"),
    }
}

impl WorkflowResult {
    /// Derives the verdict from the await's lifecycle status, reason,
    /// workflow snapshot and run error (see `verdict`).
    pub fn derive(
        status: &str,
        reason: Option<&str>,
        workflow: Option<&WorkflowSnapshot>,
        error: Option<&str>,
    ) -> (r: WorkflowResult)
        ensures
            ({
                let v = verdict(
                    status@,
                    match reason {
                        Some(x) => Some(x@),
                        None => None,
                    },
                    match workflow {
                        Some(w) => Some(*w),
                        None => None,
                    },
                    match error {
                        Some(x) => Some(x@),
                        None => None,
                    },
                );
                &&& r.status == v.0
                &&& r.summary@ == v.1
            }),
            r.workflow_progress == match workflow {
                Some(w) => Some(ResultProgress { done: w.steps_completed, total: w.steps_total }),
                None => None,
            },
    {
        let workflow_progress = match workflow {
            Some(w) => Some(ResultProgress { done: w.steps_completed, total: w.steps_total }),
            None => None,
        };
        let complete = match workflow {
            Some(w) => w.mode == owned("complete"),
            None => false,
        };
        let st = owned(status);
        let (verdict_status, summary) = if st == owned("idle") {
            if complete {
                let mut s = owned("workflow complete (");
                let p = progress_exec(workflow);
                push_str(&mut s, p.as_str());
                push_str(&mut s, ")");
                (VerdictStatus::Completed, s)
            } else {
                let mut s = owned("went idle without completing the workflow (");
                let p = progress_exec(workflow);
                push_str(&mut s, p.as_str());
                push_str(&mut s, ")");
                (VerdictStatus::Incomplete, s)
            }
        } else if st == owned("exited") {
            let clean = match reason {
                None => true,
                Some(r) => owned(r) == owned("exit_code_0"),
            };
            if clean {
                (VerdictStatus::Incomplete, owned("subagent exited before completion was observed"))
            } else {
                let mut s = owned("subagent exited: ");
                match reason {
                    Some(r) => push_str(&mut s, r),
                    None => {},
                }
                (VerdictStatus::Failed, s)
            }
        } else if st == owned("timeout") {
            (VerdictStatus::Incomplete, owned("await timed out before the subagent completed"))
        } else if st == owned("error") {
            let mut s = owned("await error: ");
            match reason {
                Some(r) => push_str(&mut s, r),
                None => push_str(&mut s, "unknown"),
            }
            match error {
                Some(cause) => {
                    push_str(&mut s, " \u{2014} ");
                    push_str(&mut s, cause);
                },
                None => {},
            }
            (VerdictStatus::Failed, s)
        } else {
            let mut s = owned("subagent status: ");
            push_str(&mut s, status);
            (VerdictStatus::Incomplete, s)
        };
        WorkflowResult { status: verdict_status, summary, workflow_progress }
    }
}

/// The result of an `agent_cmd await` call: the lifecycle `status` and
/// `reason`, the workflow snapshot, and the verdict derived from them.
#[derive(Debug, Clone, PartialEq, Eq)]
pub struct AwaitResult {
    pub status: String,
    pub reason: Option<String>,
    pub agent_id: String,
    pub elapsed_ms: u64,
    pub workflow: Option<WorkflowSnapshot>,
    pub result: WorkflowResult,
    /// The run-level error cause, when the await ended because the run failed.
    pub error: Option<String>,
}

/// The longest run error cause an await result keeps, in characters.
pub const MAX_ERROR_CAUSE_CHARS: usize = 2000;

/// A run error cause as kept: its first `MAX_ERROR_CAUSE_CHARS` characters.
pub open spec fn bounded_cause(cause: Seq<char>) -> Seq<char> {
    if cause.len() <= MAX_ERROR_CAUSE_CHARS {
        cause
    } else {
        cause.take(MAX_ERROR_CAUSE_CHARS as int)
    }
}

/// The step progress a verdict carries for a workflow snapshot.
pub open spec fn progress_of(w: Option<WorkflowSnapshot>) -> Option<ResultProgress> {
    match w {
        Some(s) => Some(ResultProgress { done: s.steps_completed, total: s.steps_total }),
        None => None,
    }
}

/// Cuts a run error cause to `MAX_ERROR_CAUSE_CHARS` characters.
pub fn bound_cause(cause: &str) -> (r: String)
    ensures
        r@ == bounded_cause(cause@),
{
    let cs = crate::text::chars_of(cause);
    if cs.len() <= MAX_ERROR_CAUSE_CHARS {
        owned(cause)
    } else {
        let r = crate::text::string_from_chars(&cs.as_slice()[0..MAX_ERROR_CAUSE_CHARS]);
        assert(cs@.subrange(0, MAX_ERROR_CAUSE_CHARS as int) =~= cause@.take(MAX_ERROR_CAUSE_CHARS as int));
        r
    }
}

/// The view of an optional string slice.
pub open spec fn opt_str(o: Option<&str>) -> Option<Seq<char>> {
    match o {
        Some(s) => Some(s@),
        None => None,
    }
}

fn opt_owned(o: Option<&str>) -> (r: Option<String>)
    ensures
        crate::exec::opt_view(r) == opt_str(o),
{
    match o {
        Some(s) => Some(owned(s)),
        None => None,
    }
}

impl AwaitResult {
    /// An await result without a run error.
    pub fn new(
        status: &str,
        reason: Option<&str>,
        agent_id: String,
        elapsed_ms: u64,
        workflow: Option<WorkflowSnapshot>,
    ) -> (r: AwaitResult)
        ensures
            r.status@ == status@,
            crate::exec::opt_view(r.reason) == opt_str(reason),
            r.agent_id@ == agent_id@,
            r.elapsed_ms == elapsed_ms,
            r.workflow == workflow,
            r.error is None,
            ({
                let v = verdict(status@, opt_str(reason), workflow, None);
                r.result.status == v.0 && r.result.summary@ == v.1
            }),
            r.result.workflow_progress == progress_of(workflow),
    {
        AwaitResult::with_error(status, reason, agent_id, elapsed_ms, workflow, None)
    }

    /// An await result carrying the run's error cause, cut to
    /// `MAX_ERROR_CAUSE_CHARS` characters; the kept cause also completes the
    /// verdict summary. Secrets inside the cause are not removed here.
    pub fn with_error(
        status: &str,
        reason: Option<&str>,
        agent_id: String,
        elapsed_ms: u64,
        workflow: Option<WorkflowSnapshot>,
        error: Option<&str>,
    ) -> (r: AwaitResult)
        ensures
            r.status@ == status@,
            crate::exec::opt_view(r.reason) == opt_str(reason),
            r.agent_id@ == agent_id@,
            r.elapsed_ms == elapsed_ms,
            r.workflow == workflow,
            crate::exec::opt_view(r.error) == match error {
                Some(e) => Some(bounded_cause(e@)),
                None => None,
            },
            ({
                let v = verdict(status@, opt_str(reason), workflow, crate::exec::opt_view(r.error));
                r.result.status == v.0 && r.result.summary@ == v.1
            }),
            r.result.workflow_progress == progress_of(workflow),
    {
        let kept: Option<String> = match error {
            Some(e) => Some(bound_cause(e)),
            None => None,
        };
        let result = match &kept {
            Some(k) => WorkflowResult::derive(status, reason, workflow.as_ref(), Some(k.as_str())),
            None => WorkflowResult::derive(status, reason, workflow.as_ref(), None),
        };
        AwaitResult {
            status: owned(status),
            reason: opt_owned(reason),
            agent_id,
            elapsed_ms,
            workflow,
            result,
            error: kept,
        }
    }
}

/// How a child process ended: its exit code, or the signal that killed it.
#[derive(Debug, Clone, Copy, PartialEq, Eq, Structural)]
pub struct ExitSignal {
    pub exit_code: Option<i32>,
    pub signal: Option<i32>,
}

// ---------------------------------------------------------------------------
// Notifications
// ---------------------------------------------------------------------------

/// Summaries in notifications are cut to this many characters.
pub const MAX_SUMMARY_LEN: usize = 200;

/// A notable event of a child agent, reported to its parent.
#[derive(Debug, Clone, PartialEq, Eq)]
pub enum SubagentNotification {
    Completed { agent_id: String, summary: String },
    Errored { agent_id: String, error: String },
    Exited { agent_id: String },
}

/// A notification with its per-agent sequence number.
#[derive(Debug, Clone, PartialEq, Eq)]
pub struct SequencedSubagentNotification {
    pub sequence: u64,
    pub notification: SubagentNotification,
}

/// The agent a notification is about.
pub open spec fn notified_agent(n: SubagentNotification) -> Seq<char> {
    match n {
        SubagentNotification::Completed { agent_id, .. } => agent_id@,
        SubagentNotification::Errored { agent_id, .. } => agent_id@,
        SubagentNotification::Exited { agent_id } => agent_id@,
    }
}

/// The one-line message a parent reads for a notification.
pub open spec fn notification_text(n: SubagentNotification) -> Seq<char> {
    match n {
        SubagentNotification::Completed { agent_id, .. } => "Agent '"@ + agent_id@
            + "' completed and is ready for inspection"@,
        SubagentNotification::Errored { agent_id, error } => "Agent '"@ + agent_id@
            + "' failed: "@ + error@,
        SubagentNotification::Exited { agent_id } => "Agent '"@ + agent_id@
            + "' exited unexpectedly"@,
    }
}

impl SubagentNotification {
    /// The one-line message for the parent (see `notification_text`).
    pub fn to_message(&self) -> (r: String)
        ensures
            r@ == notification_text(*self),
    {
        match self {
            SubagentNotification::Completed { agent_id, .. } => {
                let mut m = owned("Agent '");
                push_str(&mut m, agent_id.as_str());
                push_str(&mut m, "' completed and is ready for inspection");
                m
            },
            SubagentNotification::Errored { agent_id, error } => {
                let mut m = owned("Agent '");
                push_str(&mut m, agent_id.as_str());
                push_str(&mut m, "' failed: ");
                push_str(&mut m, error.as_str());
                m
            },
            SubagentNotification::Exited { agent_id } => {
                let mut m = owned("Agent '");
                push_str(&mut m, agent_id.as_str());
                push_str(&mut m, "' exited unexpectedly");
                m
            },
        }
    }

    /// The agent the notification is about.
    pub fn agent_id(&self) -> (r: &String)
        ensures
            r@ == notified_agent(*self),
    {
        match self {
            SubagentNotification::Completed { agent_id, .. } => agent_id,
            SubagentNotification::Errored { agent_id, .. } => agent_id,
            SubagentNotification::Exited { agent_id } => agent_id,
        }
    }
}

impl SequencedSubagentNotification {
    pub fn new(sequence: u64, notification: SubagentNotification) -> (r: Self)
        ensures
            r.sequence == sequence,
            r.notification == notification,
    {
        SequencedSubagentNotification { sequence, notification }
    }

    /// The key under which repeated deliveries are recognized: the agent
    /// and the sequence number.
    pub fn dedupe_key(&self) -> (r: (String, u64))
        ensures
            r.0@ == notified_agent(self.notification),
            r.1 == self.sequence,
    {
        (self.notification.agent_id().clone(), self.sequence)
    }

    pub fn to_message(&self) -> (r: String)
        ensures
            r@ == notification_text(self.notification),
    {
        self.notification.to_message()
    }
}

/// A summary cut to `MAX_SUMMARY_LEN` characters, with `...` when cut.
pub open spec fn summary_of(s: Seq<char>) -> Seq<char> {
    if s.len() <= MAX_SUMMARY_LEN {
        s
    } else {
        s.take(MAX_SUMMARY_LEN as int) + "..."@
    }
}

/// Cuts a summary to `MAX_SUMMARY_LEN` characters.
pub fn truncate_summary(s: &str) -> (r: String)
    ensures
        r@ == summary_of(s@),
{
    let cs = chars_of(s);
    if cs.len() <= MAX_SUMMARY_LEN {
        owned(s)
    } else {
        let mut out = crate::text::string_from_chars(&cs.as_slice()[0..MAX_SUMMARY_LEN]);
        push_str(&mut out, "...");
        out
    }
}

/// A message of a finished run as far as summaries go: its role and its
/// text content, when it has them.
#[derive(Debug)]
pub struct MessageView {
    pub role: Option<String>,
    pub content: Option<String>,
}

/// The summary of a finished run: the last assistant message with
/// non-empty text content, cut to `MAX_SUMMARY_LEN` characters, or
/// `(no output)`.
pub open spec fn run_summary(messages: Seq<MessageView>) -> Seq<char>
    decreases messages.len(),
{
    if messages.len() == 0 {
        "(no output)"@
    } else {
        let m = messages.last();
        if m.role is Some && m.role->0@ == "assistant"@ && m.content is Some && m.content->0@.len()
            > 0 {
            summary_of(m.content->0@)
        } else {
            run_summary(messages.drop_last())
        }
    }
}

/// The summary of a finished run (see `run_summary`); `None` when the
/// messages were not a list.
pub fn extract_summary(messages: Option<&[MessageView]>) -> (r: String)
    ensures
        r@ == match messages {
            Some(ms) => run_summary(ms@),
            None => "(no output)"@,
        },
{
    let ms = match messages {
        Some(ms) => ms,
        None => {
            return owned("(no output)");
        },
    };
    let mut i = ms.len();
    assert(ms@.take(i as int) =~= ms@);
    while i > 0
        invariant
            i <= ms.len(),
            messages == Some(ms),
            run_summary(ms@) == run_summary(ms@.take(i as int)),
        decreases i,
    {
        let m = &ms[i - 1];
        assert(ms@.take(i as int).last() == ms@[i - 1]);
        assert(ms@.take(i as int).drop_last() =~= ms@.take(i - 1));
        let is_assistant = match &m.role {
            Some(r) => *r == owned("assistant"),
            None => false,
        };
        if is_assistant {
            match &m.content {
                Some(c) => {
                    if !c.as_str().is_empty() {
                        assert(run_summary(ms@.take(i as int)) == summary_of(c@));
                        return truncate_summary(c.as_str());
                    }
                },
                None => {},
            }
        }
        i = i - 1;
    }
    owned("(no output)")
}

// ---------------------------------------------------------------------------
// The registry
// ---------------------------------------------------------------------------

/// A spawned subagent as the registry tracks it.
#[derive(Debug, Clone)]
pub struct SubagentEntry {
    /// The child's UDS socket.
    pub socket_path: String,
    /// The child's process id (0 when no process was started).
    pub pid: u32,
    pub status: SubagentStatus,
    /// The tool the child last started.
    pub last_tool: Option<String>,
    /// The last tool or agent error.
    pub last_error: Option<String>,
    /// A run-level failure (e.g. of the model provider).
    pub run_error: Option<String>,
    /// The last notification sequence number used for this child.
    pub notification_sequence: u64,
    /// The agent that spawned this one.
    pub parent_id: Option<String>,
    /// The child's last reported workflow state.
    pub workflow: Option<WorkflowSnapshot>,
    /// A manual `await` already reported this run's terminal result.
    pub completion_consumed_by_await: bool,
}

impl SubagentEntry {
    /// A new entry in `Starting` status.
    pub fn new(socket_path: String, pid: u32) -> (e: SubagentEntry)
        ensures
            e.socket_path@ == socket_path@,
            e.pid == pid,
            e.status == SubagentStatus::Starting,
            e.last_tool is None,
            e.last_error is None,
            e.run_error is None,
            e.notification_sequence == 0,
            e.parent_id is None,
            e.workflow is None,
            !e.completion_consumed_by_await,
    {
        SubagentEntry {
            socket_path,
            pid,
            status: SubagentStatus::Starting,
            last_tool: None,
            last_error: None,
            run_error: None,
            notification_sequence: 0,
            parent_id: None,
            workflow: None,
            completion_consumed_by_await: false,
        }
    }
}

/// The registry of spawned subagents, by agent id.
#[derive(Debug)]
pub struct SubagentRegistry {
    entries: Vec<(String, SubagentEntry)>,
}

/// The agent ids of a list of entries.
pub open spec fn ids_of(v: Seq<(String, SubagentEntry)>) -> Seq<Seq<char>> {
    v.map_values(|p: (String, SubagentEntry)| p.0@)
}

/// No agent id occurs twice.
pub open spec fn unique_ids(v: Seq<(String, SubagentEntry)>) -> bool {
    forall|i: int, j: int| 0 <= i < j < v.len() ==> v[i].0@ != v[j].0@
}

/// The map of a list of entries.
pub open spec fn map_of(v: Seq<(String, SubagentEntry)>) -> Map<Seq<char>, SubagentEntry>
    decreases v.len(),
{
    if v.len() == 0 {
        Map::empty()
    } else {
        map_of(v.drop_last()).insert(v.last().0@, v.last().1)
    }
}

proof fn lemma_map_of(v: Seq<(String, SubagentEntry)>)
    requires
        unique_ids(v),
    ensures
        forall|k: Seq<char>| #[trigger] map_of(v).contains_key(k) <==> exists|i: int|
            0 <= i < v.len() && v[i].0@ == k,
        forall|i: int| 0 <= i < v.len() ==> #[trigger] map_of(v)[v[i].0@] == v[i].1,
    decreases v.len(),
{
    if v.len() > 0 {
        let w = v.drop_last();
        assert(unique_ids(w));
        lemma_map_of(w);
        assert forall|k: Seq<char>| #[trigger] map_of(v).contains_key(k) <==> exists|i: int|
            0 <= i < v.len() && v[i].0@ == k by {
            if map_of(v).contains_key(k) && k != v.last().0@ {
                assert(map_of(w).contains_key(k));
                let i = choose|i: int| 0 <= i < w.len() && w[i].0@ == k;
                assert(v[i].0@ == k);
            }
            if exists|i: int| 0 <= i < v.len() && v[i].0@ == k {
                let i = choose|i: int| 0 <= i < v.len() && v[i].0@ == k;
                if i < w.len() {
                    assert(w[i].0@ == k);
                    assert(map_of(w).contains_key(k));
                }
            }
            if map_of(v).contains_key(k) && k == v.last().0@ {
                assert(v[v.len() - 1].0@ == k);
            }
        }
        assert forall|i: int| 0 <= i < v.len() implies #[trigger] map_of(v)[v[i].0@] == v[i].1 by {
            if i < w.len() {
                assert(w[i].0@ == v[i].0@);
                assert(v[i].0@ != v.last().0@);
                assert(map_of(w)[w[i].0@] == w[i].1);
            } else {
                assert(v[i] == v.last());
            }
        }
    }
}

impl SubagentRegistry {
    #[verifier::type_invariant]
    spec fn well_formed(self) -> bool {
        unique_ids(self.entries@)
    }

    /// The registry's contents: each agent id with its entry.
    pub closed spec fn view(&self) -> Map<Seq<char>, SubagentEntry> {
        map_of(self.entries@)
    }

    /// An empty registry.
    pub fn new() -> (r: SubagentRegistry)
        ensures
            r.view() == Map::<Seq<char>, SubagentEntry>::empty(),
    {
        SubagentRegistry { entries: Vec::new() }
    }

    fn find(&self, agent_id: &str) -> (r: Option<usize>)
        ensures
            match r {
                Some(i) => i < self.entries@.len() && self.entries@[i as int].0@ == agent_id@,
                None => !self.view().contains_key(agent_id@),
            },
    {
        proof {
            use_type_invariant(self);
            lemma_map_of(self.entries@);
        }
        let target = owned(agent_id);
        let mut i: usize = 0;
        while i < self.entries.len()
            invariant
                i <= self.entries@.len(),
                target@ == agent_id@,
                forall|j: int| 0 <= j < i ==> self.entries@[j].0@ != agent_id@,
            decreases self.entries.len() - i,
        {
            if self.entries[i].0 == target {
                return Some(i);
            }
            i = i + 1;
        }
        None
    }

    /// Whether `agent_id` is registered.
    pub fn contains_key(&self, agent_id: &str) -> (r: bool)
        ensures
            r == self.view().contains_key(agent_id@),
    {
        proof {
            use_type_invariant(self);
            lemma_map_of(self.entries@);
        }
        self.find(agent_id).is_some()
    }

    /// The entry of `agent_id`.
    pub fn get(&self, agent_id: &str) -> (r: Option<&SubagentEntry>)
        ensures
            match r {
                Some(e) => self.view().contains_key(agent_id@) && self.view()[agent_id@] == *e,
                None => !self.view().contains_key(agent_id@),
            },
    {
        proof {
            use_type_invariant(self);
            lemma_map_of(self.entries@);
        }
        match self.find(agent_id) {
            Some(i) => Some(&self.entries[i].1),
            None => None,
        }
    }

    /// Registers `entry` under `agent_id`, replacing any previous entry.
    pub fn insert(&mut self, agent_id: String, entry: SubagentEntry)
        ensures
            final(self).view() == old(self).view().insert(agent_id@, entry),
    {
        proof {
            use_type_invariant(&*self);
            lemma_map_of(self.entries@);
        }
        let ghost v0 = self.entries@;
        match self.find(agent_id.as_str()) {
            Some(i) => {
                let mut entries: Vec<(String, SubagentEntry)> = Vec::new();
                std::mem::swap(&mut entries, &mut self.entries);
                entries.set(i, (agent_id, entry));
                proof {
                    let v1 = entries@;
                    assert(unique_ids(v1));
                    lemma_map_of(v1);
                    assert(map_of(v1) =~= map_of(v0).insert(v1[i as int].0@, entry)) by {
                        assert forall|k: Seq<char>| #[trigger] map_of(v1).contains_key(k) <==> map_of(
                            v0,
                        ).insert(v1[i as int].0@, entry).contains_key(k) by {
                            if map_of(v1).contains_key(k) {
                                let j = choose|j: int| 0 <= j < v1.len() && v1[j].0@ == k;
                                if j != i {
                                    assert(v0[j].0@ == k);
                                }
                            }
                            if map_of(v0).contains_key(k) {
                                let j = choose|j: int| 0 <= j < v0.len() && v0[j].0@ == k;
                                if j != i {
                                    assert(v1[j].0@ == k);
                                } else {
                                    assert(v1[i as int].0@ == k);
                                }
                            }
                        }
                        assert forall|k: Seq<char>| #[trigger] map_of(v1).contains_key(k) implies map_of(
                            v1,
                        )[k] == map_of(v0).insert(v1[i as int].0@, entry)[k] by {
                            let j = choose|j: int| 0 <= j < v1.len() && v1[j].0@ == k;
                            assert(map_of(v1)[v1[j].0@] == v1[j].1);
                            if j != i {
                                assert(v0[j] == v1[j]);
                                assert(map_of(v0)[v0[j].0@] == v0[j].1);
                            }
                        }
                    }
                }
                self.entries = entries;
            },
            None => {
                let mut entries: Vec<(String, SubagentEntry)> = Vec::new();
                std::mem::swap(&mut entries, &mut self.entries);
                entries.push((agent_id, entry));
                proof {
                    let v1 = entries@;
                    assert(v1.drop_last() =~= v0);
                    assert forall|a: int, b: int| 0 <= a < b < v1.len() implies v1[a].0@ != v1[b].0@ by {
                        if b == v1.len() - 1 {
                            assert(map_of(v0).contains_key(v0[a].0@));
                        }
                    }
                }
                self.entries = entries;
            },
        }
    }
}

/// `pids` are the process ids of the registered agents that run as
/// processes: each is a non-zero pid of some entry, and each entry with a
/// non-zero pid has its pid listed.
pub open spec fn pids_of_running(m: Map<Seq<char>, SubagentEntry>, pids: Seq<u32>) -> bool {
    &&& forall|i: int|
        0 <= i < pids.len() ==> pids[i] != 0 && exists|k: Seq<char>|
            #![trigger m[k]]
            m.contains_key(k) && m[k].pid == pids[i]
    &&& forall|k: Seq<char>|
        #![trigger m[k]]
        m.contains_key(k) && m[k].pid != 0 ==> pids.contains(m[k].pid)
}

impl SubagentRegistry {
    /// Whether no agent is registered.
    pub fn is_empty(&self) -> (r: bool)
        ensures
            r == (self.view() == Map::<Seq<char>, SubagentEntry>::empty()),
    {
        proof {
            use_type_invariant(self);
            lemma_map_of(self.entries@);
        }
        if self.entries.len() == 0 {
            assert(self.view() =~= Map::<Seq<char>, SubagentEntry>::empty());
            true
        } else {
            assert(self.view().contains_key(self.entries@[0].0@));
            false
        }
    }

    /// Empties the registry and hands back the process ids of the agents
    /// that run as processes (those whose pid is not 0).
    pub fn take_pids(&mut self) -> (r: Vec<u32>)
        ensures
            final(self).view() == Map::<Seq<char>, SubagentEntry>::empty(),
            pids_of_running(old(self).view(), r@),
    {
        proof {
            use_type_invariant(&*self);
            lemma_map_of(self.entries@);
        }
        let ghost m = self.view();
        let mut entries: Vec<(String, SubagentEntry)> = Vec::new();
        std::mem::swap(&mut entries, &mut self.entries);
        assert(map_of(self.entries@) =~= Map::<Seq<char>, SubagentEntry>::empty());
        let ghost v = entries@;
        let mut r: Vec<u32> = Vec::new();
        let mut i: usize = 0;
        while i < entries.len()
            invariant
                i <= entries@.len(),
                entries@ == v,
                forall|j: int| 0 <= j < v.len() ==> #[trigger] m[v[j].0@] == v[j].1,
                forall|j: int| 0 <= j < v.len() ==> #[trigger] m.contains_key(v[j].0@),
                forall|j: int|
                    0 <= j < r@.len() ==> r@[j] != 0 && exists|k: Seq<char>|
                        #![trigger m[k]]
                        m.contains_key(k) && m[k].pid == r@[j],
                forall|j: int| 0 <= j < i && v[j].1.pid != 0 ==> r@.contains(#[trigger] v[j].1.pid),
            decreases entries.len() - i,
        {
            let pid = entries[i].1.pid;
            if pid != 0 {
                let ghost r0 = r@;
                r.push(pid);
                proof {
                    assert(m[v[i as int].0@] == v[i as int].1);
                    assert(r@[r@.len() - 1] == pid);
                    assert forall|j: int| 0 <= j < i && v[j].1.pid != 0 implies r@.contains(
                        #[trigger] v[j].1.pid,
                    ) by {
                        let w = choose|w: int| 0 <= w < r0.len() && r0[w] == v[j].1.pid;
                        assert(r@[w] == r0[w]);
                    }
                }
            }
            proof {
                if pid != 0 {
                    assert(r@[r@.len() - 1] == v[i as int].1.pid);
                }
            }
            i = i + 1;
        }
        proof {
            assert forall|k: Seq<char>|
                #![trigger m[k]]
                m.contains_key(k) && m[k].pid != 0 implies r@.contains(m[k].pid) by {
                let j = choose|j: int| 0 <= j < v.len() && v[j].0@ == k;
                assert(m[v[j].0@] == v[j].1);
            }
            assert(pids_of_running(m, r@));
        }
        r
    }
}

/// `e` with its await-consumed flag set to `b`.
pub open spec fn with_consumed(e: SubagentEntry, b: bool) -> SubagentEntry {
    SubagentEntry { completion_consumed_by_await: b, ..e }
}

fn copy_opt(o: &Option<String>) -> (r: Option<String>)
    ensures
        r == *o,
{
    match o {
        Some(s) => Some(s.clone()),
        None => None,
    }
}

fn copy_snapshot(w: &Option<WorkflowSnapshot>) -> (r: Option<WorkflowSnapshot>)
    ensures
        r == *w,
{
    match w {
        Some(s) => Some(
            WorkflowSnapshot {
                mode: s.mode.clone(),
                steps_completed: s.steps_completed,
                steps_total: s.steps_total,
            },
        ),
        None => None,
    }
}

/// A field-by-field copy of an entry.
pub fn copy_entry(e: &SubagentEntry) -> (r: SubagentEntry)
    ensures
        r == *e,
{
    SubagentEntry {
        socket_path: e.socket_path.clone(),
        pid: e.pid,
        status: e.status,
        last_tool: copy_opt(&e.last_tool),
        last_error: copy_opt(&e.last_error),
        run_error: copy_opt(&e.run_error),
        notification_sequence: e.notification_sequence,
        parent_id: copy_opt(&e.parent_id),
        workflow: copy_snapshot(&e.workflow),
        completion_consumed_by_await: e.completion_consumed_by_await,
    }
}

/// The registry after a manual `await` reported `agent_id`'s terminal result.
pub open spec fn marked(m: Map<Seq<char>, SubagentEntry>, agent_id: Seq<char>) -> Map<
    Seq<char>,
    SubagentEntry,
> {
    if m.contains_key(agent_id) {
        m.insert(agent_id, with_consumed(m[agent_id], true))
    } else {
        m
    }
}

/// Whether the passive completion note of `agent_id` is to be suppressed,
/// and the registry afterwards (the flag cleared when it was set).
pub open spec fn taken(m: Map<Seq<char>, SubagentEntry>, agent_id: Seq<char>) -> (
    bool,
    Map<Seq<char>, SubagentEntry>,
) {
    if m.contains_key(agent_id) && m[agent_id].completion_consumed_by_await {
        (true, m.insert(agent_id, with_consumed(m[agent_id], false)))
    } else {
        (false, m)
    }
}

/// `agent_id`, or an agent below it: following parent links up from `k`
/// through registered agents reaches `root` within `fuel` steps.
pub open spec fn descends_within(
    m: Map<Seq<char>, SubagentEntry>,
    root: Seq<char>,
    k: Seq<char>,
    fuel: nat,
) -> bool
    decreases fuel,
{
    m.contains_key(k) && (k == root || (fuel > 0 && m[k].parent_id is Some && descends_within(
        m,
        root,
        m[k].parent_id->0@,
        (fuel - 1) as nat,
    )))
}

/// `k` is `root` or a registered transitive descendant of it.
pub open spec fn in_subtree(m: Map<Seq<char>, SubagentEntry>, root: Seq<char>, k: Seq<char>) -> bool {
    exists|f: nat| descends_within(m, root, k, f)
}

/// Membership in a list of ids.
pub open spec fn listed(ids: Seq<String>, k: Seq<char>) -> bool {
    exists|i: int| 0 <= i < ids.len() && ids[i]@ == k
}

pub fn is_listed(ids: &[String], k: &str) -> (r: bool)
    ensures
        r == listed(ids@, k@),
{
    let target = owned(k);
    let mut i: usize = 0;
    while i < ids.len()
        invariant
            i <= ids.len(),
            target@ == k@,
            forall|j: int| 0 <= j < i ==> ids@[j]@ != k@,
        decreases ids.len() - i,
    {
        if ids[i] == target {
            return true;
        }
        i = i + 1;
    }
    false
}

/// A set of ids that holds `root` and every registered agent whose parent
/// it holds holds every member of `root`'s subtree.
proof fn lemma_closed_holds_subtree(
    m: Map<Seq<char>, SubagentEntry>,
    root: Seq<char>,
    ids: Seq<String>,
    k: Seq<char>,
    f: nat,
)
    requires
        listed(ids, root),
        forall|x: Seq<char>|
            #![trigger m.contains_key(x)]
            m.contains_key(x) && m[x].parent_id is Some && listed(ids, m[x].parent_id->0@)
                ==> listed(ids, x),
        descends_within(m, root, k, f),
    ensures
        listed(ids, k),
    decreases f,
{
    if k != root {
        lemma_closed_holds_subtree(m, root, ids, m[k].parent_id->0@, (f - 1) as nat);
    }
}

proof fn lemma_descends_more_fuel(
    m: Map<Seq<char>, SubagentEntry>,
    root: Seq<char>,
    k: Seq<char>,
    f: nat,
    g: nat,
)
    requires
        descends_within(m, root, k, f),
        f <= g,
    ensures
        descends_within(m, root, k, g),
    decreases f,
{
    if k != root {
        lemma_descends_more_fuel(m, root, m[k].parent_id->0@, (f - 1) as nat, (g - 1) as nat);
    }
}

impl SubagentRegistry {
    /// Records that a manual `await` reported `agent_id`'s terminal result
    /// (nothing when it is not registered).
    pub fn mark_completion_consumed_by_await(&mut self, agent_id: &str)
        ensures
            final(self).view() == marked(old(self).view(), agent_id@),
    {
        let copied = match self.get(agent_id) {
            Some(e) => Some(copy_entry(e)),
            None => None,
        };
        match copied {
            Some(mut e) => {
                e.completion_consumed_by_await = true;
                self.insert(owned(agent_id), e);
            },
            None => {},
        }
    }

    /// Check-and-consume: whether the passive completion note of
    /// `agent_id` is to be suppressed because a manual `await` already
    /// reported it; the flag is cleared when so.
    pub fn take_completion_consumed_by_await(&mut self, agent_id: &str) -> (r: bool)
        ensures
            (r, final(self).view()) == taken(old(self).view(), agent_id@),
    {
        let copied = match self.get(agent_id) {
            Some(e) => if e.completion_consumed_by_await {
                Some(copy_entry(e))
            } else {
                None
            },
            None => None,
        };
        match copied {
            Some(mut e) => {
                e.completion_consumed_by_await = false;
                self.insert(owned(agent_id), e);
                true
            },
            None => false,
        }
    }

    /// The socket of `agent_id`, or why there is none.
    pub fn lookup_subagent_socket(&self, agent_id: &str) -> (r: Result<String, String>)
        ensures
            self.view().contains_key(agent_id@) ==> (r matches Ok(p) && p@
                == self.view()[agent_id@].socket_path@),
            !self.view().contains_key(agent_id@) ==> (r matches Err(m) && m@ == "subagent '"@
                + agent_id@ + "' not found in registry"@),
    {
        match self.get(agent_id) {
            Some(e) => Ok(e.socket_path.clone()),
            None => {
                let mut m = owned("subagent '");
                push_str(&mut m, agent_id);
                push_str(&mut m, "' not found in registry");
                Err(m)
            },
        }
    }

    /// The ids of `agent_id`'s subtree, as found by growing the set from
    /// `agent_id` until no registered agent's parent is in it and it is
    /// not.
    fn subtree_ids(&self, agent_id: &str) -> (r: Vec<String>)
        requires
            self.view().contains_key(agent_id@),
        ensures
            forall|k: Seq<char>| listed(r@, k) <==> in_subtree(self.view(), agent_id@, k),
            forall|i: int, j: int| 0 <= i < j < r@.len() ==> r@[i]@ != r@[j]@,
            r@.len() > 0 && r@[0]@ == agent_id@,
    {
        proof {
            use_type_invariant(self);
            lemma_map_of(self.entries@);
        }
        let ghost m = self.view();
        let mut set: Vec<String> = Vec::new();
        set.push(owned(agent_id));
        assert(descends_within(m, agent_id@, agent_id@, 0));
        assert(listed(set@, agent_id@)) by {
            assert(set@[0]@ == agent_id@);
        }
        loop
            invariant
                m == self.view(),
                m == map_of(self.entries@),
                unique_ids(self.entries@),
                m.contains_key(agent_id@),
                listed(set@, agent_id@),
                set@.len() > 0 && set@[0]@ == agent_id@,
                forall|k: Seq<char>| listed(set@, k) ==> in_subtree(m, agent_id@, k),
                forall|i: int, j: int| 0 <= i < j < set@.len() ==> set@[i]@ != set@[j]@,
                set@.len() <= self.entries@.len(),
            decreases self.entries@.len() - set@.len(),
        {
            let mut changed = false;
            let mut i: usize = 0;
            let ghost start_len = set@.len();
            while i < self.entries.len()
                invariant
                    m == self.view(),
                    m == map_of(self.entries@),
                    unique_ids(self.entries@),
                    i <= self.entries@.len(),
                    listed(set@, agent_id@),
                    set@.len() > 0 && set@[0]@ == agent_id@,
                    forall|k: Seq<char>| listed(set@, k) ==> in_subtree(m, agent_id@, k),
                    forall|a: int, b: int| 0 <= a < b < set@.len() ==> set@[a]@ != set@[b]@,
                    set@.len() >= start_len,
                    !changed ==> set@.len() == start_len,
                    changed ==> set@.len() > start_len,
                    !changed ==> forall|j: int|
                        0 <= j < i ==> !(#[trigger] self.entries@[j].1.parent_id is Some
                            && listed(set@, self.entries@[j].1.parent_id->0@) && !listed(
                            set@,
                            self.entries@[j].0@,
                        )),
                    forall|k: Seq<char>| listed(set@, k) ==> m.contains_key(k),
                decreases self.entries.len() - i,
            {
                let (id, e) = (&self.entries[i].0, &self.entries[i].1);
                let add = match &e.parent_id {
                    Some(p) => is_listed(set.as_slice(), p.as_str()) && !is_listed(
                        set.as_slice(),
                        id.as_str(),
                    ),
                    None => false,
                };
                if add {
                    proof {
                        lemma_map_of(self.entries@);
                        assert(self.entries@[i as int].0@ == id@);
                        assert(m[self.entries@[i as int].0@] == self.entries@[i as int].1);
                        assert(m[id@] == *e);
                        let p = e.parent_id->0@;
                        assert(in_subtree(m, agent_id@, p));
                        let f = choose|f: nat| descends_within(m, agent_id@, p, f);
                        assert(descends_within(m, agent_id@, id@, f + 1));
                    }
                    let ghost before = set@;
                    set.push(id.clone());
                    proof {
                        assert forall|k: Seq<char>| listed(set@, k) implies in_subtree(
                            m,
                            agent_id@,
                            k,
                        ) by {
                            let x = choose|x: int| 0 <= x < set@.len() && set@[x]@ == k;
                            if x < before.len() {
                                assert(listed(before, k));
                            }
                        }
                        assert forall|a: int, b: int| 0 <= a < b < set@.len() implies set@[a]@
                            != set@[b]@ by {
                            if b == set@.len() - 1 {
                                if set@[a]@ == set@[b]@ {
                                    assert(listed(before, id@));
                                }
                            }
                        }
                        assert(listed(set@, agent_id@)) by {
                            let x = choose|x: int| 0 <= x < before.len() && before[x]@ == agent_id@;
                            assert(set@[x]@ == agent_id@);
                        }
                        assert forall|k: Seq<char>| listed(set@, k) implies m.contains_key(k) by {
                            let x = choose|x: int| 0 <= x < set@.len() && set@[x]@ == k;
                            if x < before.len() {
                                assert(listed(before, k));
                            }
                        }
                    }
                    changed = true;
                }
                i = i + 1;
            }
            proof {
                lemma_set_bounded(set@, self.entries@, m);
            }
            if !changed {
                proof {
                    lemma_map_of(self.entries@);
                    assert forall|x: Seq<char>|
                        #![trigger m.contains_key(x)]
                        m.contains_key(x) && m[x].parent_id is Some && listed(
                            set@,
                            m[x].parent_id->0@,
                        ) implies listed(set@, x) by {
                        let j = choose|j: int| 0 <= j < self.entries@.len() && self.entries@[j].0@ == x;
                        assert(m[self.entries@[j].0@] == self.entries@[j].1);
                        assert(self.entries@[j].1.parent_id is Some);
                    }
                    assert forall|k: Seq<char>| in_subtree(m, agent_id@, k) implies listed(set@, k) by {
                        let f = choose|f: nat| descends_within(m, agent_id@, k, f);
                        lemma_closed_holds_subtree(m, agent_id@, set@, k, f);
                    }
                }
                return set;
            }
        }
    }

    /// Removes `agent_id` and every registered transitive descendant of it
    /// (by parent links), and returns the removed ids, `agent_id` first; nothing when
    /// `agent_id` is not registered. Other agents stay as they were.
    pub fn cascade_remove(&mut self, agent_id: &str) -> (removed: Vec<String>)
        ensures
            !old(self).view().contains_key(agent_id@) ==> removed@.len() == 0 && final(self).view()
                == old(self).view(),
            old(self).view().contains_key(agent_id@) ==> {
                &&& forall|k: Seq<char>| listed(removed@, k) <==> in_subtree(old(self).view(), agent_id@, k)
                &&& forall|i: int, j: int| 0 <= i < j < removed@.len() ==> removed@[i]@ != removed@[j]@
                &&& removed@.len() > 0 && removed@[0]@ == agent_id@
                &&& forall|k: Seq<char>| #[trigger] final(self).view().contains_key(k) <==> (old(self).view().contains_key(k) && !in_subtree(old(self).view(), agent_id@, k))
                &&& forall|k: Seq<char>| #[trigger] final(self).view().contains_key(k) ==> final(self).view()[k] == old(self).view()[k]
            },
    {
        if !self.contains_key(agent_id) {
            return Vec::new();
        }
        let ids = self.subtree_ids(agent_id);
        proof {
            use_type_invariant(&*self);
            lemma_map_of(self.entries@);
        }
        let ghost m = self.view();
        let ghost v0 = self.entries@;
        let mut old_entries: Vec<(String, SubagentEntry)> = Vec::new();
        std::mem::swap(&mut old_entries, &mut self.entries);
        let mut kept: Vec<(String, SubagentEntry)> = Vec::new();
        let mut i: usize = 0;
        let n = old_entries.len();
        assert(v0.take(0) =~= Seq::<(String, SubagentEntry)>::empty());
        while i < n
            invariant
                n == old_entries@.len(),
                old_entries@ == v0,
                i <= n,
                kept@ == kept_filter(v0.take(i as int), ids@),
            decreases n - i,
        {
            assert(v0.take(i as int + 1).drop_last() =~= v0.take(i as int));
            let is_removed = is_listed(ids.as_slice(), old_entries[i].0.as_str());
            if !is_removed {
                let pair = (old_entries[i].0.clone(), copy_entry(&old_entries[i].1));
                kept.push(pair);
            }
            i = i + 1;
        }
        proof {
            assert(v0.take(n as int) =~= v0);
            lemma_kept_filter(v0, ids@);
        }
        self.entries = kept;
        ids
    }
}

/// The entries of `v` whose ids are not listed in `ids`, in order.
pub open spec fn kept_filter(v: Seq<(String, SubagentEntry)>, ids: Seq<String>) -> Seq<
    (String, SubagentEntry),
>
    decreases v.len(),
{
    if v.len() == 0 {
        Seq::empty()
    } else {
        let rest = kept_filter(v.drop_last(), ids);
        if listed(ids, v.last().0@) {
            rest
        } else {
            rest.push(v.last())
        }
    }
}

proof fn lemma_kept_filter(v: Seq<(String, SubagentEntry)>, ids: Seq<String>)
    requires
        unique_ids(v),
    ensures
        unique_ids(kept_filter(v, ids)),
        forall|k: Seq<char>| #[trigger] map_of(kept_filter(v, ids)).contains_key(k) <==> (map_of(
            v,
        ).contains_key(k) && !listed(ids, k)),
        forall|k: Seq<char>| #[trigger] map_of(kept_filter(v, ids)).contains_key(k) ==> map_of(
            kept_filter(v, ids),
        )[k] == map_of(v)[k],
    decreases v.len(),
{
    if v.len() > 0 {
        let w = v.drop_last();
        assert(unique_ids(w));
        lemma_kept_filter(w, ids);
        lemma_map_of(w);
        let kw = kept_filter(w, ids);
        let lk = v.last().0@;
        let kf = kept_filter(v, ids);
        assert(map_of(v) == map_of(w).insert(lk, v.last().1));
        if listed(ids, lk) {
            assert(kf == kw);
        } else {
            assert(kf.drop_last() =~= kw);
            assert(map_of(kf) == map_of(kw).insert(lk, v.last().1));
        }
        assert forall|k: Seq<char>| #[trigger] map_of(kf).contains_key(k) <==> (map_of(
            v,
        ).contains_key(k) && !listed(ids, k)) by {
            assert(map_of(kw).contains_key(k) == (map_of(w).contains_key(k) && !listed(ids, k)));
        }
        assert forall|k: Seq<char>| #[trigger] map_of(kf).contains_key(k) implies map_of(kf)[k]
            == map_of(v)[k] by {
            if k != lk {
                assert(map_of(kw).contains_key(k) == (map_of(w).contains_key(k) && !listed(ids, k)));
                if map_of(kw).contains_key(k) {
                    assert(map_of(kw)[k] == map_of(w)[k]);
                }
            }
        }
        if !listed(ids, v.last().0@) {
            let kv = kw.push(v.last());
            assert(kv.drop_last() =~= kw);
            assert forall|a: int, b: int| 0 <= a < b < kv.len() implies kv[a].0@ != kv[b].0@ by {
                if b == kv.len() - 1 {
                    assert(map_of(kw).contains_key(kv[a].0@)) by {
                        lemma_map_of(kw);
                        assert(kw[a].0@ == kv[a].0@);
                    }
                    if kv[a].0@ == v.last().0@ {
                        assert(map_of(w).contains_key(v.last().0@));
                        let j = choose|j: int| 0 <= j < w.len() && w[j].0@ == v.last().0@;
                        assert(v[j].0@ == v[v.len() - 1].0@);
                    }
                }
            }
        }
    }
}

proof fn lemma_set_bounded(set: Seq<String>, v: Seq<(String, SubagentEntry)>, m: Map<Seq<char>, SubagentEntry>)
    requires
        m == map_of(v),
        unique_ids(v),
        forall|a: int, b: int| 0 <= a < b < set.len() ==> set[a]@ != set[b]@,
        forall|k: Seq<char>| listed(set, k) ==> m.contains_key(k),
    ensures
        set.len() <= v.len(),
{
    lemma_map_of(v);
    let sm = set.map_values(|s: String| s@);
    let sv = sm.to_set();
    let kv = ids_of(v).to_set();
    assert(sv.subset_of(kv)) by {
        assert forall|k: Seq<char>| sv.contains(k) implies kv.contains(k) by {
            assert(sm.contains(k));
            let a = choose|a: int| 0 <= a < sm.len() && #[trigger] sm[a] == k;
            assert(listed(set, k)) by {
                assert(set[a]@ == k);
            }
            let b = choose|b: int| 0 <= b < v.len() && v[b].0@ == k;
            assert(ids_of(v)[b] == k);
            assert(ids_of(v).contains(k));
        }
    }
    assert(sm.no_duplicates()) by {
        assert forall|a: int, b: int| 0 <= a < sm.len() && 0 <= b < sm.len() && a != b implies sm[a]
            != sm[b] by {
            if a < b {
                assert(set[a]@ != set[b]@);
            } else {
                assert(set[b]@ != set[a]@);
            }
        }
    }
    sm.unique_seq_to_set();
    ids_of(v).lemma_cardinality_of_set();
    vstd::seq_lib::seq_to_set_is_finite(ids_of(v));
    vstd::set_lib::lemma_len_subset(sv, kv);
}

/// A new empty registry.
pub fn new_registry() -> (r: SubagentRegistry)
    ensures
        r.view() == Map::<Seq<char>, SubagentEntry>::empty(),
{
    SubagentRegistry::new()
}

/// Check-and-consume the await flag of `agent_id` in a registry that may
/// be absent: `false` without a registry (see `taken`).
pub fn consume_await_dedupe(registry: &mut Option<SubagentRegistry>, agent_id: &str) -> (r: bool)
    ensures
        match *old(registry) {
            None => !r && (*final(registry)) is None,
            Some(reg) => (*final(registry)) is Some && (r, (*final(registry))->0.view()) == taken(
                reg.view(),
                agent_id@,
            ),
        },
{
    match registry.take() {
        None => false,
        Some(mut reg) => {
            let r = reg.take_completion_consumed_by_await(agent_id);
            *registry = Some(reg);
            r
        },
    }
}

/// After a manual `await` reported an agent's result, the passive note is
/// suppressed exactly once: the first check-and-consume says so and clears
/// the flag, the next one does not suppress.
pub proof fn law_await_consumes_note_once(m: Map<Seq<char>, SubagentEntry>, agent_id: Seq<char>)
    requires
        m.contains_key(agent_id),
    ensures
        taken(marked(m, agent_id), agent_id).0,
        !taken(taken(marked(m, agent_id), agent_id).1, agent_id).0,
        taken(taken(marked(m, agent_id), agent_id).1, agent_id).1 == taken(
            marked(m, agent_id),
            agent_id,
        ).1,
{
}

/// The agent ids with an `await` in progress; at most one `await` per agent.
#[derive(Debug)]
pub struct ActiveAwaits {
    ids: Vec<String>,
}

impl ActiveAwaits {
    /// The agents being awaited.
    pub closed spec fn view(&self) -> Set<Seq<char>> {
        Set::new(|k: Seq<char>| listed(self.ids@, k))
    }

    /// Starts an `await` of `agent_id`: `false` (and nothing changes) when
    /// one is already in progress.
    pub fn try_begin(&mut self, agent_id: &str) -> (r: bool)
        ensures
            r == !old(self).view().contains(agent_id@),
            final(self).view() == old(self).view().insert(agent_id@),
    {
        let ghost before = self.ids@;
        if is_listed(self.ids.as_slice(), agent_id) {
            proof {
                assert(self.view().insert(agent_id@) =~= self.view());
            }
            return false;
        }
        self.ids.push(owned(agent_id));
        proof {
            let after = self.ids@;
            assert forall|k: Seq<char>| listed(after, k) <==> (listed(before, k) || k == agent_id@) by {
                if listed(before, k) {
                    let i = choose|i: int| 0 <= i < before.len() && before[i]@ == k;
                    assert(after[i]@ == k);
                }
                if k == agent_id@ {
                    assert(after[after.len() - 1]@ == k);
                }
                if listed(after, k) {
                    let i = choose|i: int| 0 <= i < after.len() && after[i]@ == k;
                    if i < before.len() {
                        assert(before[i]@ == k);
                    }
                }
            }
            assert(Set::new(|k: Seq<char>| listed(after, k)) =~= Set::new(
                |k: Seq<char>| listed(before, k),
            ).insert(agent_id@));
        }
        true
    }

    /// Ends the `await` of `agent_id`.
    pub fn end(&mut self, agent_id: &str)
        ensures
            final(self).view() == old(self).view().remove(agent_id@),
    {
        let ghost before = self.ids@;
        let mut kept: Vec<String> = Vec::new();
        let target = owned(agent_id);
        let mut i: usize = 0;
        while i < self.ids.len()
            invariant
                i <= self.ids@.len(),
                before == self.ids@,
                target@ == agent_id@,
                forall|k: Seq<char>| listed(kept@, k) <==> (listed(before.take(i as int), k) && k
                    != agent_id@),
            decreases self.ids.len() - i,
        {
            let ghost kb = kept@;
            let ghost pre = before.take(i as int);
            let ghost post = before.take(i as int + 1);
            if self.ids[i] != target {
                kept.push(self.ids[i].clone());
            }
            proof {
                assert forall|k: Seq<char>| listed(kept@, k) <==> (listed(post, k) && k != agent_id@) by {
                    if listed(post, k) {
                        let j = choose|j: int| 0 <= j < post.len() && post[j]@ == k;
                        if j < pre.len() {
                            assert(pre[j]@ == k);
                        }
                    }
                    if listed(pre, k) {
                        let j = choose|j: int| 0 <= j < pre.len() && pre[j]@ == k;
                        assert(post[j]@ == k);
                    }
                    if listed(kb, k) {
                        let j = choose|j: int| 0 <= j < kb.len() && kb[j]@ == k;
                        assert(kept@[j]@ == k);
                    }
                    if listed(kept@, k) {
                        let j = choose|j: int| 0 <= j < kept@.len() && kept@[j]@ == k;
                        if j < kb.len() {
                            assert(kb[j]@ == k);
                        } else {
                            assert(post[i as int]@ == k);
                        }
                    }
                    if listed(post, k) && k != agent_id@ && !listed(pre, k) {
                        let j = choose|j: int| 0 <= j < post.len() && post[j]@ == k;
                        assert(j == i);
                        assert(kept@[kept@.len() - 1]@ == k);
                    }
                }
            }
            i = i + 1;
        }
        proof {
            assert(before.take(self.ids@.len() as int) =~= before);
            assert(Set::new(|k: Seq<char>| listed(kept@, k)) =~= Set::new(
                |k: Seq<char>| listed(before, k),
            ).remove(agent_id@));
        }
        self.ids = kept;
    }
}

/// A tracker with no `await` in progress.
pub fn new_active_awaits() -> (r: ActiveAwaits)
    ensures
        r.view() == Set::<Seq<char>>::empty(),
{
    let r = ActiveAwaits { ids: Vec::new() };
    assert(r.view() =~= Set::<Seq<char>>::empty());
    r
}


/// Whether a line a child wrote to its socket is the answer to a command: a
/// JSON object whose `type` is `response` (tokens and other events that the
/// child broadcasts to every client are skipped).
pub fn is_response_event(line: &str) -> (r: bool)
    ensures
        r == (crate::tool::json_string_member(line@, "type"@) == Some(Some("response"@))),
{
    match crate::tool::json_str_member(line, "type") {
        Ok(Some(t)) => crate::text::str_is(t.as_str(), "response"),
        _ => false,
    }
}

} // verus!
