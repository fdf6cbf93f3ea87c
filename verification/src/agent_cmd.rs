//! The `agent_cmd` tool: commands for spawned subagents. Most commands are
//! sent to the child as one JSON line over its socket; `kill` and `await`
//! are handled by the parent. The library reads the call, builds the line,
//! keeps the registry and decides each step of an `await`; the socket I/O,
//! the clock and the signals are the caller's.

use vstd::prelude::*;

use crate::subagent_registry::{
    agent_id_problem, in_subtree, listed, progress_of, validate_agent_id_format, verdict,
    ActiveAwaits, AwaitResult,
    ExitSignal, SubagentEntry, SubagentRegistry, SubagentStatus, WorkflowSnapshot,
};
use crate::text::{
    decimal, decimal_string, has_prefix, i32_string, owned, push_str, signed_decimal, str_is,
};
use crate::tool::{
    json_member_text, json_member_text_of, json_quote, json_quoted, json_str_member,
    json_string_member, json_u64_member, json_u64_member_of, ToolDefinition, ToolResult,
};

verus! {

/// The default `await` timeout, in seconds.
pub const AWAIT_DEFAULT_TIMEOUT: u64 = 300;

/// The longest `await` allowed, in seconds.
pub const AWAIT_MAX_TIMEOUT: u64 = 3600;

/// How long, in seconds, a child must stay idle before `await` returns,
/// by default.
pub const AWAIT_DEFAULT_IDLE_TIMEOUT: u64 = 5;

/// How often, in milliseconds, an `await` looks at the registry.
pub const AWAIT_POLL_INTERVAL_MS: u64 = 500;

/// The commands a subagent accepts, in the order they are listed.
pub open spec fn supported_commands() -> Seq<Seq<char>> {
    seq![
        "prompt"@,
        "steer"@,
        "follow_up"@,
        "abort"@,
        "kill"@,
        "await"@,
        "get_state"@,
        "get_messages"@,
        "get_messages_tail"@,
        "get_session_stats"@,
        "get_subagents"@,
        "get_extensions"@,
        "set_model"@,
        "clear_history"@,
        "reload_extensions"@,
    ]
}

/// The supported commands as listed in errors.
pub open spec fn supported_list() -> Seq<char> {
    "prompt, steer, follow_up, abort, kill, await, get_state, get_messages, get_messages_tail, get_session_stats, get_subagents, get_extensions, set_model, clear_history, reload_extensions"@
}

/// Whether `command` is supported.
pub fn is_supported_command(command: &str) -> (r: bool)
    ensures
        r == supported_commands().contains(command@),
{
    let names: [&str; 15] = [
        "prompt",
        "steer",
        "follow_up",
        "abort",
        "kill",
        "await",
        "get_state",
        "get_messages",
        "get_messages_tail",
        "get_session_stats",
        "get_subagents",
        "get_extensions",
        "set_model",
        "clear_history",
        "reload_extensions",
    ];
    let mut i: usize = 0;
    while i < 15
        invariant
            i <= 15,
            forall|j: int| 0 <= j < 15 ==> names@[j]@ == #[trigger] supported_commands()[j],
            forall|j: int| 0 <= j < i ==> supported_commands()[j] != command@,
        decreases 15 - i,
    {
        if str_is(names[i], command) {
            assert(supported_commands()[i as int] == command@);
            return true;
        }
        i = i + 1;
    }
    assert forall|x: Seq<char>| supported_commands().contains(x) implies x != command@ by {
        let j = supported_commands().index_of(x);
    }
    false
}

/// The view of a result of strings.
pub open spec fn res_view(r: Result<String, String>) -> Result<Seq<char>, Seq<char>> {
    match r {
        Ok(x) => Ok(x@),
        Err(x) => Err(x@),
    }
}

/// `{"type":"<t>"}`.
pub open spec fn bare_command(t: Seq<char>) -> Seq<char> {
    "{\"type\":\""@ + t + "\"}"@
}

/// A non-empty string member.
pub open spec fn non_empty(m: Option<Option<Seq<char>>>) -> Option<Seq<char>> {
    match m {
        Some(Some(s)) => if s.len() > 0 {
            Some(s)
        } else {
            None
        },
        _ => None,
    }
}

/// `r` is the line built for a supported `command` of the call `args`
/// (or the error that refuses it):
/// - `prompt`, `steer`, `follow_up` need a string `message`; they and
///   `abort` (the control commands) carry `"ack":"accept"`, asking the
///   child to acknowledge acceptance at once;
/// - `get_messages_tail` carries `count` (1 when not an integer);
/// - `set_model` takes a non-empty `model`, or `provider` with `model_id`;
/// - `kill` and `await` are not sent;
/// - the rest carry only their type.
pub open spec fn builds(args: Seq<char>, command: Seq<char>, r: Result<Seq<char>, Seq<char>>) -> bool {
    if command == "prompt"@ || command == "steer"@ || command == "follow_up"@ {
        match json_string_member(args, "message"@) {
            Some(Some(m)) => r == Ok::<Seq<char>, Seq<char>>(
                "{\"ack\":\"accept\",\"message\":"@ + json_quoted(m) + ",\"type\":\""@ + command
                    + "\"}"@,
            ),
            Some(None) => r == Err::<Seq<char>, Seq<char>>(
                command + " command requires a message field"@,
            ),
            None => r is Err,
        }
    } else if command == "get_messages_tail"@ {
        match json_u64_member_of(args, "count"@) {
            Some(c) => r == Ok::<Seq<char>, Seq<char>>(
                "{\"count\":"@ + decimal(
                    (match c {
                        Some(n) => n,
                        None => 1,
                    }) as nat,
                ) + ",\"type\":\"get_messages_tail\"}"@,
            ),
            None => r is Err,
        }
    } else if command == "set_model"@ {
        let m = json_string_member(args, "model"@);
        let p = json_string_member(args, "provider"@);
        let i = json_string_member(args, "model_id"@);
        if m is None || p is None || i is None {
            r is Err
        } else {
            match (non_empty(m), non_empty(p), non_empty(i)) {
                (Some(mm), _, _) => r == Ok::<Seq<char>, Seq<char>>(
                    "{\"model\":"@ + json_quoted(mm) + ",\"type\":\"set_model\"}"@,
                ),
                (None, Some(pp), Some(ii)) => r == Ok::<Seq<char>, Seq<char>>(
                    "{\"modelId\":"@ + json_quoted(ii) + ",\"provider\":"@ + json_quoted(pp)
                        + ",\"type\":\"set_model\"}"@,
                ),
                (None, Some(_), None) => r == Err::<Seq<char>, Seq<char>>(
                    "set_model: provider requires model_id"@,
                ),
                (None, None, Some(_)) => r == Err::<Seq<char>, Seq<char>>(
                    "set_model: model_id requires provider"@,
                ),
                (None, None, None) => r == Err::<Seq<char>, Seq<char>>(
                    "set_model requires model, or provider + model_id"@,
                ),
            }
        }
    } else if command == "kill"@ {
        r == Err::<Seq<char>, Seq<char>>("kill command is handled locally, not via UDS"@)
    } else if command == "await"@ {
        r == Err::<Seq<char>, Seq<char>>("await command is handled locally, not via UDS"@)
    } else if command == "abort"@ {
        r == Ok::<Seq<char>, Seq<char>>("{\"ack\":\"accept\",\"type\":\"abort\"}"@)
    } else {
        r == Ok::<Seq<char>, Seq<char>>(bare_command(command))
    }
}

/// The control commands: they change what the child is doing, and ask it
/// to acknowledge acceptance at once.
pub open spec fn control_command(command: Seq<char>) -> bool {
    command == "prompt"@ || command == "steer"@ || command == "follow_up"@ || command == "abort"@
}

fn message_command(arguments: &str, command: &str) -> (r: Result<String, String>)
    ensures
        match json_string_member(arguments@, "message"@) {
            Some(Some(m)) => r matches Ok(x) && x@ == "{\"ack\":\"accept\",\"message\":"@
                + json_quoted(m) + ",\"type\":\""@ + command@ + "\"}"@,
            Some(None) => r matches Err(x) && x@ == command@ + " command requires a message field"@,
            None => r is Err,
        },
{
    match json_str_member(arguments, "message") {
        Ok(Some(m)) => {
            let mut out = owned("{\"ack\":\"accept\",\"message\":");
            let q = json_quote(m.as_str());
            push_str(&mut out, q.as_str());
            push_str(&mut out, ",\"type\":\"");
            push_str(&mut out, command);
            push_str(&mut out, "\"}");
            Ok(out)
        },
        Ok(None) => {
            let mut e = owned(command);
            push_str(&mut e, " command requires a message field");
            Err(e)
        },
        Err(e) => Err(e),
    }
}

fn non_empty_member(arguments: &str, key: &str) -> (r: Result<Option<String>, String>)
    ensures
        match r {
            Ok(v) => json_string_member(arguments@, key@) is Some && non_empty(
                json_string_member(arguments@, key@),
            ) == match v {
                Some(s) => Some(s@),
                None => None,
            },
            Err(_) => json_string_member(arguments@, key@) is None,
        },
{
    match json_str_member(arguments, key) {
        Ok(Some(s)) => if s.as_str().is_empty() {
            Ok(None)
        } else {
            Ok(Some(s))
        },
        Ok(None) => Ok(None),
        Err(e) => Err(e),
    }
}

fn set_model_command(arguments: &str) -> (r: Result<String, String>)
    ensures
        builds(arguments@, "set_model"@, res_view(r)),
{
    proof {
        reveal_strlit("set_model");
        reveal_strlit("prompt");
        reveal_strlit("steer");
        reveal_strlit("follow_up");
        reveal_strlit("get_messages_tail");
        assert("set_model"@.len() != "prompt"@.len());
        assert("set_model"@.len() != "steer"@.len());
        assert("set_model"@[0] != "follow_up"@[0]);
        assert("set_model"@.len() != "get_messages_tail"@.len());
    }
    let m = match non_empty_member(arguments, "model") {
        Ok(v) => v,
        Err(e) => {
            return Err(e);
        },
    };
    let p = match non_empty_member(arguments, "provider") {
        Ok(v) => v,
        Err(e) => {
            return Err(e);
        },
    };
    let i = match non_empty_member(arguments, "model_id") {
        Ok(v) => v,
        Err(e) => {
            return Err(e);
        },
    };
    match (m, p, i) {
        (Some(mm), _, _) => {
            let mut out = owned("{\"model\":");
            let q = json_quote(mm.as_str());
            push_str(&mut out, q.as_str());
            push_str(&mut out, ",\"type\":\"set_model\"}");
            Ok(out)
        },
        (None, Some(pp), Some(ii)) => {
            let mut out = owned("{\"modelId\":");
            let q = json_quote(ii.as_str());
            push_str(&mut out, q.as_str());
            push_str(&mut out, ",\"provider\":");
            let q2 = json_quote(pp.as_str());
            push_str(&mut out, q2.as_str());
            push_str(&mut out, ",\"type\":\"set_model\"}");
            Ok(out)
        },
        (None, Some(_), None) => Err(owned("set_model: provider requires model_id")),
        (None, None, Some(_)) => Err(owned("set_model: model_id requires provider")),
        (None, None, None) => Err(owned("set_model requires model, or provider + model_id")),
    }
}

fn bare(command: &str) -> (r: String)
    ensures
        r@ == bare_command(command@),
{
    let mut out = owned("{\"type\":\"");
    push_str(&mut out, command);
    push_str(&mut out, "\"}");
    out
}

/// The line for a supported command (see `builds`).
pub fn build_command(arguments: &str, command: &str) -> (r: Result<String, String>)
    ensures
        builds(arguments@, command@, res_view(r)),
{
    if str_is(command, "prompt") || str_is(command, "steer") || str_is(command, "follow_up") {
        message_command(arguments, command)
    } else if str_is(command, "get_messages_tail") {
        match json_u64_member(arguments, "count") {
            Ok(c) => {
                let n: u64 = match c {
                    Some(n) => n,
                    None => 1,
                };
                let mut out = owned("{\"count\":");
                let d = decimal_string(n);
                push_str(&mut out, d.as_str());
                push_str(&mut out, ",\"type\":\"get_messages_tail\"}");
                Ok(out)
            },
            Err(e) => Err(e),
        }
    } else if str_is(command, "set_model") {
        set_model_command(arguments)
    } else if str_is(command, "kill") {
        Err(owned("kill command is handled locally, not via UDS"))
    } else if str_is(command, "await") {
        Err(owned("await command is handled locally, not via UDS"))
    } else if str_is(command, "abort") {
        Ok(owned("{\"ack\":\"accept\",\"type\":\"abort\"}"))
    } else {
        Ok(bare(command))
    }
}

/// `r` answers the call `args`: an error when it is not JSON, lacks a
/// string `agent_id` (or one of the right form) or a string `command`, or
/// names an unsupported command; otherwise the agent and the line built
/// for the command (see `builds`).
pub open spec fn parsed_command(args: Seq<char>, r: Result<(String, String), String>) -> bool {
    match json_string_member(args, "agent_id"@) {
        None => r matches Err(m) && has_prefix(m@, "invalid JSON: "@),
        Some(None) => r matches Err(m) && m@ == "missing required field: agent_id"@,
        Some(Some(id)) => match agent_id_problem(id) {
            Some(p) => r matches Err(m) && m@ == p,
            None => match json_string_member(args, "command"@) {
                None => r is Err,
                Some(None) => r matches Err(m) && m@ == "missing required field: command"@,
                Some(Some(c)) => if !supported_commands().contains(c) {
                    r matches Err(m) && m@ == "unsupported command '"@ + c + "'; supported: "@
                        + supported_list()
                } else {
                    builds(
                        args,
                        c,
                        match r {
                            Ok((a, line)) => Ok(line@),
                            Err(m) => Err(m@),
                        },
                    ) && (r matches Ok((a, _)) ==> a@ == id)
                },
            },
        },
    }
}

/// The `agent_cmd` tool over its registry and the awaits in progress.
#[derive(Debug)]
pub struct AgentCmdTool {
    pub registry: SubagentRegistry,
    pub active_awaits: ActiveAwaits,
}

impl AgentCmdTool {
    /// Whether `command` is a control command (see `control_command`).
    pub fn is_control_command(command: &str) -> (r: bool)
        ensures
            r == control_command(command@),
    {
        str_is(command, "prompt") || str_is(command, "steer") || str_is(command, "follow_up")
            || str_is(command, "abort")
    }

    /// A tool over `registry`, with no await in progress.
    pub fn new(registry: SubagentRegistry) -> (t: AgentCmdTool)
        ensures
            t.registry.view() == registry.view(),
            t.active_awaits.view() == Set::<Seq<char>>::empty(),
    {
        AgentCmdTool { registry, active_awaits: crate::subagent_registry::new_active_awaits() }
    }

    /// A tool over `registry` sharing the awaits in progress.
    pub fn with_active_awaits(registry: SubagentRegistry, active_awaits: ActiveAwaits) -> (t:
        AgentCmdTool)
        ensures
            t.registry.view() == registry.view(),
            t.active_awaits.view() == active_awaits.view(),
    {
        AgentCmdTool { registry, active_awaits }
    }

    /// The socket of `agent_id`, or why there is none.
    pub fn lookup_socket(&self, agent_id: &str) -> (r: Result<String, String>)
        ensures
            self.registry.view().contains_key(agent_id@) ==> (r matches Ok(p) && p@
                == self.registry.view()[agent_id@].socket_path@),
            !self.registry.view().contains_key(agent_id@) ==> (r matches Err(m) && m@
                == "subagent '"@ + agent_id@ + "' not found in registry"@),
    {
        self.registry.lookup_subagent_socket(agent_id)
    }

    pub fn definition(&self) -> (d: ToolDefinition)
        ensures
            d.name@ == "agent_cmd"@,
    {
        ToolDefinition {
            name: owned("agent_cmd"),
            description: owned(
                "Send a command to a spawned subagent. \
                Supported commands: prompt, steer, follow_up, abort, kill, await, \
                get_state, get_messages, get_messages_tail, get_session_stats, \
                get_subagents, get_extensions, set_model, clear_history, \
                reload_extensions. \
                Spawned subagents are auto-noted PASSIVELY: a one-line completion \
                note arrives WITHOUT blocking and enters your context at your NEXT \
                turn, so await is OPTIONAL. Use await only when you must BLOCK \
                synchronously until the sub-agent reaches idle, exited, timeout, or \
                error before continuing within the SAME turn; awaiting a completion \
                suppresses its duplicate auto-note. Either way, read the child's full \
                output explicitly with get_messages_tail or get_messages — the \
                note/await summary is one line, not the result.",
            ),
            parameters_schema: owned(
                r#"{"type":"object","properties":{"agent_id":{"type":"string","description":"ID of the spawned subagent"},"command":{"type":"string","enum":["prompt","steer","follow_up","abort","kill","await","get_state","get_messages","get_messages_tail","get_session_stats","get_subagents","get_extensions","set_model","clear_history","reload_extensions"],"description":"Command to send. kill terminates the subagent process. await blocks until idle, exited, timeout, or error; then inspect output with get_messages_tail or get_messages."},"message":{"type":"string","description":"Message for prompt/steer/follow_up commands"},"count":{"type":"integer","description":"Number of messages for get_messages_tail (default: 1)"},"model":{"type":"string","description":"Model identifier for set_model (e.g. provider/modelId)"},"provider":{"type":"string","description":"Provider name for set_model (alternative to model)"},"model_id":{"type":"string","description":"Model ID for set_model (used with provider)"},"timeout":{"type":"integer","description":"Maximum wall-clock seconds to wait for await command (default: 300)"},"idle_timeout":{"type":"integer","description":"Seconds the agent must stay idle before await returns (default: 5). Set to 0 for immediate return on first idle."}},"required":["agent_id","command"]}"#,
            ),
        }
    }

    /// Reads a call and builds the line to send (see `parsed_command`).
    pub fn parse_and_build(&self, arguments: &str) -> (r: Result<(String, String), String>)
        ensures
            parsed_command(arguments@, r),
    {
        let agent_id = match json_str_member(arguments, "agent_id") {
            Err(e) => {
                let mut m = owned("invalid JSON: ");
                push_str(&mut m, e.as_str());
                proof {
                    reveal_strlit("invalid JSON: ");
                }
                assert(m@.take(14) =~= "invalid JSON: "@);
                return Err(m);
            },
            Ok(None) => {
                return Err(owned("missing required field: agent_id"));
            },
            Ok(Some(a)) => a,
        };
        match validate_agent_id_format(agent_id.as_str()) {
            Ok(()) => {},
            Err(e) => {
                return Err(e);
            },
        }
        let command = match json_str_member(arguments, "command") {
            Err(e) => {
                return Err(e);
            },
            Ok(None) => {
                return Err(owned("missing required field: command"));
            },
            Ok(Some(c)) => c,
        };
        if !is_supported_command(command.as_str()) {
            let mut m = owned("unsupported command '");
            push_str(&mut m, command.as_str());
            push_str(&mut m, "'; supported: ");
            push_str(&mut m, "prompt, steer, follow_up, abort, kill, await, get_state, get_messages, get_messages_tail, get_session_stats, get_subagents, get_extensions, set_model, clear_history, reload_extensions");
            return Err(m);
        }
        match build_command(arguments, command.as_str()) {
            Ok(line) => Ok((agent_id, line)),
            Err(e) => Err(e),
        }
    }
}


// ---------------------------------------------------------------------------
// Locally handled commands and the plan of a call
// ---------------------------------------------------------------------------

/// The call asks for `await`.
pub open spec fn asks_await(args: Seq<char>) -> bool {
    json_string_member(args, "command"@) == Some(Some("await"@))
}

/// Whether the call asks for `await`.
pub fn is_await_command(arguments: &str) -> (r: bool)
    ensures
        r == asks_await(arguments@),
{
    match json_str_member(arguments, "command") {
        Ok(Some(c)) => str_is(c.as_str(), "await"),
        _ => false,
    }
}

/// What a call comes to.
#[derive(Debug)]
pub enum CommandPlan {
    /// An `await`, run step by step by the caller.
    Await,
    /// A reply given at once.
    Reply(ToolResult),
    /// The agent was removed with its sub-tree: the reply, the process to
    /// send `SIGTERM` (none when 0) and the agents removed.
    Killed { reply: ToolResult, pid: u32, removed: Vec<String> },
    /// The line to send to the child's socket.
    Send { socket_path: String, line: String },
}

/// `"agent_cmd error: " + e`, as an error result.
pub open spec fn cmd_error(r: ToolResult, e: Seq<char>) -> bool {
    r.is_error && r.content@ == "agent_cmd error: "@ + e
}

fn cmd_error_result(e: &str) -> (r: ToolResult)
    ensures
        cmd_error(r, e@),
{
    let mut m = owned("agent_cmd error: ");
    push_str(&mut m, e);
    ToolResult::error(m)
}

/// The outcome `r` of killing `agent_id`, taking registry `a` to `b`: an
/// error when it is not registered (and nothing changes); otherwise the
/// agent and every agent below it leave the registry, the rest stay as they
/// were, and the reply names the agent and its process.
pub open spec fn kill_outcome(
    a: Map<Seq<char>, SubagentEntry>,
    b: Map<Seq<char>, SubagentEntry>,
    agent_id: Seq<char>,
    r: CommandPlan,
) -> bool {
    if !a.contains_key(agent_id) {
        b == a && (r matches CommandPlan::Reply(x) && cmd_error(
            x,
            "subagent '"@ + agent_id + "' not found in registry"@,
        ))
    } else {
        match r {
            CommandPlan::Killed { reply, pid, removed } => {
                &&& pid == a[agent_id].pid
                &&& !reply.is_error
                &&& reply.content@ == "Subagent '"@ + agent_id + "' killed (pid="@ + decimal(
                    pid as nat,
                ) + ")."@
                &&& forall|k: Seq<char>| listed(removed@, k) <==> in_subtree(a, agent_id, k)
                &&& forall|k: Seq<char>| #[trigger] b.contains_key(k) <==> (a.contains_key(k)
                    && !in_subtree(a, agent_id, k))
                &&& forall|k: Seq<char>| #[trigger] b.contains_key(k) ==> b[k] == a[k]
            },
            _ => false,
        }
    }
}

impl AgentCmdTool {
    /// Kills `agent_id`: an error when it is not registered; otherwise the
    /// agent and every agent below it leave the registry, and the reply
    /// names the agent and its process.
    pub fn kill_agent(&mut self, agent_id: &str) -> (r: CommandPlan)
        ensures
            kill_outcome(old(self).registry.view(), final(self).registry.view(), agent_id@, r),
            final(self).active_awaits.view() == old(self).active_awaits.view(),
    {
        let pid = match self.registry.get(agent_id) {
            Some(e) => e.pid,
            None => {
                let mut m = owned("subagent '");
                push_str(&mut m, agent_id);
                push_str(&mut m, "' not found in registry");
                return CommandPlan::Reply(cmd_error_result(m.as_str()));
            },
        };
        let removed = self.registry.cascade_remove(agent_id);
        let mut m = owned("Subagent '");
        push_str(&mut m, agent_id);
        push_str(&mut m, "' killed (pid=");
        let d = decimal_string(pid as u64);
        push_str(&mut m, d.as_str());
        push_str(&mut m, ").");
        CommandPlan::Killed { reply: ToolResult::text(m), pid, removed }
    }

    /// What a call comes to: an `await`; a `kill` (an error when the call
    /// has no string `agent_id` or a malformed one); otherwise the line for
    /// the command and the child's socket, or the error that refuses them
    /// (see `parsed_command`), prefixed `agent_cmd error: `.
    pub fn plan_command(&mut self, arguments: &str) -> (r: CommandPlan)
        ensures
            asks_await(arguments@) ==> r is Await && final(self).registry.view() == old(
                self,
            ).registry.view(),
            !asks_await(arguments@) && json_string_member(arguments@, "command"@) == Some(
                Some("kill"@),
            ) ==> match json_string_member(arguments@, "agent_id"@) {
                Some(Some(id)) => match agent_id_problem(id) {
                    Some(p) => r matches CommandPlan::Reply(x) && cmd_error(x, p),
                    None => kill_outcome(
                        old(self).registry.view(),
                        final(self).registry.view(),
                        id,
                        r,
                    ),
                },
                _ => r matches CommandPlan::Reply(x) && cmd_error(
                    x,
                    "missing required field: agent_id"@,
                ),
            },
            !asks_await(arguments@) && json_string_member(arguments@, "command"@) != Some(
                Some("kill"@),
            ) ==> final(self).registry.view() == old(self).registry.view() && match r {
                CommandPlan::Send { socket_path, line } => exists|id: String|
                    parsed_command(arguments@, Ok::<(String, String), String>((id, line)))
                    && old(self).registry.view().contains_key(id@) && socket_path@ == old(
                    self,
                ).registry.view()[id@].socket_path@,
                CommandPlan::Reply(x) => x.is_error,
                _ => false,
            },
            final(self).active_awaits.view() == old(self).active_awaits.view(),
    {
        if is_await_command(arguments) {
            return CommandPlan::Await;
        }
        let command = json_str_member(arguments, "command");
        let is_kill = match &command {
            Ok(Some(c)) => str_is(c.as_str(), "kill"),
            _ => false,
        };
        if is_kill {
            let agent_id = match json_str_member(arguments, "agent_id") {
                Ok(Some(a)) => a,
                _ => {
                    return CommandPlan::Reply(cmd_error_result("missing required field: agent_id"));
                },
            };
            match validate_agent_id_format(agent_id.as_str()) {
                Ok(()) => {},
                Err(e) => {
                    return CommandPlan::Reply(cmd_error_result(e.as_str()));
                },
            }
            return self.kill_agent(agent_id.as_str());
        }
        let (agent_id, line) = match self.parse_and_build(arguments) {
            Ok(pair) => pair,
            Err(e) => {
                return CommandPlan::Reply(cmd_error_result(e.as_str()));
            },
        };
        let socket_path = match self.registry.lookup_subagent_socket(agent_id.as_str()) {
            Ok(p) => p,
            Err(e) => {
                return CommandPlan::Reply(cmd_error_result(e.as_str()));
            },
        };
        let ghost id = agent_id;
        assert(parsed_command(arguments@, Ok::<(String, String), String>((id, line))));
        CommandPlan::Send { socket_path, line }
    }
}

/// The reply to a sent command: the child's answer, or the failure.
pub fn send_reply(outcome: Result<String, String>) -> (r: ToolResult)
    ensures
        match outcome {
            Ok(a) => !r.is_error && r.content@ == a@,
            Err(e) => cmd_error(r, e@),
        },
{
    match outcome {
        Ok(a) => ToolResult::text(a),
        Err(e) => cmd_error_result(e.as_str()),
    }
}


// ---------------------------------------------------------------------------
// await
// ---------------------------------------------------------------------------

/// An `await` as asked for.
#[derive(Debug)]
pub struct AwaitRequest {
    pub agent_id: String,
    /// The longest wait, in seconds.
    pub timeout_secs: u64,
    /// How long the child must stay idle, in seconds.
    pub idle_timeout_secs: u64,
}

/// The `timeout` of an `await`: the value given (300 when none), at most
/// 3600.
pub open spec fn await_timeout(t: Option<u64>) -> u64 {
    let v = match t {
        Some(x) => x,
        None => AWAIT_DEFAULT_TIMEOUT,
    };
    if v < AWAIT_MAX_TIMEOUT {
        v
    } else {
        AWAIT_MAX_TIMEOUT
    }
}

/// Reads an `await` call: errors (as error results) when it is not JSON,
/// has no string `agent_id` or a malformed one; otherwise the agent, the
/// timeout (see `await_timeout`) and the idle timeout (5 when none).
pub fn parse_await_request(arguments: &str) -> (r: Result<AwaitRequest, ToolResult>)
    ensures
        json_string_member(arguments@, "agent_id"@) is None ==> (r matches Err(e) && e.is_error
            && has_prefix(e.content@, "invalid JSON arguments: "@)),
        json_string_member(arguments@, "agent_id"@) == Some(None::<Seq<char>>) ==> (r matches Err(
            e,
        ) && e.is_error && e.content@ == "missing required field: agent_id"@),
        forall|id: Seq<char>|
            json_string_member(arguments@, "agent_id"@) == Some(Some(id)) ==> match agent_id_problem(
                id,
            ) {
                Some(p) => r matches Err(e) && cmd_error(e, p),
                None => match (
                    json_u64_member_of(arguments@, "timeout"@),
                    json_u64_member_of(arguments@, "idle_timeout"@),
                ) {
                    (Some(t), Some(i)) => r matches Ok(q) && q.agent_id@ == id && q.timeout_secs
                        == await_timeout(t) && q.idle_timeout_secs == match i {
                        Some(x) => x,
                        None => AWAIT_DEFAULT_IDLE_TIMEOUT,
                    },
                    _ => r matches Err(e) && e.is_error,
                },
            },
{
    let agent_id = match json_str_member(arguments, "agent_id") {
        Err(e) => {
            let mut m = owned("invalid JSON arguments: ");
            push_str(&mut m, e.as_str());
            push_str(&mut m, ". Example: {\"agent_id\": \"my-agent\"}");
            proof {
                reveal_strlit("invalid JSON arguments: ");
            }
            assert(m@.take(24) =~= "invalid JSON arguments: "@);
            return Err(ToolResult::error(m));
        },
        Ok(None) => {
            return Err(ToolResult::error(owned("missing required field: agent_id")));
        },
        Ok(Some(a)) => a,
    };
    match validate_agent_id_format(agent_id.as_str()) {
        Ok(()) => {},
        Err(e) => {
            return Err(cmd_error_result(e.as_str()));
        },
    }
    let timeout = match json_u64_member(arguments, "timeout") {
        Ok(t) => t,
        Err(e) => {
            return Err(cmd_error_result(e.as_str()));
        },
    };
    let idle = match json_u64_member(arguments, "idle_timeout") {
        Ok(t) => t,
        Err(e) => {
            return Err(cmd_error_result(e.as_str()));
        },
    };
    let t: u64 = match timeout {
        Some(x) => x,
        None => AWAIT_DEFAULT_TIMEOUT,
    };
    let timeout_secs: u64 = if t < AWAIT_MAX_TIMEOUT {
        t
    } else {
        AWAIT_MAX_TIMEOUT
    };
    let idle_timeout_secs: u64 = match idle {
        Some(x) => x,
        None => AWAIT_DEFAULT_IDLE_TIMEOUT,
    };
    Ok(AwaitRequest { agent_id, timeout_secs, idle_timeout_secs })
}

/// `r` is an await result with this status and reason, no workflow and
/// the given elapsed time.
pub open spec fn plain_result(
    r: AwaitResult,
    agent_id: Seq<char>,
    status: Seq<char>,
    reason: Seq<char>,
    elapsed_ms: u64,
) -> bool {
    &&& r.status@ == status
    &&& crate::exec::opt_view(r.reason) == Some(reason)
    &&& r.agent_id@ == agent_id
    &&& r.elapsed_ms == elapsed_ms
    &&& r.workflow is None
    &&& r.error is None
    &&& r.result.status == verdict(status, Some(reason), None, None).0
    &&& r.result.summary@ == verdict(status, Some(reason), None, None).1
    &&& r.result.workflow_progress is None
}

impl AgentCmdTool {
    /// Starts an `await`: an error result when the agent is not registered
    /// or is already being awaited; otherwise the agent is marked awaited
    /// and its socket returned.
    pub fn begin_await(&mut self, req: &AwaitRequest) -> (r: Result<String, AwaitResult>)
        ensures
            final(self).registry.view() == old(self).registry.view(),
            !old(self).registry.view().contains_key(req.agent_id@) ==> final(self).active_awaits.view()
                == old(self).active_awaits.view() && (r matches Err(x) && plain_result(
                x,
                req.agent_id@,
                "error"@,
                "agent_not_found"@,
                0,
            )),
            old(self).registry.view().contains_key(req.agent_id@) && old(
                self,
            ).active_awaits.view().contains(req.agent_id@) ==> final(self).active_awaits.view()
                == old(self).active_awaits.view() && (r matches Err(x) && plain_result(
                x,
                req.agent_id@,
                "error"@,
                "another_await_active"@,
                0,
            )),
            old(self).registry.view().contains_key(req.agent_id@) && !old(
                self,
            ).active_awaits.view().contains(req.agent_id@) ==> final(self).active_awaits.view()
                == old(self).active_awaits.view().insert(req.agent_id@) && (r matches Ok(p) && p@
                == old(self).registry.view()[req.agent_id@].socket_path@),
    {
        let socket = match self.registry.get(req.agent_id.as_str()) {
            Some(e) => e.socket_path.clone(),
            None => {
                return Err(
                    AwaitResult::new("error", Some("agent_not_found"), req.agent_id.clone(), 0, None),
                );
            },
        };
        if !self.active_awaits.try_begin(req.agent_id.as_str()) {
            proof {
                assert(self.active_awaits.view() =~= old(self).active_awaits.view());
            }
            return Err(
                AwaitResult::new(
                    "error",
                    Some("another_await_active"),
                    req.agent_id.clone(),
                    0,
                    None,
                ),
            );
        }
        Ok(socket)
    }

    /// Ends an `await` of `agent_id`.
    pub fn end_await(&mut self, agent_id: &str)
        ensures
            final(self).registry.view() == old(self).registry.view(),
            final(self).active_awaits.view() == old(self).active_awaits.view().remove(agent_id@),
    {
        self.active_awaits.end(agent_id);
    }

    /// The result when the child's socket cannot be reached: the
    /// connection failed while the agent is still registered, otherwise it
    /// is gone.
    pub fn unreachable_result(&self, agent_id: &str, elapsed_ms: u64) -> (r: AwaitResult)
        ensures
            plain_result(
                r,
                agent_id@,
                "error"@,
                if self.registry.view().contains_key(agent_id@) {
                    "connection_failed"@
                } else {
                    "agent_not_found"@
                },
                elapsed_ms,
            ),
    {
        if self.registry.contains_key(agent_id) {
            AwaitResult::new("error", Some("connection_failed"), owned(agent_id), elapsed_ms, None)
        } else {
            AwaitResult::new("error", Some("agent_not_found"), owned(agent_id), elapsed_ms, None)
        }
    }
}

/// How a child ended, as an await reason: `exit_code_<n>`, else
/// `signal_<n>`, else `exit_code_0`.
pub open spec fn exit_reason_of(e: ExitSignal) -> Seq<char> {
    match e.exit_code {
        Some(c) => "exit_code_"@ + signed_decimal(c as int),
        None => match e.signal {
            Some(s) => "signal_"@ + signed_decimal(s as int),
            None => "exit_code_0"@,
        },
    }
}

/// The await reason for how a child ended (see `exit_reason_of`).
pub fn exit_reason(e: &ExitSignal) -> (r: String)
    ensures
        r@ == exit_reason_of(*e),
{
    match e.exit_code {
        Some(c) => {
            let mut m = owned("exit_code_");
            let d = i32_string(c);
            push_str(&mut m, d.as_str());
            m
        },
        None => match e.signal {
            Some(s) => {
                let mut m = owned("signal_");
                let d = i32_string(s);
                push_str(&mut m, d.as_str());
                m
            },
            None => owned("exit_code_0"),
        },
    }
}

/// Where an `await` stands between two looks at the child: since when (in
/// milliseconds from the start) it has been idle, if it is.
#[derive(Debug, Clone, Copy, PartialEq, Eq)]
pub struct AwaitState {
    pub idle_since_ms: Option<u64>,
}

/// The state an `await` starts in.
pub fn await_start() -> (s: AwaitState)
    ensures
        s.idle_since_ms is None,
{
    AwaitState { idle_since_ms: None }
}

/// How an `await` ends: its status and reason, and whether the child's
/// workflow is to be fetched for the result.
#[derive(Debug)]
pub struct AwaitEnd {
    pub status: String,
    pub reason: Option<String>,
    pub fetch_workflow: bool,
}

/// The next move of an `await`.
#[derive(Debug)]
pub enum AwaitStep {
    /// Look again later, from this state.
    Wait(AwaitState),
    /// Stop.
    Finish(AwaitEnd),
}

/// The `await` has run `elapsed_ms` milliseconds, its whole timeout.
pub open spec fn timed_out_at(req: AwaitRequest, elapsed_ms: u64) -> bool {
    elapsed_ms >= req.timeout_secs * 1000
}

/// Whether the `await` has run out of time (see `timed_out_at`).
pub fn await_timed_out(req: &AwaitRequest, elapsed_ms: u64) -> (r: bool)
    ensures
        r == timed_out_at(*req, elapsed_ms),
{
    (elapsed_ms as u128) >= (req.timeout_secs as u128) * 1000
}

/// The end of an `await` that ran out of time.
pub fn timeout_end() -> (r: AwaitEnd)
    ensures
        r.status@ == "timeout"@,
        r.reason is None,
        r.fetch_workflow,
{
    AwaitEnd { status: owned("timeout"), reason: None, fetch_workflow: true }
}

/// `e` ends the `await` with `status` and `reason`, fetching the workflow
/// or not.
pub open spec fn ends(e: AwaitEnd, status: Seq<char>, reason: Seq<char>, fetch: bool) -> bool {
    e.status@ == status && crate::exec::opt_view(e.reason) == Some(reason) && e.fetch_workflow
        == fetch
}

/// The idle countdown started at `since` has run its course at `now`.
pub open spec fn idle_done(idle_timeout_secs: u64, since: u64, now: u64) -> bool {
    now - since >= idle_timeout_secs * 1000
}

/// `r` is the next move of an `await` at `now_ms`, after a look at the
/// child:
/// - an exit signal received ends it, `exited`, with its reason;
/// - a child gone from the registry or exited ends it, `exited`, with the
///   reason of the exit the registry knows (`exit_code_0` when none);
/// - an idle child ends it, `idle`/`completed`, once it has stayed idle
///   for the idle timeout (at once for 0); an erroring child likewise;
/// - a working child resets the idle countdown.
pub open spec fn await_next(
    req: AwaitRequest,
    s: AwaitState,
    now_ms: u64,
    exit_signal: Option<ExitSignal>,
    status: Option<SubagentStatus>,
    registry_exit: Option<ExitSignal>,
    r: AwaitStep,
) -> bool {
    match exit_signal {
        Some(e) => r matches AwaitStep::Finish(x) && ends(x, "exited"@, exit_reason_of(e), false),
        None => match status {
            None | Some(SubagentStatus::Exited) => r matches AwaitStep::Finish(x) && ends(
                x,
                "exited"@,
                match registry_exit {
                    Some(e) => exit_reason_of(e),
                    None => "exit_code_0"@,
                },
                false,
            ),
            Some(SubagentStatus::Idle) => match s.idle_since_ms {
                None => if req.idle_timeout_secs == 0 {
                    r matches AwaitStep::Finish(x) && ends(x, "idle"@, "completed"@, true)
                } else {
                    r == AwaitStep::Wait(AwaitState { idle_since_ms: Some(now_ms) })
                },
                Some(since) => if now_ms >= since && idle_done(req.idle_timeout_secs, since, now_ms) {
                    r matches AwaitStep::Finish(x) && ends(x, "idle"@, "completed"@, true)
                } else {
                    r == AwaitStep::Wait(s)
                },
            },
            Some(SubagentStatus::Error) => {
                let since = match s.idle_since_ms {
                    Some(t) => t,
                    None => now_ms,
                };
                if req.idle_timeout_secs == 0 || (now_ms >= since && idle_done(
                    req.idle_timeout_secs,
                    since,
                    now_ms,
                )) {
                    r matches AwaitStep::Finish(x) && ends(x, "idle"@, "completed"@, true)
                } else {
                    r == AwaitStep::Wait(AwaitState { idle_since_ms: Some(since) })
                }
            },
            Some(_) => r == AwaitStep::Wait(AwaitState { idle_since_ms: None }),
        },
    }
}

fn idle_finish() -> (r: AwaitStep)
    ensures
        r matches AwaitStep::Finish(x) && ends(x, "idle"@, "completed"@, true),
{
    AwaitStep::Finish(
        AwaitEnd { status: owned("idle"), reason: Some(owned("completed")), fetch_workflow: true },
    )
}

fn idle_elapsed(idle_timeout_secs: u64, since: u64, now: u64) -> (r: bool)
    ensures
        r == (now >= since && idle_done(idle_timeout_secs, since, now)),
{
    now >= since && ((now - since) as u128) >= (idle_timeout_secs as u128) * 1000
}

/// The next move of an `await` (see `await_next`).
pub fn await_step(
    req: &AwaitRequest,
    s: AwaitState,
    now_ms: u64,
    exit_signal: Option<ExitSignal>,
    status: Option<SubagentStatus>,
    registry_exit: Option<ExitSignal>,
) -> (r: AwaitStep)
    ensures
        await_next(*req, s, now_ms, exit_signal, status, registry_exit, r),
{
    match exit_signal {
        Some(e) => {
            return AwaitStep::Finish(
                AwaitEnd {
                    status: owned("exited"),
                    reason: Some(exit_reason(&e)),
                    fetch_workflow: false,
                },
            );
        },
        None => {},
    }
    match status {
        None | Some(SubagentStatus::Exited) => {
            let reason = match &registry_exit {
                Some(e) => exit_reason(e),
                None => owned("exit_code_0"),
            };
            AwaitStep::Finish(
                AwaitEnd { status: owned("exited"), reason: Some(reason), fetch_workflow: false },
            )
        },
        Some(SubagentStatus::Idle) => match s.idle_since_ms {
            None => {
                if req.idle_timeout_secs == 0 {
                    idle_finish()
                } else {
                    AwaitStep::Wait(AwaitState { idle_since_ms: Some(now_ms) })
                }
            },
            Some(since) => {
                if idle_elapsed(req.idle_timeout_secs, since, now_ms) {
                    idle_finish()
                } else {
                    AwaitStep::Wait(s)
                }
            },
        },
        Some(SubagentStatus::Error) => {
            let since = match s.idle_since_ms {
                Some(t) => t,
                None => now_ms,
            };
            if req.idle_timeout_secs == 0 || idle_elapsed(req.idle_timeout_secs, since, now_ms) {
                idle_finish()
            } else {
                AwaitStep::Wait(AwaitState { idle_since_ms: Some(since) })
            }
        },
        Some(_) => AwaitStep::Wait(AwaitState { idle_since_ms: None }),
    }
}

/// The result of a finished `await`.
pub fn await_result(agent_id: &str, end: &AwaitEnd, elapsed_ms: u64, workflow: Option<
    WorkflowSnapshot,
>) -> (r: AwaitResult)
    ensures
        r.status@ == end.status@,
        crate::exec::opt_view(r.reason) == crate::exec::opt_view(end.reason),
        r.agent_id@ == agent_id@,
        r.elapsed_ms == elapsed_ms,
        r.workflow == workflow,
        r.error is None,
        r.result.status == verdict(end.status@, crate::exec::opt_view(end.reason), workflow, None).0,
        r.result.summary@ == verdict(end.status@, crate::exec::opt_view(end.reason), workflow, None).1,
        r.result.workflow_progress == progress_of(workflow),
{
    let reason: Option<&str> = match &end.reason {
        Some(x) => Some(x.as_str()),
        None => None,
    };
    AwaitResult::new(end.status.as_str(), reason, owned(agent_id), elapsed_ms, workflow)
}


// ---------------------------------------------------------------------------
// The workflow snapshot of a child
// ---------------------------------------------------------------------------

/// The line that asks a child for its state.
pub fn get_state_line() -> (r: String)
    ensures
        r@ == bare_command("get_state"@),
{
    bare("get_state")
}

/// An integer member of the workflow object, read under its first name
/// when that member is present and under its second name otherwise (0 when
/// it is not an integer in `u64` range), cut to `u32`.
pub open spec fn step_count(w: Seq<char>, first: Seq<char>, second: Seq<char>) -> Option<u32> {
    let key = if json_member_text_of(w, first) matches Some(Some(_)) {
        first
    } else {
        second
    };
    match json_member_text_of(w, first) {
        Some(_) => match json_u64_member_of(w, key) {
            Some(v) => Some(
                (match v {
                    Some(n) => n,
                    None => 0,
                }) as u32,
            ),
            None => None,
        },
        None => None,
    }
}

/// The workflow object of a `get_state` answer: member `workflow` of its
/// `data`, else `workflowState`, written back as JSON.
pub open spec fn workflow_text(response: Seq<char>) -> Option<Seq<char>> {
    match json_member_text_of(response, "data"@) {
        Some(Some(d)) => match json_member_text_of(d, "workflow"@) {
            Some(Some(w)) => Some(w),
            Some(None) => match json_member_text_of(d, "workflowState"@) {
                Some(Some(w)) => Some(w),
                _ => None,
            },
            None => None,
        },
        _ => None,
    }
}

/// The workflow snapshot in a child's `get_state` answer: its mode
/// (`unknown` when not a string) and step counts (`steps_completed` or
/// `stepsCompleted`, `steps_total` or `stepsTotal`); none when the answer
/// holds no workflow.
pub open spec fn snapshot_in(response: Seq<char>) -> Option<(Seq<char>, u32, u32)> {
    match workflow_text(response) {
        Some(w) => match (
            json_string_member(w, "mode"@),
            step_count(w, "steps_completed"@, "stepsCompleted"@),
            step_count(w, "steps_total"@, "stepsTotal"@),
        ) {
            (Some(m), Some(c), Some(t)) => Some(
                (
                    match m {
                        Some(x) => x,
                        None => "unknown"@,
                    },
                    c,
                    t,
                ),
            ),
            _ => None,
        },
        None => None,
    }
}

fn member_text(text: &str, key: &str) -> (r: Option<String>)
    ensures
        match r {
            Some(t) => json_member_text_of(text@, key@) == Some(Some(t@)),
            None => !(json_member_text_of(text@, key@) matches Some(Some(_))),
        },
{
    match json_member_text(text, key) {
        Ok(Some(t)) => Some(t),
        _ => None,
    }
}

fn step_count_of(w: &str, first: &str, second: &str) -> (r: Option<u32>)
    ensures
        r == step_count(w@, first@, second@),
{
    let present = match json_member_text(w, first) {
        Ok(p) => p.is_some(),
        Err(_) => {
            return None;
        },
    };
    let key = if present {
        first
    } else {
        second
    };
    match json_u64_member(w, key) {
        Ok(v) => {
            let n: u64 = match v {
                Some(n) => n,
                None => 0,
            };
            Some(#[verifier::truncate] (n as u32))
        },
        Err(_) => None,
    }
}

/// The workflow snapshot in a child's `get_state` answer (see
/// `snapshot_in`).
pub fn workflow_from_state(response: &str) -> (r: Option<WorkflowSnapshot>)
    ensures
        match r {
            Some(w) => snapshot_in(response@) == Some((w.mode@, w.steps_completed, w.steps_total)),
            None => snapshot_in(response@) is None,
        },
{
    let data = match member_text(response, "data") {
        Some(d) => d,
        None => {
            return None;
        },
    };
    let w = match json_member_text(data.as_str(), "workflow") {
        Ok(Some(w)) => w,
        Ok(None) => match member_text(data.as_str(), "workflowState") {
            Some(w) => w,
            None => {
                return None;
            },
        },
        Err(_) => {
            return None;
        },
    };
    let mode = match json_str_member(w.as_str(), "mode") {
        Ok(Some(m)) => m,
        Ok(None) => owned("unknown"),
        Err(_) => {
            return None;
        },
    };
    let done = match step_count_of(w.as_str(), "steps_completed", "stepsCompleted") {
        Some(c) => c,
        None => {
            return None;
        },
    };
    let total = match step_count_of(w.as_str(), "steps_total", "stepsTotal") {
        Some(c) => c,
        None => {
            return None;
        },
    };
    Some(WorkflowSnapshot { mode, steps_completed: done, steps_total: total })
}


/// The acceptance marker leads a built line exactly when the command is a
/// control command: queries and settings never ask for an early ack.
pub proof fn law_ack_only_on_control(args: Seq<char>, command: Seq<char>, line: Seq<char>)
    requires
        builds(args, command, Ok::<Seq<char>, Seq<char>>(line)),
    ensures
        has_prefix(line, "{\"ack\":\"accept\","@) <==> control_command(command),
{
    reveal_strlit("{\"ack\":\"accept\",");
    reveal_strlit("{\"ack\":\"accept\",\"message\":");
    reveal_strlit("{\"ack\":\"accept\",\"type\":\"abort\"}");
    reveal_strlit("{\"count\":");
    reveal_strlit("{\"model\":");
    reveal_strlit("{\"modelId\":");
    reveal_strlit("{\"type\":\"");
    reveal_strlit("prompt");
    reveal_strlit("steer");
    reveal_strlit("follow_up");
    reveal_strlit("abort");
    reveal_strlit("get_messages_tail");
    reveal_strlit("set_model");
    reveal_strlit("kill");
    reveal_strlit("await");
    let p = "{\"ack\":\"accept\","@;
    assert(p.len() == 16 && p[2] == 'a');
    if control_command(command) {
        if command == "abort"@ {
            let a = "{\"ack\":\"accept\",\"type\":\"abort\"}"@;
            assert("abort"@ != "prompt"@ && "abort"@ != "follow_up"@ && "abort"@ != "kill"@);
            assert("abort"@ != "get_messages_tail"@ && "abort"@ != "set_model"@);
            assert("abort"@[0] != "steer"@[0] && "abort"@[1] != "await"@[1]);
            assert(line == a);
            assert(a.take(16) =~= p);
        } else {
            let m = json_string_member(args, "message"@)->0->0;
            let h = "{\"ack\":\"accept\",\"message\":"@;
            assert(line == h + json_quoted(m) + ",\"type\":\""@ + command + "\"}"@);
            assert(h.take(16) =~= p);
            assert(line.take(16) =~= h.take(16));
        }
    } else {
        assert(line.len() > 2 && line[2] != 'a');
        if has_prefix(line, p) {
            assert(line.take(16)[2] == p[2]);
        }
    }
}

} // verus!
