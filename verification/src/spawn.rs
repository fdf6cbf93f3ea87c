//! The `spawn` tool: starts a child agent as a background process that the
//! parent drives over a Unix socket. The library reads the arguments,
//! decides the child's command line and socket, keeps the registry of
//! children, and renders the replies; starting and reaping the process
//! happen in the caller.

use vstd::prelude::*;

use crate::jail::{push_string, strs};
use crate::subagent_registry::{
    agent_id_problem, listed, pids_of_running, validate_agent_id_format, ExitSignal, SubagentEntry,
    SubagentRegistry,
};
use crate::text::{chars_of, decimal, decimal_string, matches_at, occurs_at, owned, push_str};
use crate::tool::{
    json_bool_member, json_bool_member_of, json_member_text, json_member_text_of, json_str_member,
    json_string_member, ToolDefinition, ToolResult,
};

verus! {

// ---------------------------------------------------------------------------
// Config paths
// ---------------------------------------------------------------------------

/// `..` stands as a whole path component at `i` of `s`.
pub open spec fn parent_component_at(s: Seq<char>, i: int) -> bool {
    occurs_at(s, seq!['.', '.'], i) && (i == 0 || s[i - 1] == '/') && (i + 2 == s.len() || s[i
        + 2] == '/')
}

/// Some component of the path `s` is `..`.
pub open spec fn has_parent_component(s: Seq<char>) -> bool {
    exists|i: int| parent_component_at(s, i)
}

/// A config path is accepted unless it climbs with `..`.
pub fn validate_config_path(s: &str) -> (r: Result<String, String>)
    ensures
        !has_parent_component(s@) ==> (r matches Ok(p) && p@ == s@),
        has_parent_component(s@) ==> (r matches Err(m) && m@ == "config path '"@ + s@
            + "' contains '..' which is not allowed"@),
{
    let cs = chars_of(s);
    let dots: [char; 2] = ['.', '.'];
    assert(dots@ =~= seq!['.', '.']);
    let mut i: usize = 0;
    while i < cs.len()
        invariant
            i <= cs.len(),
            cs@ == s@,
            dots@ == seq!['.', '.'],
            forall|j: int| 0 <= j < i ==> !parent_component_at(s@, j),
        decreases cs.len() - i,
    {
        if matches_at(cs.as_slice(), dots.as_slice(), i) && (i == 0 || cs[i - 1] == '/') && (i
            + 2 == cs.len() || cs[i + 2] == '/') {
            assert(parent_component_at(s@, i as int));
            let mut m = owned("config path '");
            push_str(&mut m, s);
            push_str(&mut m, "' contains '..' which is not allowed");
            return Err(m);
        }
        i = i + 1;
    }
    assert forall|j: int| !parent_component_at(s@, j) by {
        if j >= i as int {
            assert(!occurs_at(s@, seq!['.', '.'], j));
        }
    }
    Ok(owned(s))
}

/// The config a child is started with: the one given explicitly, or else
/// the one the parent itself runs with.
pub fn effective_config_path(explicit: Option<&String>, inherited: Option<String>) -> (r: Option<
    String,
>)
    ensures
        r == match explicit {
            Some(e) => Some(*e),
            None => inherited,
        },
{
    match explicit {
        Some(e) => Some(e.clone()),
        None => inherited,
    }
}

// ---------------------------------------------------------------------------
// Child configuration
// ---------------------------------------------------------------------------

/// How a child agent is to be started.
#[derive(Debug, Clone)]
pub struct SubagentConfig {
    /// The first prompt, if any.
    pub task: Option<String>,
    /// The child's name (and session), when given.
    pub agent_id: Option<String>,
    pub restrict_to_workspace: bool,
    /// A system prompt for the child.
    pub system: Option<String>,
    /// A config file for the child.
    pub config_path: Option<String>,
    pub workflow: bool,
    pub workflow_guards: bool,
    /// A workflow assigned by value, as JSON text.
    pub workflow_spec: Option<String>,
    /// A model override for the child.
    pub model: Option<String>,
}

/// The arguments that start a child agent in socket mode: session name,
/// socket, persistence, then the optional system prompt, model, config,
/// parent, workflow flags, workflow spec file and `--no-sandbox` when the
/// parent is not confined to its workspace.
pub open spec fn child_cli_args(
    session_name: Seq<char>,
    socket_path: Seq<char>,
    c: SubagentConfig,
    effective_config: Option<Seq<char>>,
    parent_id: Option<Seq<char>>,
    restrict_to_workspace: bool,
    workflow_spec_path: Option<Seq<char>>,
) -> Seq<Seq<char>> {
    seq![
        "agent"@,
        "--mode"@,
        "uds"@,
        "-s"@,
        session_name,
        "--socket"@,
        socket_path,
        "--persist"@,
    ] + opt_pair("--system"@, crate::exec::opt_view(c.system)) + opt_pair(
        "--model"@,
        crate::exec::opt_view(c.model),
    ) + opt_pair("--config"@, effective_config) + opt_pair("--parent-id"@, parent_id) + (if c.workflow {
        seq!["--workflow"@]
    } else {
        Seq::empty()
    }) + (if c.workflow_guards {
        seq!["--workflow-guards"@]
    } else {
        Seq::empty()
    }) + opt_pair("--workflow-spec"@, workflow_spec_path) + (if !restrict_to_workspace {
        seq!["--no-sandbox"@]
    } else {
        Seq::empty()
    })
}

/// `flag value` when there is a value.
pub open spec fn opt_pair(flag: Seq<char>, v: Option<Seq<char>>) -> Seq<Seq<char>> {
    match v {
        Some(x) => seq![flag, x],
        None => Seq::empty(),
    }
}

fn push_opt_pair(args: &mut Vec<String>, flag: &str, v: Option<&String>)
    ensures
        strs(final(args)@) == strs(old(args)@) + opt_pair(
            flag@,
            match v {
                Some(x) => Some(x@),
                None => None,
            },
        ),
{
    let ghost start = strs(args@);
    match v {
        Some(x) => {
            push_string(args, owned(flag));
            push_string(args, x.clone());
        },
        None => {},
    }
    assert(strs(args@) =~= start + opt_pair(
        flag@,
        match v {
            Some(x) => Some(x@),
            None => None,
        },
    ));
}

fn push_flag_if(args: &mut Vec<String>, flag: &str, on: bool)
    ensures
        strs(final(args)@) == strs(old(args)@) + (if on {
            seq![flag@]
        } else {
            Seq::<Seq<char>>::empty()
        }),
{
    let ghost start = strs(args@);
    if on {
        push_string(args, owned(flag));
    }
    assert(strs(args@) =~= start + if on {
        seq![flag@]
    } else {
        Seq::<Seq<char>>::empty()
    });
}

/// The command line of a child agent (see `child_cli_args`).
#[verifier::rlimit(30)]
pub fn build_child_cli_args(
    session_name: &str,
    socket_path: &str,
    config: &SubagentConfig,
    effective_config: Option<&String>,
    parent_id: Option<&String>,
    restrict_to_workspace: bool,
    workflow_spec_path: Option<&String>,
) -> (r: Vec<String>)
    ensures
        strs(r@) == child_cli_args(
            session_name@,
            socket_path@,
            *config,
            match effective_config {
                Some(x) => Some(x@),
                None => None,
            },
            match parent_id {
                Some(x) => Some(x@),
                None => None,
            },
            restrict_to_workspace,
            match workflow_spec_path {
                Some(x) => Some(x@),
                None => None,
            },
        ),
{
    let mut args: Vec<String> = Vec::new();
    push_string(&mut args, owned("agent"));
    push_string(&mut args, owned("--mode"));
    push_string(&mut args, owned("uds"));
    push_string(&mut args, owned("-s"));
    push_string(&mut args, owned(session_name));
    push_string(&mut args, owned("--socket"));
    push_string(&mut args, owned(socket_path));
    push_string(&mut args, owned("--persist"));
    push_opt_pair(&mut args, "--system", config.system.as_ref());
    push_opt_pair(&mut args, "--model", config.model.as_ref());
    push_opt_pair(&mut args, "--config", effective_config);
    push_opt_pair(&mut args, "--parent-id", parent_id);
    push_flag_if(&mut args, "--workflow", config.workflow);
    push_flag_if(&mut args, "--workflow-guards", config.workflow_guards);
    push_opt_pair(&mut args, "--workflow-spec", workflow_spec_path);
    push_flag_if(&mut args, "--no-sandbox", !restrict_to_workspace);
    assert(strs(args@) =~= child_cli_args(
        session_name@,
        socket_path@,
        *config,
        match effective_config {
            Some(x) => Some(x@),
            None => None,
        },
        match parent_id {
            Some(x) => Some(x@),
            None => None,
        },
        restrict_to_workspace,
        match workflow_spec_path {
            Some(x) => Some(x@),
            None => None,
        },
    ));
    args
}

/// How a child exited, from its wait status: killed by a signal, or its
/// exit code; neither when waiting failed.
pub fn exit_signal_of(waited: bool, code: Option<i32>, signal: Option<i32>) -> (r: ExitSignal)
    ensures
        !waited ==> r == (ExitSignal { exit_code: None, signal: None }),
        (waited && signal is Some) ==> r == (ExitSignal { exit_code: None, signal }),
        (waited && signal is None) ==> r == (ExitSignal { exit_code: code, signal: None }),
{
    if !waited {
        ExitSignal { exit_code: None, signal: None }
    } else if signal.is_some() {
        ExitSignal { exit_code: None, signal }
    } else {
        ExitSignal { exit_code: code, signal: None }
    }
}

// ---------------------------------------------------------------------------
// The tool
// ---------------------------------------------------------------------------

/// The `spawn` tool.
#[derive(Debug)]
pub struct SpawnTool {
    /// When non-empty, the only agent ids that may be spawned.
    pub allowed_agents: Vec<String>,
    pub restrict_to_workspace: bool,
    /// The agent's base directory; empty when children are not started as
    /// processes.
    pub base_dir: String,
    /// Where children's sockets are created.
    pub socket_dir: String,
    /// This agent's own id, given to its children as their parent.
    pub parent_id: Option<String>,
    pub registry: SubagentRegistry,
}

/// The session name of a child: its agent id, or `subagent`.
pub open spec fn session_name_of(c: SubagentConfig) -> Seq<char> {
    match c.agent_id {
        Some(id) => id@,
        None => "subagent"@,
    }
}

/// The reply of a successful spawn.
pub open spec fn running_msg(session: Seq<char>) -> Seq<char> {
    "Subagent '"@ + session + "' is running. Use agent_cmd to interact."@
}

/// The socket of a child in `socket_dir`.
pub open spec fn child_socket(socket_dir: Seq<char>, session: Seq<char>) -> Seq<char> {
    crate::jail::joined_path(socket_dir, "quecto-agent-"@ + session + ".sock"@)
}

/// What a launch needs once the arguments are read.
pub struct LaunchPlan {
    pub session_name: String,
    pub socket_path: String,
    pub args: Vec<String>,
}

fn session_name(config: &SubagentConfig) -> (r: String)
    ensures
        r@ == session_name_of(*config),
{
    match &config.agent_id {
        Some(id) => id.clone(),
        None => owned("subagent"),
    }
}

/// Membership of an id in the allowed agents.
pub open spec fn allowed_id(allowed: Seq<String>, id: Seq<char>) -> bool {
    allowed.len() == 0 || listed(allowed, id)
}

/// A `spawn` call is refused when its text is not JSON, a member has the
/// wrong type, the config path climbs with `..`, guards are asked for
/// without the workflow, or the agent id is malformed or not allowed.
/// A workflow spec given by value has a `template` object.
pub open spec fn spec_has_template(spec: Seq<char>) -> bool {
    match json_member_text_of(spec, "template"@) {
        Some(Some(t)) => t.len() > 0 && t[0] == '{',
        _ => false,
    }
}

pub open spec fn spawn_args_refused(arguments: Seq<char>, allowed: Seq<String>) -> bool {
    ||| json_string_member(arguments, "task"@) is None
    ||| json_string_member(arguments, "agent_id"@) is None
    ||| json_string_member(arguments, "system"@) is None
    ||| json_string_member(arguments, "config"@) is None
    ||| json_bool_member_of(arguments, "workflow"@) is None
    ||| json_bool_member_of(arguments, "workflow_guards"@) is None
    ||| json_member_text_of(arguments, "workflow_spec"@) is None
    ||| (match json_string_member(arguments, "config"@) {
        Some(Some(p)) => has_parent_component(p),
        _ => false,
    })
    ||| (json_bool_member_of(arguments, "workflow_guards"@) == Some(Some(true))
        && json_bool_member_of(arguments, "workflow"@) != Some(Some(true)))
    ||| (match json_member_text_of(arguments, "workflow_spec"@) {
        Some(Some(t)) => t != "null"@ && !spec_has_template(t),
        _ => false,
    })
    ||| (match json_string_member(arguments, "agent_id"@) {
        Some(Some(id)) => agent_id_problem(id) is Some || !allowed_id(allowed, id),
        _ => false,
    })
}

impl SpawnTool {
    /// A tool that registers children without starting processes.
    pub fn new(allowed_agents: Vec<String>, restrict_to_workspace: bool) -> (t: SpawnTool)
        ensures
            t.allowed_agents == allowed_agents,
            t.restrict_to_workspace == restrict_to_workspace,
            t.base_dir@.len() == 0,
            t.parent_id is None,
            t.registry.view() == Map::<Seq<char>, SubagentEntry>::empty(),
    {
        SpawnTool {
            allowed_agents,
            restrict_to_workspace,
            base_dir: String::new(),
            socket_dir: owned("/tmp"),
            parent_id: None,
            registry: SubagentRegistry::new(),
        }
    }

    /// A tool that starts children as processes from `base_dir`.
    pub fn with_base_dir(allowed_agents: Vec<String>, restrict_to_workspace: bool, base_dir: String) -> (t:
        SpawnTool)
        ensures
            t.allowed_agents == allowed_agents,
            t.restrict_to_workspace == restrict_to_workspace,
            t.base_dir@ == base_dir@,
            t.parent_id is None,
            t.registry.view() == Map::<Seq<char>, SubagentEntry>::empty(),
    {
        let mut t = SpawnTool::new(allowed_agents, restrict_to_workspace);
        t.base_dir = base_dir;
        t
    }

    /// The same tool with children's sockets in `socket_dir`.
    pub fn with_socket_dir(self, socket_dir: String) -> (t: SpawnTool)
        ensures
            t.socket_dir@ == socket_dir@,
            t.base_dir == self.base_dir,
            t.allowed_agents == self.allowed_agents,
            t.restrict_to_workspace == self.restrict_to_workspace,
            t.parent_id == self.parent_id,
            t.registry.view() == self.registry.view(),
    {
        let mut t = self;
        t.socket_dir = socket_dir;
        t
    }

    pub fn definition(&self) -> (d: ToolDefinition)
        ensures
            d.name@ == "spawn"@,
    {
        ToolDefinition {
            name: owned("spawn"),
            description: owned(
                "Spawn a subagent as a background UDS-mode process. Returns immediately and the child is auto-noted PASSIVELY: when it completes, errors, or exits you automatically receive a one-line completion note \u{2014} non-blocking, entering your context at your NEXT turn (no manual await needed). Multiple completions are deduped/coalesced into a single note. The note is a summary only \u{2014} use agent_cmd get_messages_tail or get_messages to read the child's full output. Blocking via agent_cmd command=await is OPTIONAL: use it only when you must wait synchronously (same turn) until the child reaches idle/exited/timeout/error before continuing.",
            ),
            parameters_schema: owned(
                "{\"type\":\"object\",\"properties\":{\"task\":{\"type\":\"string\",\"description\":\"Initial task to send to the subagent (optional \u{2014} starts idle if omitted)\"},\"agent_id\":{\"type\":\"string\",\"description\":\"Session name for the subagent (used to address it via agent_cmd)\"},\"system\":{\"type\":\"string\",\"description\":\"System prompt for the subagent\"},\"config\":{\"type\":\"string\",\"description\":\"Path to a config file to pass to the child agent via --config (optional)\"},\"workflow\":{\"type\":\"boolean\",\"description\":\"Start the child agent with --workflow (requires --mode uds, always enabled for spawned agents)\"},\"workflow_guards\":{\"type\":\"boolean\",\"description\":\"Start the child agent with --workflow-guards (requires --workflow)\"},\"workflow_spec\":{\"type\":\"object\",\"description\":\"Assign a binding workflow to the child by value.\",\"properties\":{\"template\":{\"type\":\"object\"}}}}}",
            ),
        }
    }

    /// Reads a `spawn` call: optional `task`, `agent_id`, `system`, `config`
    /// (refused when it climbs with `..`), `workflow` and `workflow_guards`
    /// (guards need the workflow) and `workflow_spec`. A given agent id must
    /// be well-formed and, when the tool has a list, allowed.
    pub fn parse_args(&self, arguments: &str) -> (r: Result<SubagentConfig, String>)
        ensures
            json_string_member(arguments@, "task"@) is None ==> r is Err,
            r matches Ok(c) ==> {
                &&& json_string_member(arguments@, "task"@) == Some(crate::exec::opt_view(c.task))
                &&& json_string_member(arguments@, "agent_id"@) == Some(
                    crate::exec::opt_view(c.agent_id),
                )
                &&& json_string_member(arguments@, "system"@) == Some(
                    crate::exec::opt_view(c.system),
                )
                &&& c.workflow == (json_bool_member_of(arguments@, "workflow"@) == Some(
                    Some(true),
                ))
                &&& c.workflow_guards == (json_bool_member_of(arguments@, "workflow_guards"@)
                    == Some(Some(true)))
                &&& !c.workflow_guards || c.workflow
                &&& c.restrict_to_workspace == self.restrict_to_workspace
                &&& c.model is None
                &&& match json_string_member(arguments@, "config"@) {
                    Some(Some(p)) => !has_parent_component(p) && crate::exec::opt_view(
                        c.config_path,
                    ) == Some(p),
                    _ => c.config_path is None,
                }
                &&& match c.agent_id {
                    Some(id) => agent_id_problem(id@) is None && allowed_id(
                        self.allowed_agents@,
                        id@,
                    ),
                    None => true,
                }
                &&& match json_member_text_of(arguments@, "workflow_spec"@) {
                    Some(Some(t)) => if t == "null"@ {
                        c.workflow_spec is None
                    } else {
                        crate::exec::opt_view(c.workflow_spec) == Some(t)
                    },
                    _ => c.workflow_spec is None,
                }
            },
            r is Err <== spawn_args_refused(arguments@, self.allowed_agents@),
            r is Err ==> spawn_args_refused(arguments@, self.allowed_agents@),
    {
        let task = match json_str_member(arguments, "task") {
            Err(e) => {
                let mut m = owned("invalid JSON: ");
                push_str(&mut m, e.as_str());
                return Err(m);
            },
            Ok(t) => t,
        };
        let agent_id = match json_str_member(arguments, "agent_id") {
            Err(e) => {
                return Err(e);
            },
            Ok(t) => t,
        };
        let system = match json_str_member(arguments, "system") {
            Err(e) => {
                return Err(e);
            },
            Ok(t) => t,
        };
        let config_path = match json_str_member(arguments, "config") {
            Err(e) => {
                return Err(e);
            },
            Ok(None) => None,
            Ok(Some(p)) => match validate_config_path(p.as_str()) {
                Ok(v) => Some(v),
                Err(e) => {
                    return Err(e);
                },
            },
        };
        let workflow = match json_bool_member(arguments, "workflow") {
            Err(e) => {
                return Err(e);
            },
            Ok(b) => b == Some(true),
        };
        let workflow_guards = match json_bool_member(arguments, "workflow_guards") {
            Err(e) => {
                return Err(e);
            },
            Ok(b) => b == Some(true),
        };
        if workflow_guards && !workflow {
            return Err(owned("workflow_guards requires workflow to also be true"));
        }
        let workflow_spec = match json_member_text(arguments, "workflow_spec") {
            Err(e) => {
                return Err(e);
            },
            Ok(None) => None,
            Ok(Some(t)) => if t == owned("null") {
                None
            } else {
                match json_member_text(t.as_str(), "template") {
                    Ok(Some(tt)) => {
                        let tc = crate::text::chars_of(tt.as_str());
                        if !(tc.len() > 0 && tc[0] == '{') {
                            return Err(owned("invalid workflow_spec: `template` must be an object"));
                        }
                    },
                    _ => {
                        return Err(owned("invalid workflow_spec: missing field `template`"));
                    },
                }
                Some(t)
            },
        };
        match &agent_id {
            Some(id) => {
                assert(json_string_member(arguments@, "agent_id"@) == Some(Some(id@)));
                match validate_agent_id_format(id.as_str()) {
                    Ok(()) => {},
                    Err(e) => {
                        return Err(e);
                    },
                }
                if self.allowed_agents.len() > 0 && !is_allowed(self.allowed_agents.as_slice(), id.as_str()) {
                    let mut m = owned("agent_id '");
                    push_str(&mut m, id.as_str());
                    push_str(&mut m, "' is not allowed to be spawned");
                    return Err(m);
                }
            },
            None => {},
        }
        Ok(
            SubagentConfig {
                task,
                agent_id,
                restrict_to_workspace: self.restrict_to_workspace,
                system,
                config_path,
                workflow,
                workflow_guards,
                workflow_spec,
                model: None,
            },
        )
    }

    /// A spawn without a process (no base directory): the child is
    /// registered under its session name with a stub socket, as a child of
    /// this agent, and reported running.
    pub fn stub_spawn(&mut self, config: &SubagentConfig) -> (r: ToolResult)
        requires
            old(self).base_dir@.len() == 0,
        ensures
            !r.is_error,
            r.content@ == running_msg(session_name_of(*config)),
            final(self).registry.view().contains_key(session_name_of(*config)),
            final(self).registry.view()[session_name_of(*config)].socket_path@ == "/stub/quecto-agent-"@
                + session_name_of(*config) + ".sock"@,
            final(self).registry.view()[session_name_of(*config)].pid == 0,
            final(self).registry.view()[session_name_of(*config)].parent_id == old(self).parent_id,
            final(self).registry.view() == old(self).registry.view().insert(
                session_name_of(*config),
                final(self).registry.view()[session_name_of(*config)],
            ),
    {
        let name = session_name(config);
        let mut socket = owned("/stub/quecto-agent-");
        push_str(&mut socket, name.as_str());
        push_str(&mut socket, ".sock");
        let mut entry = SubagentEntry::new(socket, 0);
        entry.parent_id = self.parent_id.clone();
        let key = name.clone();
        self.registry.insert(key, entry);
        ToolResult::text(running_message(name.as_str()))
    }

    /// Plans the launch of a child process: refused (as an error result)
    /// when a child of that name is registered; otherwise its socket in the
    /// socket directory and its command line.
    pub fn plan_launch(
        &self,
        config: &SubagentConfig,
        inherited_config: Option<String>,
        workflow_spec_path: Option<&String>,
    ) -> (r: Result<LaunchPlan, ToolResult>)
        ensures
            self.registry.view().contains_key(session_name_of(*config)) ==> (r matches Err(e)
                && e.is_error && e.content@ == "Failed to spawn subagent: agent '"@
                + session_name_of(*config) + "' is already running"@),
            !self.registry.view().contains_key(session_name_of(*config)) ==> (r matches Ok(p) && {
                &&& p.session_name@ == session_name_of(*config)
                &&& p.socket_path@ == child_socket(self.socket_dir@, session_name_of(*config))
                &&& strs(p.args@) == child_cli_args(
                    session_name_of(*config),
                    p.socket_path@,
                    *config,
                    match config.config_path {
                        Some(x) => Some(x@),
                        None => crate::exec::opt_view(inherited_config),
                    },
                    crate::exec::opt_view(self.parent_id),
                    self.restrict_to_workspace,
                    match workflow_spec_path {
                        Some(x) => Some(x@),
                        None => None,
                    },
                )
            }),
    {
        let name = session_name(config);
        if self.registry.contains_key(name.as_str()) {
            let mut m = owned("Failed to spawn subagent: agent '");
            push_str(&mut m, name.as_str());
            push_str(&mut m, "' is already running");
            return Err(ToolResult::error(m));
        }
        let mut file = owned("quecto-agent-");
        push_str(&mut file, name.as_str());
        push_str(&mut file, ".sock");
        let socket_path = crate::jail::join_paths(self.socket_dir.as_str(), file.as_str());
        let cfg = effective_config_path(config.config_path.as_ref(), inherited_config);
        let args = build_child_cli_args(
            name.as_str(),
            socket_path.as_str(),
            config,
            cfg.as_ref(),
            self.parent_id.as_ref(),
            self.restrict_to_workspace,
            workflow_spec_path,
        );
        Ok(LaunchPlan { session_name: name, socket_path, args })
    }

    /// Registers a started child under its session name, as a child of
    /// this agent.
    pub fn register_launched(&mut self, session_name: String, socket_path: String, pid: u32)
        ensures
            final(self).registry.view().contains_key(session_name@),
            final(self).registry.view()[session_name@].socket_path@ == socket_path@,
            final(self).registry.view()[session_name@].pid == pid,
            final(self).registry.view()[session_name@].parent_id == old(self).parent_id,
            final(self).registry.view()[session_name@].status
                == crate::subagent_registry::SubagentStatus::Starting,
            final(self).registry.view() == old(self).registry.view().insert(
                session_name@,
                final(self).registry.view()[session_name@],
            ),
    {
        let mut entry = SubagentEntry::new(socket_path, pid);
        entry.parent_id = self.parent_id.clone();
        self.registry.insert(session_name, entry);
    }
}

/// The reply of a successful spawn.
pub fn running_message(session: &str) -> (r: String)
    ensures
        r@ == running_msg(session@),
{
    let mut m = owned("Subagent '");
    push_str(&mut m, session);
    push_str(&mut m, "' is running. Use agent_cmd to interact.");
    m
}

/// The reply when the arguments were refused.
pub fn failed_spawn(reason: &str) -> (r: ToolResult)
    ensures
        r.is_error,
        r.content@ == "Failed to spawn subagent: "@ + reason@,
{
    let mut m = owned("Failed to spawn subagent: ");
    push_str(&mut m, reason);
    ToolResult::error(m)
}

fn is_allowed(allowed: &[String], id: &str) -> (r: bool)
    ensures
        r == listed(allowed@, id@),
{
    let target = owned(id);
    let mut i: usize = 0;
    while i < allowed.len()
        invariant
            i <= allowed.len(),
            target@ == id@,
            forall|j: int| 0 <= j < i ==> allowed@[j]@ != id@,
        decreases allowed.len() - i,
    {
        if allowed[i] == target {
            return true;
        }
        i = i + 1;
    }
    false
}

/// Shuts the children down: empties the registry and hands back the
/// process ids to be sent `SIGTERM` (those of children started as
/// processes).
pub fn shutdown_all(registry: &mut SubagentRegistry) -> (r: Vec<u32>)
    ensures
        final(registry).view() == Map::<Seq<char>, SubagentEntry>::empty(),
        pids_of_running(old(registry).view(), r@),
{
    registry.take_pids()
}

/// The refusal of a workflow spec that takes `spec_bytes` bytes once
/// serialised, when at most `max_bytes` may be handed to a child: `None`
/// when it fits.
pub fn workflow_spec_too_large(spec_bytes: usize, max_bytes: usize) -> (r: Option<String>)
    ensures
        spec_bytes <= max_bytes ==> r is None,
        spec_bytes > max_bytes ==> (r matches Some(m) && m@ == "workflow spec too large: "@
            + decimal(spec_bytes as nat) + " bytes (max "@ + decimal(max_bytes as nat) + ")"@),
{
    if spec_bytes <= max_bytes {
        return None;
    }
    let mut m = owned("workflow spec too large: ");
    let n = decimal_string(spec_bytes as u64);
    push_str(&mut m, n.as_str());
    push_str(&mut m, " bytes (max ");
    let k = decimal_string(max_bytes as u64);
    push_str(&mut m, k.as_str());
    push_str(&mut m, ")");
    Some(m)
}

} // verus!
