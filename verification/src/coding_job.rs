//! The `coding_job` tool: the agent's handle on coding repositories and
//! jobs. The library reads a call and routes it to one action of the job
//! service, with the arguments that action needs; the service itself (and
//! the requests it reads) lives outside this crate.

use vstd::prelude::*;

use crate::text::{has_prefix, owned, push_str, str_is};
use crate::tool::{
    json_bool_member, json_bool_member_of, json_str_member, json_string_member, ToolDefinition,
    ToolResult,
};

verus! {

/// The `coding_job` tool.
#[derive(Debug)]
pub struct CodingJobTool {}

/// An action of the job service that a call routes to.
#[derive(Debug)]
pub enum CodingAction {
    /// Create a repository (the request is read from the call).
    Create,
    /// Import a repository (the request is read from the call).
    Import,
    /// Start a job (the request is read from the call).
    Run,
    /// The status of a job, by job id.
    StatusByJob(String),
    /// The status of a job, by run id.
    StatusByRun(String),
    /// Cancel a job.
    Cancel(String),
    /// Clean a terminal job up, keeping its artifacts or not.
    Cleanup { job_id: String, keep_artifacts: bool },
    /// Clean all terminal jobs up (the request is read from the call).
    CleanupAll,
    /// List jobs (the request is read from the call).
    List,
}

/// The reply to the `message` action outside subagent coordinator mode.
pub open spec fn message_refusal() -> Seq<char> {
    "message action requires subagent coordinator mode. Set tools.coding.coordinator_mode = \"subagent\" in config."@
}

/// `r` routes `args` whose `action` is `act`.
pub open spec fn routes(args: Seq<char>, act: Seq<char>, r: Result<CodingAction, String>) -> bool {
    if act == "create"@ {
        r matches Ok(CodingAction::Create)
    } else if act == "import"@ {
        r matches Ok(CodingAction::Import)
    } else if act == "run"@ {
        r matches Ok(CodingAction::Run)
    } else if act == "status"@ {
        match (json_string_member(args, "job_id"@), json_string_member(args, "run_id"@)) {
            (Some(Some(j)), _) => r matches Ok(CodingAction::StatusByJob(x)) && x@ == j,
            (Some(None), Some(Some(k))) => r matches Ok(CodingAction::StatusByRun(x)) && x@ == k,
            (Some(None), Some(None)) => r matches Err(m) && m@
                == "status requires job_id or run_id"@,
            _ => r is Err,
        }
    } else if act == "cancel"@ {
        match json_string_member(args, "job_id"@) {
            Some(Some(j)) => r matches Ok(CodingAction::Cancel(x)) && x@ == j,
            Some(None) => r matches Err(m) && m@ == "cancel requires job_id"@,
            None => r is Err,
        }
    } else if act == "cleanup"@ {
        match (json_string_member(args, "job_id"@), json_bool_member_of(args, "keep_artifacts"@)) {
            (Some(Some(j)), Some(k)) => r matches Ok(CodingAction::Cleanup { job_id, keep_artifacts })
                && job_id@ == j && keep_artifacts == match k {
                Some(b) => b,
                None => true,
            },
            (Some(None), _) => r matches Err(m) && m@ == "cleanup requires job_id"@,
            _ => r is Err,
        }
    } else if act == "cleanup_all"@ {
        r matches Ok(CodingAction::CleanupAll)
    } else if act == "list"@ {
        r matches Ok(CodingAction::List)
    } else if act == "message"@ {
        r matches Err(m) && m@ == message_refusal()
    } else {
        r matches Err(m) && m@ == "unknown action: "@ + act
    }
}

impl CodingJobTool {
    pub fn new() -> (t: CodingJobTool) {
        CodingJobTool {}
    }

    pub fn definition(&self) -> (d: ToolDefinition)
        ensures
            d.name@ == "coding_job"@,
    {
        ToolDefinition {
            name: owned("coding_job"),
            description: owned(
                "\
Manage coding repositories and jobs. Repos live in the workspace directory.

WORKFLOW:
1. create     - Create a new empty repo (git init + initial commit) in the workspace.
2. import     - Clone a remote repo (HTTPS/SSH) into the workspace.
3. run        - Launch an async coding job on a workspace repo. A sandboxed worker \
                gets a full clone, checks out a job branch, and works toward the goal \
                using edit/grep/find/read tools. Returns job_id and run_id.
4. status     - Poll job progress (state, todos, artifacts, last_event_ts). \
                Each call advances the job internally.
5. cancel     - Stop a running job and kill its worker.
6. cleanup    - Remove a single terminal job's artifacts.
7. cleanup_all- Remove all terminal jobs in bulk (filter by state, skip non-terminal).
8. list       - List jobs with metadata (created_at, state_entered_at, last_event_ts).
9. message    - Send a freeform text instruction to the coordinator agent. Use this \
                to triage issues, ask the coordinator to investigate stuck jobs, \
                change priorities, or give any open-ended directive. \
                (Requires subagent coordinator mode.)

REPO RULES:
- 'repo' must be a directory name in the workspace (e.g. \"my-project\"), not a URL.
- Use 'create' to make a new repo from scratch, or 'import' to clone from GitHub.
- 'base_ref' must be a valid branch/tag/commit in the repo (e.g. \"main\"). \
  On invalid_base_ref the error includes the default branch and available refs.
- Each run() targets exactly one repo. Multi-repo goals require multiple jobs.

JOB STATES: queued -> preparing -> running -> succeeded/failed/canceled
- 'running' jobs are automatically killed if max_wall_seconds elapses.

VISIBILITY:
- status() returns last_event_ts/last_event_type so you can detect hung jobs.
- list() returns created_at and state_entered_at; use (now - state_entered_at) \
  to detect jobs that have been stuck in 'running' longer than expected.

TYPICAL USAGE:
- New project:      create(name) -> run(repo=name, base_ref=\"main\", goal=\"...\")
- Existing remote:  import(url) -> run(repo=name, base_ref=\"main\", goal=\"...\")
- Monitor:          status(job_id) repeatedly until succeeded/failed
- Triage:           message(text=\"job X seems stuck, investigate and retry if needed\")
- Bulk cleanup:     cleanup_all() or cleanup_all(state_filter=[\"succeeded\",\"failed\"])
- Done:             cleanup(job_id)",
            ),
            parameters_schema: owned(
                r#"{"type":"object","properties":{"action":{"type":"string","enum":["create","import","run","status","cancel","cleanup","cleanup_all","list","message"],"description":"The action to perform"},"name":{"type":"string","description":"Repository name (for create/import)"},"description":{"type":"string","description":"Project description (for create, optional)"},"url":{"type":"string","description":"Remote git URL to clone (for import)"},"goal":{"type":"string","description":"Goal description (for run)"},"repo":{"type":"string","description":"Workspace repo name (for run)"},"base_ref":{"type":"string","description":"Base branch/ref (for run, e.g. main)"},"priority":{"type":"string","enum":["low","medium","high"],"description":"Job priority (for run, default: medium)"},"labels":{"type":"array","items":{"type":"string"},"description":"Labels (for run)"},"skills":{"type":"array","items":{"type":"string"},"description":"Skill names (for run)"},"profile":{"type":"string","description":"Profile name (for run, default: default)"},"max_wall_seconds":{"type":"integer","description":"Wall-clock timeout in seconds (for run)"},"job_id":{"type":"string","description":"Job ID (for status/cancel/cleanup)"},"run_id":{"type":"string","description":"Run ID (for status)"},"state_filter":{"type":"array","items":{"type":"string"},"description":"Filter by job states (for list/cleanup_all)"},"keep_artifacts":{"type":"boolean","description":"Keep artifacts on cleanup/cleanup_all (default: true)"},"terminal_only":{"type":"boolean","description":"Skip non-terminal jobs in cleanup_all instead of erroring (default: true)"},"text":{"type":"string","description":"Freeform text instruction for the coordinator (for message)"}},"required":["action"]}"#,
            ),
        }
    }

    /// Routes a call to the action it names (see `routes`): an error when
    /// the text is not JSON or names no action.
    pub fn route_action(&self, arguments: &str) -> (r: Result<CodingAction, String>)
        ensures
            json_string_member(arguments@, "action"@) is None ==> (r matches Err(m) && has_prefix(
                m@,
                "invalid JSON: "@,
            )),
            json_string_member(arguments@, "action"@) == Some(None::<Seq<char>>) ==> (r matches Err(
                m,
            ) && m@ == "missing required field: action"@),
            forall|act: Seq<char>|
                json_string_member(arguments@, "action"@) == Some(Some(act)) ==> routes(
                    arguments@,
                    act,
                    r,
                ),
    {
        let action = match json_str_member(arguments, "action") {
            Err(e) => {
                let mut m = owned("invalid JSON: ");
                push_str(&mut m, e.as_str());
                proof {
                    reveal_strlit("invalid JSON: ");
                }
                assert(m@.take(14) =~= "invalid JSON: "@);
                return Err(m);
            },
            Ok(None) => {
                return Err(owned("missing required field: action"));
            },
            Ok(Some(a)) => a,
        };
        let a = action.as_str();
        if str_is(a, "create") {
            Ok(CodingAction::Create)
        } else if str_is(a, "import") {
            Ok(CodingAction::Import)
        } else if str_is(a, "run") {
            Ok(CodingAction::Run)
        } else if str_is(a, "status") {
            let job = json_str_member(arguments, "job_id");
            let run = json_str_member(arguments, "run_id");
            match (job, run) {
                (Ok(Some(j)), _) => Ok(CodingAction::StatusByJob(j)),
                (Ok(None), Ok(Some(k))) => Ok(CodingAction::StatusByRun(k)),
                (Ok(None), Ok(None)) => Err(owned("status requires job_id or run_id")),
                (Err(e), _) => Err(e),
                (_, Err(e)) => Err(e),
            }
        } else if str_is(a, "cancel") {
            match json_str_member(arguments, "job_id") {
                Ok(Some(j)) => Ok(CodingAction::Cancel(j)),
                Ok(None) => Err(owned("cancel requires job_id")),
                Err(e) => Err(e),
            }
        } else if str_is(a, "cleanup") {
            match json_str_member(arguments, "job_id") {
                Ok(Some(j)) => match json_bool_member(arguments, "keep_artifacts") {
                    Ok(k) => Ok(
                        CodingAction::Cleanup {
                            job_id: j,
                            keep_artifacts: match k {
                                Some(b) => b,
                                None => true,
                            },
                        },
                    ),
                    Err(e) => Err(e),
                },
                Ok(None) => Err(owned("cleanup requires job_id")),
                Err(e) => Err(e),
            }
        } else if str_is(a, "cleanup_all") {
            Ok(CodingAction::CleanupAll)
        } else if str_is(a, "list") {
            Ok(CodingAction::List)
        } else if str_is(a, "message") {
            Err(
                owned(
                    "message action requires subagent coordinator mode. Set tools.coding.coordinator_mode = \"subagent\" in config.",
                ),
            )
        } else {
            let mut m = owned("unknown action: ");
            push_str(&mut m, a);
            Err(m)
        }
    }
}

/// The result of a call: the service's JSON answer, or its error as an
/// error result.
pub fn coding_job_result(outcome: Result<String, String>) -> (r: ToolResult)
    ensures
        match outcome {
            Ok(c) => !r.is_error && r.content@ == c@,
            Err(e) => r.is_error && r.content@ == e@,
        },
{
    match outcome {
        Ok(c) => ToolResult::text(c),
        Err(e) => ToolResult::error(e),
    }
}

/// A service error as the call's reply.
pub fn format_command_error(err: &str) -> (r: String)
    ensures
        r@ == "error: "@ + err@,
{
    let mut m = owned("error: ");
    push_str(&mut m, err);
    m
}

} // verus!
