//! The `cron` tool: scheduled jobs the agent adds, removes, lists, enables
//! and disables. The library reads a call, builds the job to add, names
//! the job an action is about, and writes the replies and the listing; the
//! job store (and the clock) belong to the caller.

use vstd::prelude::*;

use crate::command_match::{to_lowercase, unicode_lowercase};
use crate::text::{decimal, decimal_string, has_prefix, owned, push_str, str_is};
use crate::tool::{
    json_bool_member, json_bool_member_of, json_str_member, json_string_member, json_u64_member,
    json_u64_member_of, ToolDefinition, ToolResult,
};

verus! {

/// When a job runs.
#[derive(Debug, Clone, PartialEq, Eq)]
pub enum CronSchedule {
    /// Every this many seconds.
    Interval { seconds: u64 },
    /// On a cron expression.
    Cron { expression: String },
}

/// A scheduled job.
#[derive(Debug, Clone, PartialEq, Eq)]
pub struct CronJob {
    pub id: String,
    pub name: String,
    /// The prompt the job runs.
    pub message: String,
    pub schedule: CronSchedule,
    pub enabled: bool,
    /// Where results go (`telegram:<chat_id>`), when anywhere.
    pub deliver_to: Option<String>,
    pub last_error: Option<String>,
    /// When it last ran (Unix seconds), 0 for never.
    pub last_run_at: u64,
    /// The job removes itself after one successful run.
    pub run_once: bool,
}

/// `s` with each space replaced by `-`.
pub open spec fn dashed(s: Seq<char>) -> Seq<char> {
    s.map_values(|c: char| if c == ' ' {
        '-'
    } else {
        c
    })
}

/// A job's id: its name in lower case with spaces as dashes.
pub open spec fn job_id_of(name: Seq<char>) -> Seq<char> {
    dashed(unicode_lowercase(name))
}

/// The id of the job named `name` (see `job_id_of`).
pub fn job_id(name: &str) -> (r: String)
    ensures
        r@ == job_id_of(name@),
{
    let low = to_lowercase(name);
    let cs = crate::text::chars_of(low.as_str());
    let mut out = owned("");
    proof {
        reveal_strlit("");
    }
    let mut i: usize = 0;
    while i < cs.len()
        invariant
            i <= cs.len(),
            cs@ == unicode_lowercase(name@),
            out@ == dashed(cs@.take(i as int)),
        decreases cs.len() - i,
    {
        let c = if cs[i] == ' ' {
            '-'
        } else {
            cs[i]
        };
        crate::text::push_char(&mut out, c);
        assert(dashed(cs@.take(i as int + 1)) =~= dashed(cs@.take(i as int)).push(c));
        i = i + 1;
    }
    assert(cs@.take(cs@.len() as int) =~= cs@);
    out
}

/// What a call asks the store to do.
#[derive(Debug)]
pub enum CronAction {
    /// Add this job unless one of its name exists.
    Add(CronJob),
    /// Remove the job named so.
    Remove(String),
    /// List the jobs.
    List,
    /// Enable (`true`) or disable the job named so.
    SetEnabled(String, bool),
}

/// What `route_cron_action` gives for a call.
pub open spec fn cron_route(arguments: Seq<char>, r: Result<CronAction, String>) -> bool {
    &&& (json_string_member(arguments, "action"@) is None ==> (r matches Err(m) && has_prefix(
            m@,
            "invalid JSON: "@,
        )))
    &&& (json_string_member(arguments, "action"@) == Some(None::<Seq<char>>) ==> (r matches Err(m)
            && m@ == "missing required field: action"@))
    &&& (forall|a: Seq<char>|
            json_string_member(arguments, "action"@) == Some(Some(a)) && a != "add"@ && a
                != "remove"@ && a != "list"@ && a != "enable"@ && a != "disable"@ ==> (r matches Err(
                m,
            ) && m@ == "unknown action: "@ + a))
    &&& (json_string_member(arguments, "action"@) == Some(Some("list"@)) ==> r matches Ok(
            CronAction::List,
        ))
    &&& (forall|a: Seq<char>|
            json_string_member(arguments, "action"@) == Some(Some(a)) && (a == "remove"@ || a
                == "enable"@ || a == "disable"@) ==> match json_string_member(arguments, "name"@) {
                Some(Some(n)) => if a == "remove"@ {
                    r matches Ok(CronAction::Remove(x)) && x@ == n
                } else {
                    r matches Ok(CronAction::SetEnabled(x, e)) && x@ == n && e == (a == "enable"@)
                },
                Some(None) => r matches Err(m) && m@ == "missing field: name"@,
                None => r is Err,
            })
    &&& (json_string_member(arguments, "action"@) == Some(Some("add"@)) ==> match r {
            Ok(CronAction::Add(job)) => {
                &&& json_string_member(arguments, "name"@) == Some(Some(job.name@))
                &&& json_string_member(arguments, "message"@) == Some(Some(job.message@))
                &&& job.id@ == job_id_of(job.name@)
                &&& job.enabled && job.last_error is None && job.last_run_at == 0
                &&& json_string_member(arguments, "deliver_to"@) == Some(
                    crate::exec::opt_view(job.deliver_to),
                )
                &&& json_bool_member_of(arguments, "run_once"@) is Some
                &&& job.run_once == (json_bool_member_of(arguments, "run_once"@) == Some(Some(true)))
                &&& match job.schedule {
                    CronSchedule::Cron { expression } => json_string_member(
                        arguments,
                        "cron_expression"@,
                    ) == Some(Some(expression@)),
                    CronSchedule::Interval { seconds } => json_string_member(
                        arguments,
                        "cron_expression"@,
                    ) == Some(None::<Seq<char>>) && json_u64_member_of(
                        arguments,
                        "interval_seconds"@,
                    ) == Some(Some(seconds)) && seconds > 0,
                }
            },
            Ok(_) => false,
            Err(m) => json_string_member(arguments, "name"@) == Some(None::<Seq<char>>) ==> m@
                == "missing field: name"@,
        })
}

/// Reads a `cron` call into the action it asks for: an error when it is
/// not JSON, lacks a string `action`, names an unknown one, or lacks what
/// the action needs (`name`; for `add` also `message` and a schedule: a
/// cron expression, else a positive interval).
pub fn route_cron_action(arguments: &str) -> (r: Result<CronAction, String>)
    ensures
        cron_route(arguments@, r),
{
    let action = match json_str_member(arguments, "action") {
        Err(e) => {
            let mut m = owned("invalid JSON: ");
            push_str(&mut m, e.as_str());
            proof {
                reveal_strlit("invalid JSON: ");
            }
            assert(m@.take(14) =~= "invalid JSON: "@);
            return Err(m);
        },
        Ok(None) => {
            return Err(owned("missing required field: action"));
        },
        Ok(Some(a)) => a,
    };
    let a = action.as_str();
    proof {
        reveal_strlit("list");
        reveal_strlit("add");
        reveal_strlit("remove");
        reveal_strlit("enable");
        reveal_strlit("disable");
        assert("list"@.len() == 4 && "add"@.len() == 3 && "remove"@.len() == 6 && "enable"@.len()
            == 6 && "disable"@.len() == 7);
        assert("remove"@[0] != "enable"@[0]);
    }
    if str_is(a, "list") {
        return Ok(CronAction::List);
    }
    let is_add = str_is(a, "add");
    let is_remove = str_is(a, "remove");
    let is_enable = str_is(a, "enable");
    let is_disable = str_is(a, "disable");
    if !(is_add || is_remove || is_enable || is_disable) {
        let mut m = owned("unknown action: ");
        push_str(&mut m, a);
        return Err(m);
    }
    let name = match json_str_member(arguments, "name") {
        Err(e) => {
            return Err(e);
        },
        Ok(None) => {
            return Err(owned("missing field: name"));
        },
        Ok(Some(n)) => n,
    };
    if is_remove {
        return Ok(CronAction::Remove(name));
    }
    if is_enable || is_disable {
        return Ok(CronAction::SetEnabled(name, is_enable));
    }
    let message = match json_str_member(arguments, "message") {
        Ok(Some(m)) => m,
        Ok(None) => {
            return Err(owned("missing field: message"));
        },
        Err(e) => {
            return Err(e);
        },
    };
    let deliver_to = match json_str_member(arguments, "deliver_to") {
        Ok(d) => d,
        Err(e) => {
            return Err(e);
        },
    };
    let run_once = match json_bool_member(arguments, "run_once") {
        Ok(b) => b == Some(true),
        Err(e) => {
            return Err(e);
        },
    };
    let schedule = match json_str_member(arguments, "cron_expression") {
        Ok(Some(expr)) => CronSchedule::Cron { expression: expr },
        Ok(None) => match json_u64_member(arguments, "interval_seconds") {
            Ok(Some(secs)) => {
                if secs == 0 {
                    return Err(owned("interval_seconds must be greater than 0"));
                }
                CronSchedule::Interval { seconds: secs }
            },
            Ok(None) => {
                return Err(owned("must provide either cron_expression or interval_seconds"));
            },
            Err(e) => {
                return Err(e);
            },
        },
        Err(e) => {
            return Err(e);
        },
    };
    let id = job_id(name.as_str());
    Ok(
        CronAction::Add(
            CronJob {
                id,
                name,
                message,
                schedule,
                enabled: true,
                deliver_to,
                last_error: None,
                last_run_at: 0,
                run_once,
            },
        ),
    )
}

/// The reply to an `add`: added, or refused because a job of that name
/// exists.
pub fn add_reply(name: &str, added: bool) -> (r: Result<String, String>)
    ensures
        added ==> (r matches Ok(m) && m@ == "Job '"@ + name@ + "' added successfully."@),
        !added ==> (r matches Err(m) && m@ == "job '"@ + name@ + "' already exists"@),
{
    if added {
        let mut m = owned("Job '");
        push_str(&mut m, name);
        push_str(&mut m, "' added successfully.");
        Ok(m)
    } else {
        let mut m = owned("job '");
        push_str(&mut m, name);
        push_str(&mut m, "' already exists");
        Err(m)
    }
}

/// The error when no job has that name.
pub fn job_not_found(name: &str) -> (r: String)
    ensures
        r@ == "job '"@ + name@ + "' not found"@,
{
    let mut m = owned("job '");
    push_str(&mut m, name);
    push_str(&mut m, "' not found");
    m
}

/// The reply to a `remove`.
pub fn removed_reply(name: &str) -> (r: String)
    ensures
        r@ == "Job '"@ + name@ + "' removed."@,
{
    let mut m = owned("Job '");
    push_str(&mut m, name);
    push_str(&mut m, "' removed.");
    m
}

/// The reply to an `enable` or `disable`.
pub fn set_enabled_reply(name: &str, enabled: bool) -> (r: String)
    ensures
        r@ == "Job '"@ + name@ + "' "@ + (if enabled {
            "enabled"@
        } else {
            "disabled"@
        }) + "."@,
{
    let mut m = owned("Job '");
    push_str(&mut m, name);
    push_str(&mut m, "' ");
    if enabled {
        push_str(&mut m, "enabled");
    } else {
        push_str(&mut m, "disabled");
    }
    push_str(&mut m, ".");
    m
}

/// How a job's schedule is shown.
pub open spec fn schedule_text(s: CronSchedule) -> Seq<char> {
    match s {
        CronSchedule::Interval { seconds } => "every "@ + decimal(seconds as nat) + "s"@,
        CronSchedule::Cron { expression } => "cron: "@ + expression@,
    }
}

/// When a job last ran, as shown at `now`.
pub open spec fn last_run_text(last: u64, now: u64) -> Seq<char> {
    if last == 0 {
        "never"@
    } else {
        decimal((if now >= last {
            now - last
        } else {
            0
        }) as nat) + "s ago"@
    }
}

/// `label` and the value, when there is one.
pub open spec fn opt_suffix(label: Seq<char>, o: Option<String>) -> Seq<char> {
    match o {
        Some(v) => label + v@,
        None => seq![],
    }
}

/// One line of the listing: name, one-shot tag, status, schedule, last
/// run (`never`, or how long ago at `now`), and the last error and the
/// delivery target when there are.
pub open spec fn job_line(j: CronJob, now: u64) -> Seq<char> {
    "- "@ + j.name@ + (if j.run_once {
        " [one-shot]"@
    } else {
        seq![]
    }) + " ["@ + (if j.enabled {
        "enabled"@
    } else {
        "disabled"@
    }) + "] ("@ + schedule_text(j.schedule) + ") last_run: "@ + last_run_text(j.last_run_at, now)
        + opt_suffix(" last_error: "@, j.last_error) + opt_suffix(" deliver_to: "@, j.deliver_to)
        + "\n"@
}

fn schedule_text_exec(s: &CronSchedule) -> (r: String)
    ensures
        r@ == schedule_text(*s),
{
    match s {
        CronSchedule::Interval { seconds } => {
            let mut m = owned("every ");
            let d = decimal_string(*seconds);
            push_str(&mut m, d.as_str());
            push_str(&mut m, "s");
            m
        },
        CronSchedule::Cron { expression } => {
            let mut m = owned("cron: ");
            push_str(&mut m, expression.as_str());
            m
        },
    }
}

fn last_run_exec(last: u64, now: u64) -> (r: String)
    ensures
        r@ == last_run_text(last, now),
{
    if last == 0 {
        owned("never")
    } else {
        let ago: u64 = if now >= last {
            now - last
        } else {
            0
        };
        let mut m = decimal_string(ago);
        push_str(&mut m, "s ago");
        m
    }
}

fn push_opt_suffix(m: &mut String, label: &str, o: &Option<String>)
    ensures
        final(m)@ == old(m)@ + opt_suffix(label@, *o),
{
    match o {
        Some(v) => {
            push_str(m, label);
            push_str(m, v.as_str());
        },
        None => {
            assert(old(m)@ + Seq::<char>::empty() =~= old(m)@);
        },
    }
}

/// The lines of several jobs.
pub open spec fn job_lines(js: Seq<CronJob>, now: u64) -> Seq<char>
    decreases js.len(),
{
    if js.len() == 0 {
        seq![]
    } else {
        job_lines(js.drop_last(), now) + job_line(js.last(), now)
    }
}

fn job_line_exec(j: &CronJob, now: u64) -> (r: String)
    ensures
        r@ == job_line(*j, now),
{
    let mut m = owned("- ");
    push_str(&mut m, j.name.as_str());
    if j.run_once {
        push_str(&mut m, " [one-shot]");
    }
    let ghost a = m@;
    push_str(&mut m, " [");
    push_str(&mut m, if j.enabled { "enabled" } else { "disabled" });
    push_str(&mut m, "] (");
    let st = schedule_text_exec(&j.schedule);
    push_str(&mut m, st.as_str());
    push_str(&mut m, ") last_run: ");
    let lr = last_run_exec(j.last_run_at, now);
    push_str(&mut m, lr.as_str());
    push_opt_suffix(&mut m, " last_error: ", &j.last_error);
    push_opt_suffix(&mut m, " deliver_to: ", &j.deliver_to);
    push_str(&mut m, "\n");
    proof {
        assert(a == "- "@ + j.name@ + (if j.run_once {
            " [one-shot]"@
        } else {
            seq![]
        }));
    }
    assert(m@ =~= job_line(*j, now));
    m
}

/// The listing of the jobs at time `now` (Unix seconds): a note when there
/// are none; otherwise their count and one line each.
pub fn format_cron_list(jobs: &[CronJob], now: u64) -> (r: String)
    ensures
        jobs@.len() == 0 ==> r@ == "No cron jobs configured."@,
        jobs@.len() > 0 ==> r@ == decimal(jobs@.len() as nat) + " cron job(s):\n"@ + job_lines(
            jobs@,
            now,
        ),
{
    if jobs.len() == 0 {
        return owned("No cron jobs configured.");
    }
    let mut out = decimal_string(jobs.len() as u64);
    push_str(&mut out, " cron job(s):\n");
    let ghost head = out@;
    let mut i: usize = 0;
    while i < jobs.len()
        invariant
            i <= jobs@.len(),
            out@ == head + job_lines(jobs@.take(i as int), now),
        decreases jobs.len() - i,
    {
        assert(jobs@.take(i as int + 1).drop_last() =~= jobs@.take(i as int));
        let l = job_line_exec(&jobs[i], now);
        push_str(&mut out, l.as_str());
        assert(out@ =~= head + job_lines(jobs@.take(i as int + 1), now));
        i = i + 1;
    }
    assert(jobs@.take(jobs@.len() as int) =~= jobs@);
    out
}

/// The result of a call: the reply, or the error as an error result.
pub fn cron_result(outcome: Result<String, String>) -> (r: ToolResult)
    ensures
        match outcome {
            Ok(c) => !r.is_error && r.content@ == c@,
            Err(e) => r.is_error && r.content@ == e@,
        },
{
    match outcome {
        Ok(c) => ToolResult::text(c),
        Err(e) => ToolResult::error(e),
    }
}

/// The `cron` tool's definition.
pub fn cron_definition() -> (d: ToolDefinition)
    ensures
        d.name@ == "cron"@,
{
    ToolDefinition {
        name: owned("cron"),
        description: owned("Manage scheduled cron jobs (add, remove, list, enable, disable)"),
        parameters_schema: owned(
            "{\"type\":\"object\",\"properties\":{\"action\":{\"type\":\"string\",\"enum\":[\"add\",\"remove\",\"list\",\"enable\",\"disable\"],\"description\":\"The cron action to perform\"},\"name\":{\"type\":\"string\",\"description\":\"Job name (for add/remove/enable/disable)\"},\"message\":{\"type\":\"string\",\"description\":\"The message/prompt to execute (for add)\"},\"interval_seconds\":{\"type\":\"integer\",\"description\":\"Interval in seconds (for add with interval)\"},\"cron_expression\":{\"type\":\"string\",\"description\":\"Cron expression (for add with cron schedule)\"},\"deliver_to\":{\"type\":\"string\",\"description\":\"Optional delivery target in format 'telegram:<chat_id>', e.g. 'telegram:123456789'\"},\"run_once\":{\"type\":\"boolean\",\"description\":\"If true, job auto-removes after one successful execution (for reminders/delayed actions)\"}},\"required\":[\"action\"]}",
        ),
    }
}


/// No two jobs share an id.
pub open spec fn ids_unique(s: Seq<CronJob>) -> bool {
    forall|i: int, j: int| 0 <= i < j < s.len() ==> s[i].id@ != s[j].id@
}

/// Some job has this id.
pub open spec fn has_id(s: Seq<CronJob>, id: Seq<char>) -> bool {
    exists|i: int| 0 <= i < s.len() && s[i].id@ == id
}

/// `i` is the first job named `name`.
pub open spec fn first_named(s: Seq<CronJob>, name: Seq<char>, i: int) -> bool {
    &&& 0 <= i < s.len()
    &&& s[i].name@ == name
    &&& forall|j: int| 0 <= j < i ==> s[j].name@ != name
}

/// No job is named `name`.
pub open spec fn none_named(s: Seq<CronJob>, name: Seq<char>) -> bool {
    forall|j: int| 0 <= j < s.len() ==> s[j].name@ != name
}

/// Job `j` enabled or disabled.
pub open spec fn with_enabled(j: CronJob, enabled: bool) -> CronJob {
    CronJob { enabled, ..j }
}

/// What carrying out `action` on the jobs `s` at time `now` gives: the
/// reply, or the error, and the jobs after it. A job is added unless its id
/// is taken; `remove`, `enable` and `disable` act on the first job of that
/// name.
pub open spec fn cron_outcome(s: Seq<CronJob>, action: CronAction, now: u64, r: Result<String, String>, t: Seq<CronJob>) -> bool {
    match action {
        CronAction::Add(job) => if has_id(s, job.id@) {
            t == s && (r matches Err(m) && m@ == "job '"@ + job.name@ + "' already exists"@)
        } else {
            t == s.push(job) && (r matches Ok(m) && m@ == "Job '"@ + job.name@ + "' added successfully."@)
        },
        CronAction::Remove(name) => match r {
            Ok(m) => exists|i: int| first_named(s, name@, i) && t == s.remove(i) && m@ == "Job '"@ + name@ + "' removed."@,
            Err(m) => none_named(s, name@) && t == s && m@ == "job '"@ + name@ + "' not found"@,
        },
        CronAction::List => t == s && (r matches Ok(m) && m@ == (if s.len() == 0 {
            "No cron jobs configured."@
        } else {
            decimal(s.len() as nat) + " cron job(s):\n"@ + job_lines(s, now)
        })),
        CronAction::SetEnabled(name, e) => match r {
            Ok(m) => exists|i: int| first_named(s, name@, i) && t == s.update(i, with_enabled(s[i], e)) && m@ == "Job '"@ + name@ + "' "@ + (if e {
                "enabled"@
            } else {
                "disabled"@
            }) + "."@,
            Err(m) => none_named(s, name@) && t == s && m@ == "job '"@ + name@ + "' not found"@,
        },
    }
}

/// The `cron` tool over the jobs of its store, held here as a list: the
/// caller loads them before a call and saves them after.
#[derive(Debug)]
pub struct CronTool {
    jobs: Vec<CronJob>,
}

fn id_taken(jobs: &[CronJob], id: &str) -> (r: bool)
    ensures
        r == has_id(jobs@, id@),
{
    let mut i: usize = 0;
    while i < jobs.len()
        invariant
            i <= jobs@.len(),
            forall|k: int| 0 <= k < i ==> jobs@[k].id@ != id@,
        decreases jobs.len() - i,
    {
        if str_is(jobs[i].id.as_str(), id) {
            return true;
        }
        i = i + 1;
    }
    false
}

fn find_named(jobs: &[CronJob], name: &str) -> (r: Option<usize>)
    ensures
        match r {
            Some(i) => first_named(jobs@, name@, i as int),
            None => none_named(jobs@, name@),
        },
{
    let mut i: usize = 0;
    while i < jobs.len()
        invariant
            i <= jobs@.len(),
            forall|k: int| 0 <= k < i ==> jobs@[k].name@ != name@,
        decreases jobs.len() - i,
    {
        if str_is(jobs[i].name.as_str(), name) {
            return Some(i);
        }
        i = i + 1;
    }
    None
}

impl CronTool {
    /// The tool over these jobs.
    pub fn new(jobs: Vec<CronJob>) -> (r: CronTool)
        ensures
            r.jobs() == jobs@,
    {
        CronTool { jobs }
    }

    /// The jobs the tool holds.
    pub closed spec fn jobs(&self) -> Seq<CronJob> {
        self.jobs@
    }

    /// The jobs, in the order they were added.
    pub fn job_list(&self) -> (r: &[CronJob])
        ensures
            r@ == self.jobs(),
    {
        self.jobs.as_slice()
    }

    /// The jobs, given back to be saved.
    pub fn into_jobs(self) -> (r: Vec<CronJob>)
        ensures
            r@ == self.jobs(),
    {
        self.jobs
    }

    /// The tool's definition.
    pub fn definition(&self) -> (d: ToolDefinition)
        ensures
            d.name@ == "cron"@,
    {
        cron_definition()
    }

    /// Carries out an action at time `now` (Unix seconds), as
    /// `cron_outcome` says.
    pub fn apply(&mut self, action: CronAction, now: u64) -> (r: Result<String, String>)
        ensures
            cron_outcome(old(self).jobs(), action, now, r, final(self).jobs()),
    {
        match action {
            CronAction::Add(job) => {
                if id_taken(self.jobs.as_slice(), job.id.as_str()) {
                    let mut m = owned("job '");
                    push_str(&mut m, job.name.as_str());
                    push_str(&mut m, "' already exists");
                    Err(m)
                } else {
                    let mut m = owned("Job '");
                    push_str(&mut m, job.name.as_str());
                    push_str(&mut m, "' added successfully.");
                    self.jobs.push(job);
                    Ok(m)
                }
            },
            CronAction::Remove(name) => match find_named(self.jobs.as_slice(), name.as_str()) {
                Some(i) => {
                    let ghost s = self.jobs@;
                    self.jobs.remove(i);
                    assert(first_named(s, name@, i as int));
                    Ok(removed_reply(name.as_str()))
                },
                None => Err(job_not_found(name.as_str())),
            },
            CronAction::List => Ok(format_cron_list(self.jobs.as_slice(), now)),
            CronAction::SetEnabled(name, e) => match find_named(self.jobs.as_slice(), name.as_str()) {
                Some(i) => {
                    let ghost s = self.jobs@;
                    let mut j = self.jobs.remove(i);
                    j.enabled = e;
                    self.jobs.insert(i, j);
                    assert(self.jobs@ =~= s.update(i as int, with_enabled(s[i as int], e)));
                    assert(first_named(s, name@, i as int));
                    Ok(set_enabled_reply(name.as_str(), e))
                },
                None => Err(job_not_found(name.as_str())),
            },
        }
    }

    /// Runs a `cron` call at time `now`: reads it (`route_cron_action`), then
    /// carries it out (`apply`); a refused call changes nothing.
    pub fn execute(&mut self, arguments: &str, now: u64) -> (r: ToolResult)
        ensures
            exists|a: Result<CronAction, String>| #[trigger] cron_route(arguments@, a) && match a {
                Ok(action) => exists|o: Result<String, String>| #[trigger] cron_outcome(old(self).jobs(), action, now, o, final(self).jobs()) && match o {
                    Ok(c) => !r.is_error && r.content@ == c@,
                    Err(e) => r.is_error && r.content@ == e@,
                },
                Err(e) => r.is_error && r.content@ == e@ && final(self).jobs() == old(self).jobs(),
            },
    {
        match route_cron_action(arguments) {
            Ok(action) => cron_result(self.apply(action, now)),
            Err(e) => ToolResult::error(e),
        }
    }
}

/// Every action keeps the jobs' ids distinct.
pub proof fn law_ids_stay_unique(s: Seq<CronJob>, action: CronAction, now: u64, r: Result<String, String>, t: Seq<CronJob>)
    requires
        ids_unique(s),
        cron_outcome(s, action, now, r, t),
    ensures
        ids_unique(t),
{
    match action {
        CronAction::Add(job) => {
            if !has_id(s, job.id@) {
                assert forall|i: int, j: int| 0 <= i < j < t.len() implies t[i].id@ != t[j].id@ by {
                    if j == s.len() {
                        assert(t[i] == s[i]);
                    }
                }
            }
        },
        CronAction::Remove(name) => {
            if r is Ok {
                let k = choose|k: int| first_named(s, name@, k) && t == s.remove(k);
                assert forall|i: int, j: int| 0 <= i < j < t.len() implies t[i].id@ != t[j].id@ by {
                    let a = if i < k { i } else { i + 1 };
                    let b = if j < k { j } else { j + 1 };
                    assert(t[i] == s[a] && t[j] == s[b]);
                }
            }
        },
        CronAction::List => {},
        CronAction::SetEnabled(name, e) => {
            if r is Ok {
                let k = choose|k: int| first_named(s, name@, k) && t == s.update(k, with_enabled(s[k], e));
                assert forall|i: int, j: int| 0 <= i < j < t.len() implies t[i].id@ != t[j].id@ by {
                    assert(t[i].id == s[i].id && t[j].id == s[j].id);
                }
            }
        },
    }
}

} // verus!
