//! The `bash` tool: runs a shell command natively in the workspace with the
//! user's (allowlisted) shell, an optional per-invocation timeout capped at
//! the configured one, an optional trusted command prefix, and tail
//! truncation of the output. Also the nsjail settings and command line used
//! when commands are jailed.
//!
//! The library decides everything about a run that does not touch the host;
//! spawning, waiting and saving the full output happen in the caller.

use std::time::Duration;

use vstd::prelude::*;

use crate::exec::opt_view;
use crate::jail::{
    append_default, append_flag, append_head_args, append_limit, append_ro_mounts,
    append_shell_tail, append_tmpfs, build_jail_env, default_entry, env_lookup, head_args, jail_env,
    kept_from, limit_args, lookup, pairs, push_pair, push_string, resolve_existing, ro_mount_args,
    shell_tail_args, strs, tmpfs_args, tmpfs_fits, CommandSpec,
};
use crate::text::{decimal, decimal_string, owned, push_str};
use crate::tool::{
    duration, duration_of, duration_parts, json_str_member, json_string_member, secs_of, Sandbox,
    ToolResult,
};
use crate::truncate::{TruncatedBy, TruncationResult};

verus! {

/// Bytes captured per output stream before the reader stops collecting.
pub const MAX_CAPTURE_BYTES: usize = 10485760;

/// Default nsjail address-space limit, in MB.
pub const DEFAULT_NSJAIL_MEMORY_LIMIT_MB: u64 = 4096;

/// Default nsjail process limit.
pub const DEFAULT_NSJAIL_PID_LIMIT: u64 = 256;

/// Default nsjail wall-clock limit: four hours.
pub const DEFAULT_NSJAIL_WALL_TIME_LIMIT_SECS: u64 = 14400;

/// Default nsjail CPU time limit: two cores for the whole wall-clock budget.
pub const DEFAULT_NSJAIL_CPU_TIME_LIMIT_SECS: u64 = 28800;

/// Default size of the jail's `/tmp`, in MB.
pub const DEFAULT_NSJAIL_TMP_SIZE_MB: u64 = 512;

/// Lines kept from the end of a run's output.
pub const TAIL_MAX_LINES: usize = 2000;

/// Bytes kept from the end of a run's output (50 KB).
pub const TAIL_MAX_BYTES: usize = 51200;

/// Whether commands run directly or inside nsjail.
#[derive(Debug, Clone, Copy, PartialEq, Eq, Structural)]
pub enum ExecIsolationMode {
    Native,
    Nsjail,
}

/// nsjail settings (see `crate::exec::NsjailOptions`).
#[derive(Debug, Clone)]
pub struct NsjailOptions {
    pub binary: String,
    pub network_passthrough: bool,
    pub memory_limit_mb: Option<u64>,
    pub pid_limit: Option<u64>,
    pub cpu_time_limit_secs: Option<u64>,
    pub wall_time_limit_secs: Option<u64>,
    pub tmp_size_mb: Option<u64>,
}

impl Default for NsjailOptions {
    fn default() -> (r: Self)
        ensures
            r.binary@ == "nsjail"@,
            !r.network_passthrough,
            r.memory_limit_mb == Some(DEFAULT_NSJAIL_MEMORY_LIMIT_MB),
            r.pid_limit == Some(DEFAULT_NSJAIL_PID_LIMIT),
            r.cpu_time_limit_secs == Some(DEFAULT_NSJAIL_CPU_TIME_LIMIT_SECS),
            r.wall_time_limit_secs == Some(DEFAULT_NSJAIL_WALL_TIME_LIMIT_SECS),
            r.tmp_size_mb == Some(DEFAULT_NSJAIL_TMP_SIZE_MB),
    {
        NsjailOptions {
            binary: owned("nsjail"),
            network_passthrough: false,
            memory_limit_mb: Some(DEFAULT_NSJAIL_MEMORY_LIMIT_MB),
            pid_limit: Some(DEFAULT_NSJAIL_PID_LIMIT),
            cpu_time_limit_secs: Some(DEFAULT_NSJAIL_CPU_TIME_LIMIT_SECS),
            wall_time_limit_secs: Some(DEFAULT_NSJAIL_WALL_TIME_LIMIT_SECS),
            tmp_size_mb: Some(DEFAULT_NSJAIL_TMP_SIZE_MB),
        }
    }
}

/// Everything needed to build an nsjail command line.
pub struct NsjailConfig {
    pub options: NsjailOptions,
    pub ro_dirs: Vec<String>,
    pub ro_etc_files: Vec<String>,
    /// Individual device nodes (`/dev/null`, ...); never the whole `/dev`.
    pub ro_dev_files: Vec<String>,
}

/// Host directories mounted read-only inside the jail, when present.
pub open spec fn ro_bindmount_candidates() -> Seq<Seq<char>> {
    seq!["/bin"@, "/usr"@, "/lib"@, "/lib64"@]
}

/// Individual `/etc` entries mounted read-only, when present: the loader
/// cache, name resolution, users and groups, and the TLS trust store.
pub open spec fn ro_etc_candidates() -> Seq<Seq<char>> {
    seq![
        "/etc/ld.so.cache"@,
        "/etc/ld.so.conf"@,
        "/etc/resolv.conf"@,
        "/etc/hosts"@,
        "/etc/nsswitch.conf"@,
        "/etc/passwd"@,
        "/etc/group"@,
        "/etc/ssl"@,
        "/etc/ca-certificates"@,
        "/etc/alternatives"@,
    ]
}

/// Device nodes mounted read-only, when present.
pub open spec fn ro_dev_candidates() -> Seq<Seq<char>> {
    seq!["/dev/null"@, "/dev/urandom"@, "/dev/random"@, "/dev/zero"@]
}

/// The directory mounts present on this host, in order.
pub fn resolve_ro_bindmounts() -> (r: Vec<String>)
    ensures
        kept_from(strs(r@), ro_bindmount_candidates()),
{
    let cands = vec![owned("/bin"), owned("/usr"), owned("/lib"), owned("/lib64")];
    assert(strs(cands@) =~= ro_bindmount_candidates());
    resolve_existing(cands.as_slice())
}

/// The `/etc` mounts present on this host, in order.
pub fn resolve_ro_etc_files() -> (r: Vec<String>)
    ensures
        kept_from(strs(r@), ro_etc_candidates()),
{
    let cands = vec![
        owned("/etc/ld.so.cache"),
        owned("/etc/ld.so.conf"),
        owned("/etc/resolv.conf"),
        owned("/etc/hosts"),
        owned("/etc/nsswitch.conf"),
        owned("/etc/passwd"),
        owned("/etc/group"),
        owned("/etc/ssl"),
        owned("/etc/ca-certificates"),
        owned("/etc/alternatives"),
    ];
    assert(strs(cands@) =~= ro_etc_candidates());
    resolve_existing(cands.as_slice())
}

/// The device mounts present on this host, in order.
pub fn resolve_ro_dev_files() -> (r: Vec<String>)
    ensures
        kept_from(strs(r@), ro_dev_candidates()),
{
    let cands = vec![owned("/dev/null"), owned("/dev/urandom"), owned("/dev/random"), owned("/dev/zero")];
    assert(strs(cands@) =~= ro_dev_candidates());
    resolve_existing(cands.as_slice())
}

/// The arguments of an nsjail run of `command`: the workspace at
/// `/workspace`, the read-only directory, `/etc` and device mounts, the
/// bounded `/tmp`, no cgroup namespace, the host network when passed
/// through, the resource limits that are set, then `/bin/sh -c command`.
pub open spec fn nsjail_args(
    workspace: Seq<char>,
    command: Seq<char>,
    o: NsjailOptions,
    ro_dirs: Seq<Seq<char>>,
    ro_etc: Seq<Seq<char>>,
    ro_dev: Seq<Seq<char>>,
) -> Seq<Seq<char>> {
    head_args(workspace) + ro_mount_args(ro_dirs) + ro_mount_args(ro_etc) + ro_mount_args(ro_dev)
        + tmpfs_args(o.tmp_size_mb) + seq!["--disable_clone_newcgroup"@] + (if o.network_passthrough {
        seq!["--disable_clone_newnet"@]
    } else {
        Seq::empty()
    }) + limit_args("--rlimit_as"@, o.memory_limit_mb) + limit_args("--rlimit_nproc"@, o.pid_limit)
        + limit_args("--rlimit_cpu"@, o.cpu_time_limit_secs) + limit_args(
        "--time_limit"@,
        o.wall_time_limit_secs,
    ) + shell_tail_args(command)
}

/// The nsjail invocation of `command` in `workspace`; its environment is
/// `jail_env` of `source_env` with `host_path` as the fallback `PATH`.
pub fn build_nsjail_command(
    workspace: &str,
    command: &str,
    source_env: &[(String, String)],
    config: &NsjailConfig,
    host_path: Option<String>,
) -> (c: CommandSpec)
    requires
        tmpfs_fits(config.options.tmp_size_mb),
    ensures
        c.program@ == config.options.binary@,
        c.args_view() == nsjail_args(
            workspace@,
            command@,
            config.options,
            strs(config.ro_dirs@),
            strs(config.ro_etc_files@),
            strs(config.ro_dev_files@),
        ),
        c.current_dir@ == workspace@,
        c.env_view() == jail_env(pairs(source_env@), opt_view(host_path)),
{
    let o = &config.options;
    let mut args: Vec<String> = Vec::new();
    assert(strs(args@) =~= Seq::<Seq<char>>::empty());
    append_head_args(&mut args, workspace);
    append_ro_mounts(&mut args, config.ro_dirs.as_slice());
    append_ro_mounts(&mut args, config.ro_etc_files.as_slice());
    append_ro_mounts(&mut args, config.ro_dev_files.as_slice());
    append_tmpfs(&mut args, o.tmp_size_mb);
    append_flag(&mut args, "--disable_clone_newcgroup");
    let ghost before_net = strs(args@);
    if o.network_passthrough {
        append_flag(&mut args, "--disable_clone_newnet");
    }
    assert(strs(args@) =~= before_net + (if o.network_passthrough {
        seq!["--disable_clone_newnet"@]
    } else {
        Seq::<Seq<char>>::empty()
    }));
    append_limit(&mut args, "--rlimit_as", o.memory_limit_mb);
    append_limit(&mut args, "--rlimit_nproc", o.pid_limit);
    append_limit(&mut args, "--rlimit_cpu", o.cpu_time_limit_secs);
    append_limit(&mut args, "--time_limit", o.wall_time_limit_secs);
    append_shell_tail(&mut args, command);
    assert(strs(args@) =~= nsjail_args(
        workspace@,
        command@,
        config.options,
        strs(config.ro_dirs@),
        strs(config.ro_etc_files@),
        strs(config.ro_dev_files@),
    ));
    let env = build_jail_env(source_env, host_path);
    CommandSpec { program: o.binary.clone(), args, current_dir: owned(workspace), env }
}

// ---------------------------------------------------------------------------
// The tool
// ---------------------------------------------------------------------------

/// Settings of a `bash` tool.
#[derive(Debug)]
pub struct ExecOptions {
    /// The longest a command may run.
    pub timeout: Duration,
    pub max_capture_bytes: usize,
    /// Trusted text run before every command, on its own line (e.g.
    /// `shopt -s expand_aliases`).
    pub command_prefix: Option<String>,
}

/// The longest `Duration` there is: no timeout in practice.
pub open spec fn no_timeout() -> Duration {
    duration_of(18446744073709551615u64, 999999999u32)
}

impl Default for ExecOptions {
    fn default() -> (r: Self)
        ensures
            r.timeout == no_timeout(),
            r.max_capture_bytes == MAX_CAPTURE_BYTES,
            r.command_prefix is None,
    {
        ExecOptions {
            timeout: duration(18446744073709551615u64, 999999999u32),
            max_capture_bytes: MAX_CAPTURE_BYTES,
            command_prefix: None,
        }
    }
}

/// The `bash` tool.
pub struct ExecTool {
    pub workspace: String,
    pub sandbox: Sandbox,
    pub timeout: Duration,
    pub max_capture_bytes: usize,
    pub command_prefix: Option<String>,
}

/// Shells that `SHELL` may select.
pub open spec fn allowed_shell_list() -> Seq<Seq<char>> {
    seq![
        "/bin/sh"@,
        "/bin/bash"@,
        "/bin/dash"@,
        "/bin/zsh"@,
        "/usr/bin/bash"@,
        "/usr/bin/zsh"@,
        "/usr/local/bin/bash"@,
        "/usr/local/bin/zsh"@,
    ]
}

/// The well-known system shells that `SHELL` may select.
pub fn allowed_shells() -> (r: Vec<String>)
    ensures
        strs(r@) == allowed_shell_list(),
{
    let r = vec![
        owned("/bin/sh"),
        owned("/bin/bash"),
        owned("/bin/dash"),
        owned("/bin/zsh"),
        owned("/usr/bin/bash"),
        owned("/usr/bin/zsh"),
        owned("/usr/local/bin/bash"),
        owned("/usr/local/bin/zsh"),
    ];
    assert(strs(r@) =~= allowed_shell_list());
    r
}

/// Whether `shell` is an allowlisted shell.
pub fn is_allowed_shell(shell: &str) -> (r: bool)
    ensures
        r == allowed_shell_list().contains(shell@),
{
    let list = allowed_shells();
    assert(strs(list@).len() == 8);
    let target = owned(shell);
    let mut i: usize = 0;
    while i < list.len()
        invariant
            i <= list.len(),
            list@.len() == 8,
            strs(list@) == allowed_shell_list(),
            target@ == shell@,
            forall|j: int| 0 <= j < i ==> allowed_shell_list()[j] != shell@,
        decreases list.len() - i,
    {
        if list[i] == target {
            assert(allowed_shell_list()[i as int] == shell@);
            return true;
        }
        i = i + 1;
    }
    false
}

/// The shell a run uses: the source environment's `SHELL` when it is
/// allowlisted, `/bin/sh` otherwise.
pub open spec fn chosen_shell(source: Seq<(Seq<char>, Seq<char>)>) -> Seq<char> {
    match lookup(source, "SHELL"@) {
        Some(s) => if allowed_shell_list().contains(s) {
            s
        } else {
            "/bin/sh"@
        },
        None => "/bin/sh"@,
    }
}

/// Picks the shell for a run (see `chosen_shell`).
pub fn select_shell(source_env: &[(String, String)]) -> (r: String)
    ensures
        r@ == chosen_shell(pairs(source_env@)),
{
    match env_lookup(source_env, "SHELL") {
        Some(s) => {
            if is_allowed_shell(s.as_str()) {
                s
            } else {
                owned("/bin/sh")
            }
        },
        None => owned("/bin/sh"),
    }
}

/// The environment of a native run: the whole source environment, and the
/// host `PATH` when the source has none.
pub open spec fn native_env(
    source: Seq<(Seq<char>, Seq<char>)>,
    host_path: Option<Seq<char>>,
) -> Seq<(Seq<char>, Seq<char>)> {
    default_entry(source, source, "PATH"@, host_path)
}

/// The native invocation of `command`: `<shell> -c command` in `workspace`.
pub fn build_shell_command(
    workspace: &str,
    command: &str,
    source_env: &[(String, String)],
    host_path: Option<String>,
) -> (c: CommandSpec)
    ensures
        c.program@ == chosen_shell(pairs(source_env@)),
        c.args_view() == seq!["-c"@, command@],
        c.current_dir@ == workspace@,
        c.env_view() == native_env(pairs(source_env@), opt_view(host_path)),
{
    let shell = select_shell(source_env);
    let mut args: Vec<String> = Vec::new();
    push_string(&mut args, owned("-c"));
    push_string(&mut args, owned(command));
    assert(strs(args@) =~= seq!["-c"@, command@]);
    let mut env: Vec<(String, String)> = Vec::new();
    let mut i: usize = 0;
    while i < source_env.len()
        invariant
            i <= source_env.len(),
            pairs(env@) == pairs(source_env@).take(i as int),
        decreases source_env.len() - i,
    {
        push_pair(&mut env, source_env[i].0.clone(), source_env[i].1.clone());
        assert(pairs(source_env@).take(i as int + 1) =~= pairs(source_env@).take(i as int).push(
            pairs(source_env@)[i as int],
        ));
        i = i + 1;
    }
    assert(pairs(source_env@).take(source_env.len() as int) =~= pairs(source_env@));
    append_default(&mut env, source_env, "PATH", host_path);
    CommandSpec { program: shell, args, current_dir: owned(workspace), env }
}

/// What a run executes, once its arguments are read.
pub struct RunPlan {
    /// The command line handed to the shell, prefix included.
    pub command: String,
    pub timeout: Duration,
}

/// The text of the error result for arguments that are not JSON.
pub open spec fn invalid_json_msg(parser_msg: Seq<char>) -> Seq<char> {
    "invalid JSON arguments: "@ + parser_msg + ". Example: {\"command\": \"ls -la\"}"@
}

/// The text of the error result for arguments without a `command`.
pub open spec fn missing_command_msg() -> Seq<char> {
    "missing 'command' argument. Example: {\"command\": \"ls -la\"}"@
}

/// `prefix` and `command` on separate lines, or `command` alone.
pub open spec fn prefixed(prefix: Option<Seq<char>>, command: Seq<char>) -> Seq<char> {
    match prefix {
        Some(p) => p + seq!['\n'] + command,
        None => command,
    }
}

/// A requested per-invocation timeout of `secs` whole seconds: none for 0.
pub fn requested_timeout(secs: Option<u64>) -> (r: Option<Duration>)
    ensures
        match secs {
            Some(s) if s > 0 => r == Some(duration_of(s, 0)),
            _ => r is None,
        },
{
    match secs {
        Some(s) => if s > 0 {
            Some(duration(s, 0))
        } else {
            None
        },
        None => None,
    }
}

impl ExecTool {
    /// A tool with the default settings.
    pub fn new(workspace: String, sandbox: Sandbox) -> (t: ExecTool)
        ensures
            t.workspace@ == workspace@,
            t.sandbox == sandbox,
            t.timeout == no_timeout(),
            t.max_capture_bytes == MAX_CAPTURE_BYTES,
            t.command_prefix is None,
    {
        ExecTool::with_options(workspace, sandbox, ExecOptions::default())
    }

    /// A tool with the default settings and the given timeout.
    pub fn with_timeout(workspace: String, sandbox: Sandbox, timeout: Duration) -> (t: ExecTool)
        ensures
            t.workspace@ == workspace@,
            t.sandbox == sandbox,
            t.timeout == timeout,
            t.max_capture_bytes == MAX_CAPTURE_BYTES,
            t.command_prefix is None,
    {
        let mut opts = ExecOptions::default();
        opts.timeout = timeout;
        ExecTool::with_options(workspace, sandbox, opts)
    }

    /// A tool with the given settings.
    pub fn with_options(workspace: String, sandbox: Sandbox, options: ExecOptions) -> (t: ExecTool)
        ensures
            t.workspace@ == workspace@,
            t.sandbox == sandbox,
            t.timeout == options.timeout,
            t.max_capture_bytes == options.max_capture_bytes,
            opt_view(t.command_prefix) == opt_view(options.command_prefix),
    {
        ExecTool {
            workspace,
            sandbox,
            timeout: options.timeout,
            max_capture_bytes: options.max_capture_bytes,
            command_prefix: options.command_prefix,
        }
    }

    pub fn definition(&self) -> (d: crate::tool::ToolDefinition)
        ensures
            d.name@ == "bash"@,
            d.description@ == BASH_DESCRIPTION@,
            d.parameters_schema@ == BASH_SCHEMA@,
    {
        crate::tool::ToolDefinition {
            name: owned("bash"),
            description: owned(BASH_DESCRIPTION),
            parameters_schema: owned(BASH_SCHEMA),
        }
    }

    pub fn timeout(&self) -> (r: Duration)
        ensures
            r == self.timeout,
    {
        self.timeout
    }

    /// What a run of `arguments` executes, or the error result the model
    /// reads instead. `requested_secs` is the `timeout` member, rounded to
    /// whole seconds, when it is a number. The command gets the configured
    /// prefix on the line before it; the timeout is the requested one, at
    /// most the configured one.
    pub fn plan_run(&self, arguments: &str, requested_secs: Option<u64>) -> (r: Result<
        RunPlan,
        ToolResult,
    >)
        ensures
            match json_string_member(arguments@, "command"@) {
                None => r matches Err(e) && e.is_error && exists|m: Seq<char>|
                    e.content@ == invalid_json_msg(m),
                Some(None) => r matches Err(e) && e.is_error && e.content@
                    == missing_command_msg(),
                Some(Some(c)) => r matches Ok(p) && p.command@ == prefixed(
                    opt_view(self.command_prefix),
                    c,
                ) && match requested_secs {
                    Some(s) if s > 0 => p.timeout == if s <= secs_of(self.timeout) {
                        duration_of(s, 0)
                    } else {
                        self.timeout
                    },
                    _ => p.timeout == self.timeout,
                },
            },
    {
        let command = match json_str_member(arguments, "command") {
            Err(e) => {
                let mut msg = owned("invalid JSON arguments: ");
                push_str(&mut msg, e.as_str());
                push_str(&mut msg, ". Example: {\"command\": \"ls -la\"}");
                assert(msg@ == invalid_json_msg(e@));
                return Err(ToolResult::error(msg));
            },
            Ok(None) => {
                return Err(
                    ToolResult::error(owned("missing 'command' argument. Example: {\"command\": \"ls -la\"}")),
                );
            },
            Ok(Some(c)) => c,
        };
        let timeout = match requested_secs {
            Some(s) => if s > 0 {
                let (configured_secs, _) = duration_parts(self.timeout);
                if s <= configured_secs {
                    duration(s, 0)
                } else {
                    self.timeout
                }
            } else {
                self.timeout
            },
            None => self.timeout,
        };
        let full = match &self.command_prefix {
            Some(p) => {
                let mut s = p.clone();
                crate::text::push_char(&mut s, '\n');
                push_str(&mut s, command.as_str());
                s
            },
            None => command,
        };
        Ok(RunPlan { command: full, timeout })
    }
}

// ---------------------------------------------------------------------------
// Output
// ---------------------------------------------------------------------------

/// The notice appended to cut output: which lines are shown and where the
/// whole output was saved (noting the byte limit when it was the one that
/// cut), or the limits when saving failed.
pub open spec fn truncation_notice(
    total: nat,
    shown: nat,
    by_bytes: bool,
    combined_len: nat,
    saved_to: Option<Seq<char>>,
) -> Seq<char> {
    match saved_to {
        Some(p) => "\n[Showing lines "@ + decimal(
            (if total >= shown {
                total - shown
            } else {
                0
            }) as nat + 1,
        ) + seq!['-'] + decimal(total) + " of "@ + decimal(total) + (if by_bytes {
            " (50KB limit)"@
        } else {
            Seq::empty()
        }) + ". Full output ("@ + decimal(combined_len) + " bytes) saved to: "@ + p + "]"@,
        None => "\n[Output truncated to last 2000 lines / 51200 bytes]"@,
    }
}

/// The text of a finished run from the tail truncation of its output:
/// the kept text, and the notice when something was cut.
pub fn finish_output(tr: TruncationResult, combined_len: usize, saved_to: Option<String>) -> (r:
    String)
    requires
        tr.total_lines < usize::MAX,
    ensures
        r@ == (if tr.truncated {
            tr.content@ + truncation_notice(
                tr.total_lines as nat,
                tr.output_lines as nat,
                tr.truncated_by == Some(TruncatedBy::Bytes),
                combined_len as nat,
                opt_view(saved_to),
            )
        } else {
            tr.content@
        }),
{
    let mut out = tr.content;
    if !tr.truncated {
        return out;
    }
    let ghost c0 = out@;
    match saved_to {
        Some(p) => {
            let total = tr.total_lines;
            let start: usize = if total >= tr.output_lines {
                total - tr.output_lines
            } else {
                0
            };
            push_str(&mut out, "\n[Showing lines ");
            let d1 = decimal_string((start + 1) as u64);
            push_str(&mut out, d1.as_str());
            crate::text::push_char(&mut out, '-');
            let d2 = decimal_string(total as u64);
            push_str(&mut out, d2.as_str());
            push_str(&mut out, " of ");
            push_str(&mut out, d2.as_str());
            if tr.truncated_by == Some(TruncatedBy::Bytes) {
                push_str(&mut out, " (50KB limit)");
            }
            push_str(&mut out, ". Full output (");
            let d3 = decimal_string(combined_len as u64);
            push_str(&mut out, d3.as_str());
            push_str(&mut out, " bytes) saved to: ");
            push_str(&mut out, p.as_str());
            push_str(&mut out, "]");
            assert(out@ =~= c0 + truncation_notice(
                tr.total_lines as nat,
                tr.output_lines as nat,
                tr.truncated_by == Some(TruncatedBy::Bytes),
                combined_len as nat,
                Some(p@),
            ));
        },
        None => {
            push_str(&mut out, "\n[Output truncated to last 2000 lines / 51200 bytes]");
        },
    }
    out
}


/// The description of the `bash` tool.
pub const BASH_DESCRIPTION: &'static str = "Execute a bash command in the current working directory. Returns stdout and stderr. Output is truncated to last 2000 lines or 50KB (whichever is hit first). If truncated, full output is saved to a temp file. Optionally provide a timeout in seconds. Example: {\"command\": \"ls -la\"}";

/// The parameter schema of the `bash` tool.
pub const BASH_SCHEMA: &'static str = "{\"type\":\"object\",\"properties\":{\"command\":{\"type\":\"string\",\"description\":\"Bash command to execute\"},\"timeout\":{\"type\":\"number\",\"description\":\"Timeout in seconds (optional, capped at configured maximum)\"}},\"required\":[\"command\"]}";

} // verus!
