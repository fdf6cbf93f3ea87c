//! The `exec` tool: runs a shell command in the workspace, natively or inside
//! an nsjail container, with a timeout and a cap on captured output.
//!
//! The library decides everything about a run that does not touch the host:
//! the tool's configuration at construction, the argument parsing, the
//! environment a child sees, the exact command line, and the rendering of
//! the captured output. Spawning and waiting happen in the caller.

use std::time::Duration;

use vstd::prelude::*;

use crate::jail::{
    append_flag, append_head_args, append_limit, append_ro_mounts, append_shell_tail, append_tmpfs,
    build_jail_env, copy_strings, default_entry, has_key, head_args, is_secret_key, jail_env,
    limit_args, pairs, public_entries, push_string, ro_mount_args, shell_tail_args, strs,
    tmpfs_args, tmpfs_fits, CommandSpec,
};
use crate::text::{
    chars_of, decimal, decimal_string, has_prefix, i32_string, lines, owned, push_char, push_str,
    signed_decimal, starts_with,
};
use crate::tool::{
    duration, duration_of, json_str_member, json_string_member, DomainError, Sandbox, ToolResult,
};
use crate::truncate::{tail_content, tail_kept, truncate_tail};

verus! {

/// Default run timeout, in seconds.
pub const DEFAULT_EXEC_TIMEOUT_SECS: u64 = 30;

/// Bytes captured per output stream before the reader stops collecting.
pub const MAX_CAPTURE_BYTES: usize = 10485760;

/// Default nsjail address-space limit, in MB.
pub const DEFAULT_NSJAIL_MEMORY_LIMIT_MB: u64 = 512;

/// Default nsjail process limit.
pub const DEFAULT_NSJAIL_PID_LIMIT: u64 = 256;

/// Default nsjail CPU time limit, in seconds.
pub const DEFAULT_NSJAIL_CPU_TIME_LIMIT_SECS: u64 = 30;

/// Default nsjail wall-clock limit, in seconds.
pub const DEFAULT_NSJAIL_WALL_TIME_LIMIT_SECS: u64 = 30;

/// Default size of the jail's `/tmp`, in MB.
pub const DEFAULT_NSJAIL_TMP_SIZE_MB: u64 = 64;

/// Whether commands run directly or inside nsjail.
#[derive(Debug, Clone, Copy, PartialEq, Eq, Structural)]
pub enum ExecIsolationMode {
    Native,
    Nsjail,
}

/// nsjail settings. Resource limits are rlimits (`--rlimit_as`,
/// `--rlimit_nproc`, `--rlimit_cpu`) plus a wall-clock `--time_limit`; the
/// cgroup namespace is always disabled.
#[derive(Debug, Clone)]
pub struct NsjailOptions {
    /// The nsjail executable, a bare name searched in trusted directories
    /// or an absolute path.
    pub binary: String,
    /// Share the host network instead of an empty network namespace.
    pub network_passthrough: bool,
    /// Virtual address-space limit in MB.
    pub memory_limit_mb: Option<u64>,
    /// Maximum number of processes.
    pub pid_limit: Option<u64>,
    /// CPU time limit in seconds.
    pub cpu_time_limit_secs: Option<u64>,
    /// Wall-clock limit in seconds.
    pub wall_time_limit_secs: Option<u64>,
    /// Size of the writable tmpfs at `/tmp` in MB; `None` mounts none.
    pub tmp_size_mb: Option<u64>,
}

impl Default for NsjailOptions {
    fn default() -> (r: Self)
        ensures
            r.binary@ == "nsjail"@,
            !r.network_passthrough,
            r.memory_limit_mb == Some(DEFAULT_NSJAIL_MEMORY_LIMIT_MB),
            r.pid_limit == Some(DEFAULT_NSJAIL_PID_LIMIT),
            r.cpu_time_limit_secs == Some(DEFAULT_NSJAIL_CPU_TIME_LIMIT_SECS),
            r.wall_time_limit_secs == Some(DEFAULT_NSJAIL_WALL_TIME_LIMIT_SECS),
            r.tmp_size_mb == Some(DEFAULT_NSJAIL_TMP_SIZE_MB),
    {
        NsjailOptions {
            binary: owned("nsjail"),
            network_passthrough: false,
            memory_limit_mb: Some(DEFAULT_NSJAIL_MEMORY_LIMIT_MB),
            pid_limit: Some(DEFAULT_NSJAIL_PID_LIMIT),
            cpu_time_limit_secs: Some(DEFAULT_NSJAIL_CPU_TIME_LIMIT_SECS),
            wall_time_limit_secs: Some(DEFAULT_NSJAIL_WALL_TIME_LIMIT_SECS),
            tmp_size_mb: Some(DEFAULT_NSJAIL_TMP_SIZE_MB),
        }
    }
}

/// Settings of an `exec` tool.
#[derive(Debug)]
pub struct ExecOptions {
    pub timeout: Duration,
    pub max_capture_bytes: usize,
    pub isolation_mode: ExecIsolationMode,
    /// Run natively when nsjail is requested but cannot be found.
    pub allow_native_fallback: bool,
    pub nsjail: NsjailOptions,
}

impl Default for ExecOptions {
    fn default() -> (r: Self)
        ensures
            r.timeout == duration_of(DEFAULT_EXEC_TIMEOUT_SECS, 0),
            r.max_capture_bytes == MAX_CAPTURE_BYTES,
            r.isolation_mode == ExecIsolationMode::Native,
            !r.allow_native_fallback,
            r.nsjail.binary@ == "nsjail"@,
            !r.nsjail.network_passthrough,
            r.nsjail.memory_limit_mb == Some(DEFAULT_NSJAIL_MEMORY_LIMIT_MB),
            r.nsjail.pid_limit == Some(DEFAULT_NSJAIL_PID_LIMIT),
            r.nsjail.cpu_time_limit_secs == Some(DEFAULT_NSJAIL_CPU_TIME_LIMIT_SECS),
            r.nsjail.wall_time_limit_secs == Some(DEFAULT_NSJAIL_WALL_TIME_LIMIT_SECS),
            r.nsjail.tmp_size_mb == Some(DEFAULT_NSJAIL_TMP_SIZE_MB),
    {
        ExecOptions {
            timeout: duration(DEFAULT_EXEC_TIMEOUT_SECS, 0),
            max_capture_bytes: MAX_CAPTURE_BYTES,
            isolation_mode: ExecIsolationMode::Native,
            allow_native_fallback: false,
            nsjail: NsjailOptions::default(),
        }
    }
}

// ---------------------------------------------------------------------------
// Host paths
// ---------------------------------------------------------------------------

/// Host directories mounted read-only inside the jail, when present.
pub open spec fn ro_bindmount_candidates() -> Seq<Seq<char>> {
    seq!["/bin"@, "/usr"@, "/lib"@, "/lib64"@]
}

/// Individual `/etc` files mounted read-only inside the jail, when present
/// (the whole of `/etc` never is).
pub open spec fn ro_etc_candidates() -> Seq<Seq<char>> {
    seq![
        "/etc/ld.so.cache"@,
        "/etc/ld.so.conf"@,
        "/etc/nsswitch.conf"@,
        "/etc/passwd"@,
        "/etc/group"@,
        "/etc/ssl"@,
        "/etc/alternatives"@,
    ]
}

/// The read-only directory mounts: those of `ro_bindmount_candidates` that
/// exist on this host, in order.
pub fn resolve_ro_bindmounts() -> (r: Vec<String>)
    ensures
        crate::jail::kept_from(strs(r@), ro_bindmount_candidates()),
{
    let cands = vec![owned("/bin"), owned("/usr"), owned("/lib"), owned("/lib64")];
    assert(strs(cands@) =~= ro_bindmount_candidates());
    crate::jail::resolve_existing(cands.as_slice())
}

/// The read-only `/etc` file mounts: those of `ro_etc_candidates` that
/// exist on this host, in order.
pub fn resolve_ro_etc_files() -> (r: Vec<String>)
    ensures
        crate::jail::kept_from(strs(r@), ro_etc_candidates()),
{
    let cands = vec![
        owned("/etc/ld.so.cache"),
        owned("/etc/ld.so.conf"),
        owned("/etc/nsswitch.conf"),
        owned("/etc/passwd"),
        owned("/etc/group"),
        owned("/etc/ssl"),
        owned("/etc/alternatives"),
    ];
    assert(strs(cands@) =~= ro_etc_candidates());
    crate::jail::resolve_existing(cands.as_slice())
}

// ---------------------------------------------------------------------------
// The tool
// ---------------------------------------------------------------------------

/// Everything needed to build an nsjail command line.
pub struct NsjailConfig {
    pub options: NsjailOptions,
    /// Directory mounts (e.g. `/bin`, `/usr`).
    pub ro_dirs: Vec<String>,
    /// Individual `/etc` file mounts.
    pub ro_etc_files: Vec<String>,
}

/// The `exec` tool.
pub struct ExecTool {
    pub workspace: String,
    pub sandbox: Sandbox,
    pub timeout: Duration,
    pub max_capture_bytes: usize,
    pub mode: ExecIsolationMode,
    pub nsjail: NsjailOptions,
    /// Host mounts resolved once at construction.
    pub ro_bindmounts: Vec<String>,
    pub ro_etc_files: Vec<String>,
    pub startup_warning: Option<String>,
    pub startup_error: Option<String>,
}

/// The sentence naming a missing nsjail binary.
pub open spec fn missing_binary_msg(binary: Seq<char>) -> Seq<char> {
    "nsjail binary '"@ + binary + "' is not available or not executable"@
}

/// The startup warning when nsjail is missing and native runs are allowed.
pub open spec fn fallback_warning(binary: Seq<char>) -> Seq<char> {
    missing_binary_msg(binary) + "; falling back to native exec"@
}

/// The startup error when nsjail is missing and native runs are not allowed.
pub open spec fn missing_nsjail_error(binary: Seq<char>) -> Seq<char> {
    missing_binary_msg(binary)
        + "; set tools.exec.allow_native_fallback=true to permit native fallback"@
}

/// The view of an optional string.
pub open spec fn opt_view(o: Option<String>) -> Option<Seq<char>> {
    match o {
        Some(s) => Some(s@),
        None => None,
    }
}

impl ExecTool {
    /// A native tool with the default settings.
    pub fn new(workspace: String, sandbox: Sandbox) -> (t: ExecTool)
        ensures
            t.workspace@ == workspace@,
            t.timeout == duration_of(DEFAULT_EXEC_TIMEOUT_SECS, 0),
            t.max_capture_bytes == MAX_CAPTURE_BYTES,
            t.mode == ExecIsolationMode::Native,
            t.startup_warning is None,
            t.startup_error is None,
    {
        ExecTool::with_options(workspace, sandbox, ExecOptions::default(), None)
    }

    /// A native tool with the default settings and the given timeout.
    pub fn with_timeout(workspace: String, sandbox: Sandbox, timeout: Duration) -> (t: ExecTool)
        ensures
            t.workspace@ == workspace@,
            t.timeout == timeout,
            t.max_capture_bytes == MAX_CAPTURE_BYTES,
            t.mode == ExecIsolationMode::Native,
            t.startup_warning is None,
            t.startup_error is None,
    {
        let mut opts = ExecOptions::default();
        opts.timeout = timeout;
        ExecTool::with_options(workspace, sandbox, opts, None)
    }

    /// A native tool with the given timeout and capture cap.
    pub fn with_limits(
        workspace: String,
        sandbox: Sandbox,
        timeout: Duration,
        max_capture_bytes: usize,
    ) -> (t: ExecTool)
        ensures
            t.workspace@ == workspace@,
            t.timeout == timeout,
            t.max_capture_bytes == max_capture_bytes,
            t.sandbox == sandbox,
            t.mode == ExecIsolationMode::Native,
            t.startup_warning is None,
            t.startup_error is None,
            t.nsjail.binary@ == "nsjail"@,
            !t.nsjail.network_passthrough,
            t.nsjail.memory_limit_mb == Some(DEFAULT_NSJAIL_MEMORY_LIMIT_MB),
            t.nsjail.pid_limit == Some(DEFAULT_NSJAIL_PID_LIMIT),
            t.nsjail.cpu_time_limit_secs == Some(DEFAULT_NSJAIL_CPU_TIME_LIMIT_SECS),
            t.nsjail.wall_time_limit_secs == Some(DEFAULT_NSJAIL_WALL_TIME_LIMIT_SECS),
            t.nsjail.tmp_size_mb == Some(DEFAULT_NSJAIL_TMP_SIZE_MB),
            crate::jail::kept_from(strs(t.ro_bindmounts@), ro_bindmount_candidates()),
            crate::jail::kept_from(strs(t.ro_etc_files@), ro_etc_candidates()),
    {
        let mut opts = ExecOptions::default();
        opts.timeout = timeout;
        opts.max_capture_bytes = max_capture_bytes;
        ExecTool::with_options(workspace, sandbox, opts, None)
    }

    /// A tool with the given settings. `nsjail_binary` is the trusted
    /// executable that `options.nsjail.binary` resolves to on this host
    /// (`pick_nsjail_binary` over the candidates of
    /// `nsjail_binary_candidates`), `None` when there is none; it lies under
    /// a trusted directory.
    ///
    /// In nsjail mode the resolved path replaces the configured binary.
    /// When nothing resolved, the tool falls back to native runs with a
    /// startup warning if `allow_native_fallback`, and otherwise keeps nsjail
    /// mode with a startup error that every run reports.
    pub fn with_options(
        workspace: String,
        sandbox: Sandbox,
        options: ExecOptions,
        nsjail_binary: Option<String>,
    ) -> (t: ExecTool)
        requires
            nsjail_binary matches Some(b) ==> crate::jail::trusted_nsjail_path(b@),
        ensures
            t.workspace@ == workspace@,
            t.sandbox == sandbox,
            t.timeout == options.timeout,
            t.max_capture_bytes == options.max_capture_bytes,
            t.nsjail.network_passthrough == options.nsjail.network_passthrough,
            t.nsjail.memory_limit_mb == options.nsjail.memory_limit_mb,
            t.nsjail.pid_limit == options.nsjail.pid_limit,
            t.nsjail.cpu_time_limit_secs == options.nsjail.cpu_time_limit_secs,
            t.nsjail.wall_time_limit_secs == options.nsjail.wall_time_limit_secs,
            t.nsjail.tmp_size_mb == options.nsjail.tmp_size_mb,
            crate::jail::kept_from(strs(t.ro_bindmounts@), ro_bindmount_candidates()),
            crate::jail::kept_from(strs(t.ro_etc_files@), ro_etc_candidates()),
            options.isolation_mode == ExecIsolationMode::Native ==> {
                &&& t.mode == ExecIsolationMode::Native
                &&& t.nsjail.binary@ == options.nsjail.binary@
                &&& t.startup_warning is None
                &&& t.startup_error is None
            },
            options.isolation_mode == ExecIsolationMode::Nsjail ==> match nsjail_binary {
                Some(b) => {
                    &&& t.mode == ExecIsolationMode::Nsjail
                    &&& t.nsjail.binary@ == b@
                    &&& crate::jail::trusted_nsjail_path(t.nsjail.binary@)
                    &&& t.startup_warning is None
                    &&& t.startup_error is None
                },
                None => {
                    &&& t.nsjail.binary@ == options.nsjail.binary@
                    &&& if options.allow_native_fallback {
                        &&& t.mode == ExecIsolationMode::Native
                        &&& opt_view(t.startup_warning) == Some(
                            fallback_warning(options.nsjail.binary@),
                        )
                        &&& t.startup_error is None
                    } else {
                        &&& t.mode == ExecIsolationMode::Nsjail
                        &&& t.startup_warning is None
                        &&& opt_view(t.startup_error) == Some(
                            missing_nsjail_error(options.nsjail.binary@),
                        )
                    }
                },
            },
    {
        let mut options = options;
        let mut warning: Option<String> = None;
        let mut startup_error: Option<String> = None;
        let mut mode = options.isolation_mode;
        if mode == ExecIsolationMode::Nsjail {
            match nsjail_binary {
                Some(resolved) => {
                    options.nsjail.binary = resolved;
                },
                None => {
                    let mut missing = owned("nsjail binary '");
                    push_str(&mut missing, options.nsjail.binary.as_str());
                    push_str(&mut missing, "' is not available or not executable");
                    if options.allow_native_fallback {
                        mode = ExecIsolationMode::Native;
                        push_str(&mut missing, "; falling back to native exec");
                        warning = Some(missing);
                    } else {
                        push_str(
                            &mut missing,
                            "; set tools.exec.allow_native_fallback=true to permit native fallback",
                        );
                        startup_error = Some(missing);
                    }
                },
            }
        }
        let ro_bindmounts = resolve_ro_bindmounts();
        let ro_etc_files = resolve_ro_etc_files();
        ExecTool {
            workspace,
            sandbox,
            timeout: options.timeout,
            max_capture_bytes: options.max_capture_bytes,
            mode,
            nsjail: options.nsjail,
            ro_bindmounts,
            ro_etc_files,
            startup_warning: warning,
            startup_error,
        }
    }

    /// A tool with the given settings that trusts `options.nsjail.binary`
    /// as it is, without a host lookup; for jails kept outside the trusted
    /// system directories.
    pub fn with_options_trusted(workspace: String, sandbox: Sandbox, options: ExecOptions) -> (t:
        ExecTool)
        ensures
            t.workspace@ == workspace@,
            t.sandbox == sandbox,
            t.timeout == options.timeout,
            t.max_capture_bytes == options.max_capture_bytes,
            t.mode == options.isolation_mode,
            t.nsjail.binary@ == options.nsjail.binary@,
            t.nsjail.tmp_size_mb == options.nsjail.tmp_size_mb,
            t.nsjail.memory_limit_mb == options.nsjail.memory_limit_mb,
            t.startup_warning is None,
            t.startup_error is None,
            crate::jail::kept_from(strs(t.ro_bindmounts@), ro_bindmount_candidates()),
            crate::jail::kept_from(strs(t.ro_etc_files@), ro_etc_candidates()),
    {
        let ro_bindmounts = resolve_ro_bindmounts();
        let ro_etc_files = resolve_ro_etc_files();
        ExecTool {
            workspace,
            sandbox,
            timeout: options.timeout,
            max_capture_bytes: options.max_capture_bytes,
            mode: options.isolation_mode,
            nsjail: options.nsjail,
            ro_bindmounts,
            ro_etc_files,
            startup_warning: None,
            startup_error: None,
        }
    }

    pub fn definition(&self) -> (d: crate::tool::ToolDefinition)
        ensures
            d.name@ == "exec"@,
    {
        crate::tool::ToolDefinition {
            name: owned("exec"),
            description: owned("Execute a shell command in the workspace directory"),
            parameters_schema: owned(
                "{\"type\":\"object\",\"properties\":{\"command\":{\"type\":\"string\",\"description\":\"Shell command to execute\"}},\"required\":[\"command\"]}",
            ),
        }
    }

    pub fn timeout(&self) -> (r: Duration)
        ensures
            r == self.timeout,
    {
        self.timeout
    }

    pub fn mode(&self) -> (r: ExecIsolationMode)
        ensures
            r == self.mode,
    {
        self.mode
    }

    pub fn startup_warning(&self) -> (r: Option<&str>)
        ensures
            match r {
                Some(s) => opt_view(self.startup_warning) == Some(s@),
                None => self.startup_warning is None,
            },
    {
        match &self.startup_warning {
            Some(s) => Some(s.as_str()),
            None => None,
        }
    }

    pub fn startup_error(&self) -> (r: Option<&str>)
        ensures
            match r {
                Some(s) => opt_view(self.startup_error) == Some(s@),
                None => self.startup_error is None,
            },
    {
        match &self.startup_error {
            Some(s) => Some(s.as_str()),
            None => None,
        }
    }

    pub fn nsjail_options(&self) -> (r: &NsjailOptions)
        ensures
            r == &self.nsjail,
    {
        &self.nsjail
    }

    /// The command line that runs `command` in this tool's jail, with the
    /// mounts resolved at construction and an empty source environment.
    pub fn build_nsjail_command_for_testing(
        &self,
        workspace: &str,
        command: &str,
        host_path: Option<String>,
    ) -> (c: CommandSpec)
        requires
            tmpfs_fits(self.nsjail.tmp_size_mb),
        ensures
            c.program@ == self.nsjail.binary@,
            c.args_view() == nsjail_args(
                workspace@,
                command@,
                self.nsjail,
                strs(self.ro_bindmounts@),
                strs(self.ro_etc_files@),
            ),
            c.current_dir@ == workspace@,
            c.env_view() == jail_env(Seq::empty(), opt_view(host_path)),
    {
        let config = NsjailConfig {
            options: self.nsjail.clone_options(),
            ro_dirs: copy_strings(self.ro_bindmounts.as_slice()),
            ro_etc_files: copy_strings(self.ro_etc_files.as_slice()),
        };
        let source: Vec<(String, String)> = Vec::new();
        assert(pairs(source@) =~= Seq::<(Seq<char>, Seq<char>)>::empty());
        build_nsjail_command(workspace, command, source.as_slice(), &config, host_path)
    }

    /// What a run of `arguments` executes: the command, or why there is
    /// none. A startup error ends every run as a configuration error; then
    /// the arguments must be a JSON object with a string member `command`.
    pub fn prepare_run(&self, arguments: &str) -> (r: Result<String, DomainError>)
        ensures
            self.startup_error is Some ==> r == Err::<String, DomainError>(
                DomainError::Config(self.startup_error->0),
            ),
            self.startup_error is None ==> match json_string_member(arguments@, "command"@) {
                None => r matches Err(DomainError::Tool(_)),
                Some(None) => r matches Err(DomainError::Tool(m)) && m@
                    == "missing 'command' argument"@,
                Some(Some(c)) => r matches Ok(s) && s@ == c,
            },
    {
        match &self.startup_error {
            Some(e) => Err(DomainError::Config(e.clone())),
            None => extract_command(arguments),
        }
    }
}

impl NsjailOptions {
    /// A field-by-field copy.
    pub fn clone_options(&self) -> (r: NsjailOptions)
        ensures
            r.binary@ == self.binary@,
            r.network_passthrough == self.network_passthrough,
            r.memory_limit_mb == self.memory_limit_mb,
            r.pid_limit == self.pid_limit,
            r.cpu_time_limit_secs == self.cpu_time_limit_secs,
            r.wall_time_limit_secs == self.wall_time_limit_secs,
            r.tmp_size_mb == self.tmp_size_mb,
    {
        NsjailOptions {
            binary: self.binary.clone(),
            network_passthrough: self.network_passthrough,
            memory_limit_mb: self.memory_limit_mb,
            pid_limit: self.pid_limit,
            cpu_time_limit_secs: self.cpu_time_limit_secs,
            wall_time_limit_secs: self.wall_time_limit_secs,
            tmp_size_mb: self.tmp_size_mb,
        }
    }
}

/// The `command` member of the JSON arguments.
pub fn extract_command(arguments: &str) -> (r: Result<String, DomainError>)
    ensures
        match json_string_member(arguments@, "command"@) {
            None => r matches Err(DomainError::Tool(_)),
            Some(None) => r matches Err(DomainError::Tool(m)) && m@ == "missing 'command' argument"@,
            Some(Some(c)) => r matches Ok(s) && s@ == c,
        },
{
    match json_str_member(arguments, "command") {
        Err(e) => Err(DomainError::Tool(e)),
        Ok(None) => Err(DomainError::Tool(owned("missing 'command' argument"))),
        Ok(Some(c)) => Ok(c),
    }
}

// ---------------------------------------------------------------------------
// Command lines
// ---------------------------------------------------------------------------

/// The arguments of an nsjail run of `command`: the workspace mounted at
/// `/workspace`, the read-only mounts, the bounded `/tmp`, no cgroup
/// namespace, the resource limits that are set, the host network when
/// passed through, then `/bin/sh -c command`.
pub open spec fn nsjail_args(
    workspace: Seq<char>,
    command: Seq<char>,
    o: NsjailOptions,
    ro_dirs: Seq<Seq<char>>,
    ro_etc: Seq<Seq<char>>,
) -> Seq<Seq<char>> {
    head_args(workspace) + ro_mount_args(ro_dirs) + ro_mount_args(ro_etc) + tmpfs_args(
        o.tmp_size_mb,
    ) + seq!["--disable_clone_newcgroup"@] + limit_args("--rlimit_as"@, o.memory_limit_mb)
        + limit_args("--rlimit_nproc"@, o.pid_limit) + limit_args(
        "--rlimit_cpu"@,
        o.cpu_time_limit_secs,
    ) + limit_args("--time_limit"@, o.wall_time_limit_secs) + (if o.network_passthrough {
        seq!["--disable_clone_newnet"@]
    } else {
        Seq::empty()
    }) + shell_tail_args(command)
}

/// The nsjail invocation of `command` in `workspace`. The environment is
/// `jail_env` of `source_env` (secrets removed, `PATH` from `host_path`
/// when the source has none, `TMPDIR`/`TMP`/`TEMP` defaulting to `/tmp`).
pub fn build_nsjail_command(
    workspace: &str,
    command: &str,
    source_env: &[(String, String)],
    config: &NsjailConfig,
    host_path: Option<String>,
) -> (c: CommandSpec)
    requires
        tmpfs_fits(config.options.tmp_size_mb),
    ensures
        c.program@ == config.options.binary@,
        c.args_view() == nsjail_args(
            workspace@,
            command@,
            config.options,
            strs(config.ro_dirs@),
            strs(config.ro_etc_files@),
        ),
        c.current_dir@ == workspace@,
        c.env_view() == jail_env(pairs(source_env@), opt_view(host_path)),
{
    let o = &config.options;
    let mut args: Vec<String> = Vec::new();
    assert(strs(args@) =~= Seq::<Seq<char>>::empty());
    append_head_args(&mut args, workspace);
    append_ro_mounts(&mut args, config.ro_dirs.as_slice());
    append_ro_mounts(&mut args, config.ro_etc_files.as_slice());
    append_tmpfs(&mut args, o.tmp_size_mb);
    append_flag(&mut args, "--disable_clone_newcgroup");
    append_limit(&mut args, "--rlimit_as", o.memory_limit_mb);
    append_limit(&mut args, "--rlimit_nproc", o.pid_limit);
    append_limit(&mut args, "--rlimit_cpu", o.cpu_time_limit_secs);
    append_limit(&mut args, "--time_limit", o.wall_time_limit_secs);
    let ghost before_net = strs(args@);
    if o.network_passthrough {
        append_flag(&mut args, "--disable_clone_newnet");
    }
    assert(strs(args@) =~= before_net + (if o.network_passthrough {
        seq!["--disable_clone_newnet"@]
    } else {
        Seq::<Seq<char>>::empty()
    }));
    append_shell_tail(&mut args, command);
    assert(strs(args@) =~= nsjail_args(
        workspace@,
        command@,
        config.options,
        strs(config.ro_dirs@),
        strs(config.ro_etc_files@),
    ));
    let env = build_jail_env(source_env, host_path);
    CommandSpec { program: o.binary.clone(), args, current_dir: owned(workspace), env }
}

/// The environment of a native run: the non-secret entries of the source,
/// and the host `PATH` when the source has none.
pub open spec fn native_env(
    source: Seq<(Seq<char>, Seq<char>)>,
    host_path: Option<Seq<char>>,
) -> Seq<(Seq<char>, Seq<char>)> {
    default_entry(public_entries(source), source, "PATH"@, host_path)
}

/// The native invocation of `command`: `sh -c command` in `workspace`.
pub fn build_shell_command(
    workspace: &str,
    command: &str,
    source_env: &[(String, String)],
    host_path: Option<String>,
) -> (c: CommandSpec)
    ensures
        c.program@ == "sh"@,
        c.args_view() == seq!["-c"@, command@],
        c.current_dir@ == workspace@,
        c.env_view() == native_env(pairs(source_env@), opt_view(host_path)),
{
    let mut args: Vec<String> = Vec::new();
    push_string(&mut args, owned("-c"));
    push_string(&mut args, owned(command));
    assert(strs(args@) =~= seq!["-c"@, command@]);
    let mut env = crate::jail::public_env(source_env);
    crate::jail::append_default(&mut env, source_env, "PATH", host_path);
    CommandSpec { program: owned("sh"), args, current_dir: owned(workspace), env }
}

// ---------------------------------------------------------------------------
// Environment allowlist
// ---------------------------------------------------------------------------

/// Environment variables a child may inherit by name.
pub open spec fn env_allowlist() -> Seq<Seq<char>> {
    seq![
        "HOME"@,
        "PATH"@,
        "LANG"@,
        "TZ"@,
        "TERM"@,
        "SHELL"@,
        "USER"@,
        "LOGNAME"@,
        "TMPDIR"@,
    ]
}

/// A key a child may inherit: not secret, and allowlisted or a locale
/// (`LC_*`) setting.
pub open spec fn allowed_exec_env_key(key: Seq<char>) -> bool {
    !is_secret_key(key) && (env_allowlist().contains(key) || has_prefix(key, "LC_"@))
}

/// Whether a child may inherit the variable `key`.
pub fn is_allowed_exec_env_key(key: &str) -> (r: bool)
    ensures
        r == allowed_exec_env_key(key@),
{
    let k = chars_of(key);
    let secret = chars_of("QUECTO_");
    if starts_with(k.as_slice(), secret.as_slice()) {
        return false;
    }
    let allow = vec![
        owned("HOME"),
        owned("PATH"),
        owned("LANG"),
        owned("TZ"),
        owned("TERM"),
        owned("SHELL"),
        owned("USER"),
        owned("LOGNAME"),
        owned("TMPDIR"),
    ];
    assert(strs(allow@) =~= env_allowlist());
    assert(strs(allow@).len() == 9);
    let target = owned(key);
    let mut i: usize = 0;
    while i < allow.len()
        invariant
            i <= allow.len(),
            allow@.len() == 9,
            !is_secret_key(key@),
            strs(allow@) == env_allowlist(),
            target@ == key@,
            forall|j: int| 0 <= j < i ==> env_allowlist()[j] != key@,
        decreases allow.len() - i,
    {
        if allow[i] == target {
            assert(env_allowlist()[i as int] == key@);
            assert(env_allowlist().contains(key@));
            return true;
        }
        i = i + 1;
    }
    let lc = chars_of("LC_");
    starts_with(k.as_slice(), lc.as_slice())
}

/// The entries a child may inherit.
pub open spec fn allowed_entries(env: Seq<(Seq<char>, Seq<char>)>) -> Seq<(Seq<char>, Seq<char>)>
    decreases env.len(),
{
    if env.len() == 0 {
        Seq::empty()
    } else {
        let rest = allowed_entries(env.drop_last());
        if allowed_exec_env_key(env.last().0) {
            rest.push(env.last())
        } else {
            rest
        }
    }
}

/// The source environment of a run: the allowed entries of `env` (the
/// caller's overrides, or the process environment), in order.
pub fn build_source_env(env: &[(String, String)]) -> (r: Vec<(String, String)>)
    ensures
        pairs(r@) == allowed_entries(pairs(env@)),
{
    let mut r: Vec<(String, String)> = Vec::new();
    let mut i: usize = 0;
    assert(pairs(env@).take(0) =~= Seq::<(Seq<char>, Seq<char>)>::empty());
    assert(allowed_entries(Seq::<(Seq<char>, Seq<char>)>::empty()) =~= Seq::<
        (Seq<char>, Seq<char>),
    >::empty());
    while i < env.len()
        invariant
            i <= env.len(),
            pairs(r@) == allowed_entries(pairs(env@).take(i as int)),
        decreases env.len() - i,
    {
        let ghost pre = pairs(env@).take(i as int);
        let ghost post = pairs(env@).take(i as int + 1);
        assert(post.drop_last() =~= pre);
        if is_allowed_exec_env_key(env[i].0.as_str()) {
            crate::jail::push_pair(&mut r, env[i].0.clone(), env[i].1.clone());
        }
        i = i + 1;
    }
    assert(pairs(env@).take(env.len() as int) =~= pairs(env@));
    r
}

// ---------------------------------------------------------------------------
// Output
// ---------------------------------------------------------------------------

/// `content`, followed by a notice when the stream was cut at the capture cap.
pub open spec fn annotated(
    content: Seq<char>,
    truncated: bool,
    stream_name: Seq<char>,
    max_capture_bytes: nat,
) -> Seq<char> {
    if truncated {
        content + "\n["@ + stream_name + " output truncated at "@ + decimal(max_capture_bytes)
            + " bytes]"@
    } else {
        content
    }
}

/// Appends the capture-cap notice to a stream's output when it was cut.
pub fn annotate_truncation(
    content: String,
    truncated: bool,
    stream_name: &str,
    max_capture_bytes: usize,
) -> (r: String)
    ensures
        r@ == annotated(content@, truncated, stream_name@, max_capture_bytes as nat),
{
    let mut content = content;
    if truncated {
        let ghost c0 = content@;
        push_str(&mut content, "\n[");
        push_str(&mut content, stream_name);
        push_str(&mut content, " output truncated at ");
        let n = decimal_string(max_capture_bytes as u64);
        push_str(&mut content, n.as_str());
        push_str(&mut content, " bytes]");
        assert(content@ =~= annotated(c0, truncated, stream_name@, max_capture_bytes as nat));
    }
    content
}

/// The output of a run: stdout, then stderr on its own line; either alone
/// when the other is empty.
pub open spec fn combined_output(stdout: Seq<char>, stderr: Seq<char>) -> Seq<char> {
    if stderr.len() == 0 {
        stdout
    } else if stdout.len() == 0 {
        stderr
    } else {
        stdout + seq!['\n'] + stderr
    }
}

/// Joins a run's two output streams (see `combined_output`).
pub fn combine_streams(stdout: String, stderr: String) -> (r: String)
    ensures
        r@ == combined_output(stdout@, stderr@),
{
    if stderr.as_str().is_empty() {
        stdout
    } else if stdout.as_str().is_empty() {
        stderr
    } else {
        let mut out = stdout;
        push_char(&mut out, '\n');
        push_str(&mut out, stderr.as_str());
        out
    }
}

/// Lines kept from the end of a run's output.
pub const TAIL_MAX_LINES: usize = 2000;

/// Bytes kept from the end of a run's output (50 KB).
pub const TAIL_MAX_BYTES: usize = 51200;

/// Keeps the last `max_lines` lines / `max_bytes` bytes of `content` and says
/// whether anything was cut (see `truncate_tail`).
pub fn truncate_tail_output(content: &str, max_lines: usize, max_bytes: usize) -> (r: (String, bool))
    ensures
        tail_content(content@, max_lines as int, max_bytes as int, r.0@),
        r.1 == (tail_kept(lines(content@), max_lines as int, max_bytes as int, 0) < lines(
            content@,
        ).len()),
{
    let tr = truncate_tail(content, max_lines, max_bytes);
    (tr.content, tr.truncated)
}

/// The notice appended to cut output: where the whole output was saved,
/// or, when saving failed, the limits that applied.
pub open spec fn truncation_hint(combined_len: nat, saved_to: Option<Seq<char>>) -> Seq<char> {
    match saved_to {
        Some(p) => "\n[Output truncated. Full output ("@ + decimal(combined_len)
            + " bytes) saved to: "@ + p + "]"@,
        None => "\n[Output truncated to last 2000 lines / 51200 bytes]"@,
    }
}

/// The text of a finished run: the tail of its output, followed by the
/// truncation notice when something was cut.
pub fn finish_output(shown: String, truncated: bool, combined_len: usize, saved_to: Option<String>) -> (r: String)
    ensures
        r@ == (if truncated {
            shown@ + truncation_hint(combined_len as nat, opt_view(saved_to))
        } else {
            shown@
        }),
{
    let mut out = shown;
    if truncated {
        let ghost s0 = out@;
        match saved_to {
            Some(p) => {
                push_str(&mut out, "\n[Output truncated. Full output (");
                let n = decimal_string(combined_len as u64);
                push_str(&mut out, n.as_str());
                push_str(&mut out, " bytes) saved to: ");
                push_str(&mut out, p.as_str());
                push_str(&mut out, "]");
                assert(out@ =~= s0 + truncation_hint(combined_len as nat, Some(p@)));
            },
            None => {
                push_str(&mut out, "\n[Output truncated to last 2000 lines / 51200 bytes]");
                assert(out@ =~= s0 + truncation_hint(combined_len as nat, None));
            },
        }
    }
    out
}

/// The result of a finished process: its output on success; otherwise an
/// error led by the exit code (`-1` when it was killed by a signal).
pub fn exit_result(success: bool, code: Option<i32>, content: String) -> (r: ToolResult)
    ensures
        r.is_error == !success,
        r.image_blocks@.len() == 0,
        success ==> r.content@ == content@,
        !success ==> r.content@ == "exit code "@ + signed_decimal(
            match code {
                Some(c) => c as int,
                None => -1,
            },
        ) + seq!['\n'] + content@,
{
    if success {
        ToolResult::text(content)
    } else {
        let c: i32 = match code {
            Some(c) => c,
            None => -1,
        };
        let mut out = owned("exit code ");
        let d = i32_string(c);
        push_str(&mut out, d.as_str());
        push_char(&mut out, '\n');
        push_str(&mut out, content.as_str());
        ToolResult::error(out)
    }
}

/// The result of a run that outlived its timeout.
pub fn timeout_result(timeout_secs: u64) -> (r: ToolResult)
    ensures
        r.is_error,
        r.content@ == "command timed out after "@ + decimal(timeout_secs as nat) + "s"@,
        r.image_blocks@.len() == 0,
{
    let mut out = owned("command timed out after ");
    let d = decimal_string(timeout_secs);
    push_str(&mut out, d.as_str());
    push_str(&mut out, "s");
    ToolResult::error(out)
}


/// The combined output holds both streams whole: stdout first, stderr
/// last, with one newline between them when both are non-empty and nothing
/// else.
pub proof fn law_combined_output_keeps_both_streams(stdout: Seq<char>, stderr: Seq<char>)
    ensures
        combined_output(stdout, stderr).take(stdout.len() as int) == stdout,
        combined_output(stdout, stderr).len() == stdout.len() + stderr.len() + if stdout.len()
            > 0 && stderr.len() > 0 {
            1int
        } else {
            0int
        },
        combined_output(stdout, stderr).skip(
            combined_output(stdout, stderr).len() - stderr.len(),
        ) == stderr,
        stdout.len() > 0 && stderr.len() > 0 ==> combined_output(stdout, stderr)[stdout.len() as int]
            == '\n',
{
    let r = combined_output(stdout, stderr);
    assert(r.take(stdout.len() as int) =~= stdout);
    assert(r.skip(r.len() - stderr.len()) =~= stderr);
}

} // verus!
