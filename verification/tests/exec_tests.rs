use quecto_tools::exec::{
    build_nsjail_command, resolve_ro_bindmounts, resolve_ro_etc_files, truncate_tail_output,
    ExecIsolationMode, ExecOptions, ExecTool, NsjailConfig, NsjailOptions,
};
use quecto_tools::tool::Sandbox;

/// Build an nsjail command with the given options and return the args as a joined string.
fn nsjail_args_str(options: &NsjailOptions) -> String {
    let config = NsjailConfig {
        options: options.clone(),
        ro_dirs: resolve_ro_bindmounts(),
        ro_etc_files: resolve_ro_etc_files(),
    };
    let cmd = build_nsjail_command("/tmp/test", "echo hi", &[], &config, None);
    cmd.args.join(" ")
}

fn nsjail_envs(source_env: &[(String, String)]) -> Vec<(String, String)> {
    let config = NsjailConfig {
        options: NsjailOptions::default(),
        ro_dirs: resolve_ro_bindmounts(),
        ro_etc_files: resolve_ro_etc_files(),
    };
    build_nsjail_command("/tmp/test", "echo hi", source_env, &config, None).env
}

#[test]
fn test_nsjail_falls_back_when_binary_missing() {
    let sandbox = Sandbox::new(Some("/tmp".to_string()), false);
    let opts = ExecOptions {
        isolation_mode: ExecIsolationMode::Nsjail,
        allow_native_fallback: true,
        nsjail: NsjailOptions {
            binary: "definitely-not-a-real-binary".to_string(),
            ..NsjailOptions::default()
        },
        ..ExecOptions::default()
    };
    let tool = ExecTool::with_options("/tmp".to_string(), sandbox, opts, None);
    assert_eq!(tool.mode(), ExecIsolationMode::Native);
    assert!(tool
        .startup_warning()
        .unwrap_or_default()
        .contains("falling back to native"));
    assert!(tool.startup_error().is_none());
}

#[test]
fn test_nsjail_missing_without_fallback_reports_config_error() {
    let sandbox = Sandbox::new(Some("/tmp".to_string()), false);
    let opts = ExecOptions {
        isolation_mode: ExecIsolationMode::Nsjail,
        nsjail: NsjailOptions {
            binary: "definitely-not-a-real-binary".to_string(),
            ..NsjailOptions::default()
        },
        ..ExecOptions::default()
    };
    let tool = ExecTool::with_options("/tmp".to_string(), sandbox, opts, None);
    let result = tool.prepare_run(r#"{"command":"echo hi"}"#);
    assert!(result.is_err());
    assert!(result.unwrap_err().message().contains("allow_native_fallback"));
}

#[test]
fn exec_tests_test_nsjail_command_includes_rlimit_as_for_memory() {
    let args = nsjail_args_str(&NsjailOptions {
        memory_limit_mb: Some(256),
        ..NsjailOptions::default()
    });
    assert!(args.contains("--rlimit_as"), "missing --rlimit_as: {args}");
    assert!(args.contains("256"), "missing value 256: {args}");
}

#[test]
fn exec_tests_test_nsjail_command_includes_rlimit_nproc_for_pid_limit() {
    let args = nsjail_args_str(&NsjailOptions {
        pid_limit: Some(64),
        ..NsjailOptions::default()
    });
    assert!(args.contains("--rlimit_nproc"), "missing --rlimit_nproc: {args}");
    assert!(args.contains("64"), "missing value 64: {args}");
}

#[test]
fn exec_tests_test_nsjail_command_includes_rlimit_cpu() {
    let args = nsjail_args_str(&NsjailOptions {
        cpu_time_limit_secs: Some(15),
        ..NsjailOptions::default()
    });
    assert!(args.contains("--rlimit_cpu"), "missing --rlimit_cpu: {args}");
    assert!(args.contains("15"), "missing value 15: {args}");
}

#[test]
fn exec_tests_test_nsjail_command_includes_disable_clone_newcgroup() {
    let args = nsjail_args_str(&NsjailOptions::default());
    assert!(
        args.contains("--disable_clone_newcgroup"),
        "missing --disable_clone_newcgroup: {args}"
    );
}

#[test]
fn exec_tests_test_nsjail_command_does_not_include_cgroup_args() {
    let args = nsjail_args_str(&NsjailOptions {
        memory_limit_mb: Some(512),
        pid_limit: Some(256),
        ..NsjailOptions::default()
    });
    assert!(!args.contains("--cgroup_mem_max"), "must NOT include --cgroup_mem_max: {args}");
    assert!(!args.contains("--cgroup_pids_max"), "must NOT include --cgroup_pids_max: {args}");
    assert!(!args.contains("--detect_cgroupv2"), "must NOT include --detect_cgroupv2: {args}");
}

#[test]
fn exec_tests_test_nsjail_command_includes_system_ro_bindmounts() {
    let args = nsjail_args_str(&NsjailOptions::default());
    assert!(args.contains("--bindmount_ro"), "missing --bindmount_ro: {args}");
    assert!(args.contains("/usr:/usr"), "missing /usr mount: {args}");
}

#[test]
fn exec_tests_test_nsjail_command_does_not_mount_etc_directory() {
    let args = nsjail_args_str(&NsjailOptions::default());
    // Should mount individual /etc files, not the whole /etc directory.
    assert!(!args.contains("/etc:/etc"), "must NOT mount /etc as a whole directory: {args}");
}

#[test]
fn exec_tests_test_nsjail_command_omits_none_limits() {
    let args = nsjail_args_str(&NsjailOptions {
        memory_limit_mb: None,
        pid_limit: None,
        cpu_time_limit_secs: None,
        wall_time_limit_secs: None,
        ..NsjailOptions::default()
    });
    assert!(!args.contains("--rlimit_as"), "unexpected --rlimit_as: {args}");
    assert!(!args.contains("--rlimit_nproc"), "unexpected --rlimit_nproc: {args}");
    assert!(!args.contains("--rlimit_cpu"), "unexpected --rlimit_cpu: {args}");
    assert!(!args.contains("--time_limit"), "unexpected --time_limit: {args}");
}

#[test]
fn exec_tests_test_nsjail_command_includes_bounded_tmpfs_for_tmp() {
    let args = nsjail_args_str(&NsjailOptions::default());
    assert!(
        args.contains("none:/tmp:tmpfs:size="),
        "missing bounded tmpfs mount for /tmp: {args}"
    );
    assert!(!args.contains("--tmpfsmount"), "should use -m syntax, not --tmpfsmount: {args}");
}

#[test]
fn exec_tests_test_nsjail_command_sets_tmpdir_env() {
    let source_env = vec![("HOME".to_string(), "/home/test".to_string())];
    let envs = nsjail_envs(&source_env);
    let tmpdir = envs.iter().find(|(k, _)| k == "TMPDIR");
    assert!(tmpdir.is_some(), "TMPDIR should be set in nsjail env, got: {envs:?}");
    assert_eq!(tmpdir.unwrap().1, "/tmp", "TMPDIR should be /tmp");
}

#[test]
fn exec_tests_test_nsjail_command_respects_caller_tmpdir_override() {
    let source_env = vec![
        ("HOME".to_string(), "/home/test".to_string()),
        ("TMPDIR".to_string(), "/workspace/tmp".to_string()),
    ];
    let envs = nsjail_envs(&source_env);
    let tmpdir = envs.iter().find(|(k, _)| k == "TMPDIR");
    assert!(tmpdir.is_some(), "TMPDIR should be present");
    assert_eq!(tmpdir.unwrap().1, "/workspace/tmp");
}

#[test]
fn exec_tests_test_nsjail_command_sets_tmp_and_temp_env() {
    let envs = nsjail_envs(&[]);
    for var in ["TMPDIR", "TMP", "TEMP"] {
        let found = envs.iter().find(|(k, _)| k == var);
        assert!(found.is_some(), "{var} should be set in nsjail env");
        assert_eq!(found.unwrap().1, "/tmp", "{var} should be /tmp");
    }
}

#[test]
fn exec_tests_test_nsjail_command_uses_bounded_tmpfs_mount() {
    let args = nsjail_args_str(&NsjailOptions {
        tmp_size_mb: Some(64),
        ..NsjailOptions::default()
    });
    assert!(args.contains("-m"), "missing -m mount arg: {args}");
    assert!(
        args.contains("none:/tmp:tmpfs:size=67108864"),
        "missing bounded tmpfs mount: {args}"
    );
}

#[test]
fn exec_tests_test_nsjail_command_omits_tmp_mount_when_disabled() {
    let args = nsjail_args_str(&NsjailOptions {
        tmp_size_mb: None,
        ..NsjailOptions::default()
    });
    assert!(!args.contains("none:/tmp:tmpfs"), "should not have tmpfs mount when disabled: {args}");
}

#[test]
fn exec_tests_test_nsjail_command_includes_time_limit() {
    let args = nsjail_args_str(&NsjailOptions {
        wall_time_limit_secs: Some(20),
        ..NsjailOptions::default()
    });
    assert!(args.contains("--time_limit"), "missing --time_limit: {args}");
    assert!(args.contains("20"), "missing value 20: {args}");
}

#[test]
fn test_truncate_tail_output_no_truncation() {
    let content = "line1\nline2\nline3";
    let (out, truncated) = truncate_tail_output(content, 2000, 50 * 1024);
    assert!(!truncated);
    assert_eq!(out, content);
}

#[test]
fn test_truncate_tail_output_line_limit() {
    let content: String = (1..=3000).map(|i| format!("line{}\n", i)).collect();
    let (out, truncated) = truncate_tail_output(&content, 2000, 50 * 1024);
    assert!(truncated, "expected truncation");
    assert!(out.contains("3000"), "expected last line, got: {}", &out[..out.len().min(100)]);
    assert!(!out.contains("line1\n"), "should have dropped first lines");
}

#[test]
fn test_truncate_tail_output_byte_limit() {
    // 3000 lines of 20 chars = ~60KB > 50KB
    let content: String = (1..=3000).map(|i| format!("{:020}\n", i)).collect();
    let (out, truncated) = truncate_tail_output(&content, 2000, 50 * 1024);
    assert!(truncated, "expected byte truncation");
    assert!(out.contains(&format!("{:020}", 3000)), "expected last entry in tail");
}
