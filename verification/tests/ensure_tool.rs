use quecto_tools::ensure_tool::{
    asset_name_for, detect_platform, expand_asset_name, replace_str, find_config, is_offline,
    latest_version_from, offline_error, pick_which, release_asset, resolve_tool, tools_cache_dir,
    which_candidates,
    unknown_tool_error, Resolution,
};

#[test]
fn test_find_config_rg() {
    let cfg = find_config("rg").expect("rg config");
    assert_eq!(cfg.binary_name, "rg");
    assert_eq!(cfg.repo, "BurntSushi/ripgrep");
}

#[test]
fn test_find_config_fd() {
    let cfg = find_config("fd").expect("fd config");
    assert_eq!(cfg.binary_name, "fd");
    assert_eq!(cfg.repo, "sharkdp/fd");
}

#[test]
fn test_find_config_unknown() {
    assert!(find_config("unknown_xyz").is_none());
}

#[test]
fn test_is_offline_values() {
    for v in &["1", "true", "TRUE", "yes", "YES"] {
        assert!(is_offline(Some(v)), "should recognize {}", v);
    }
    for v in &["0", "false", "no", ""] {
        assert!(!is_offline(Some(v)), "should not recognize {}", v);
    }
    assert!(!is_offline(None));
}

#[test]
fn test_asset_name_rg_linux_x86() {
    let name = asset_name_for("rg", "linux", "x86_64").expect("should have asset");
    assert!(name.contains("x86_64"));
    assert!(name.contains("linux"));
    assert!(name.contains("musl") || name.contains("gnu"));
}

#[test]
fn test_asset_name_fd_darwin_arm() {
    let name = asset_name_for("fd", "darwin", "aarch64").expect("should have asset");
    assert!(name.contains("aarch64"));
    assert!(name.contains("darwin"));
}

#[test]
fn test_asset_name_unsupported_platform() {
    assert!(asset_name_for("rg", "windows", "x86_64").is_none());
}

#[test]
fn test_expand_asset_name() {
    let template = "ripgrep-{VERSION}-x86_64-unknown-linux-musl.tar.gz";
    let result = expand_asset_name(template, "14.1.0");
    assert_eq!(result, "ripgrep-14.1.0-x86_64-unknown-linux-musl.tar.gz");
}

#[test]
fn asset_name_covers_all_supported_combinations_and_unknowns() {
    for tool in ["rg", "fd"] {
        for os in ["linux", "darwin"] {
            for arch in ["x86_64", "aarch64"] {
                let asset = asset_name_for(tool, os, arch).expect("supported asset");
                assert!(asset.contains("{VERSION}"));
                assert!(asset.contains(arch));
            }
        }
    }
    assert!(asset_name_for("fd", "windows", "x86_64").is_none());
    assert!(asset_name_for("unknown", "linux", "x86_64").is_none());
    assert!(asset_name_for("rg", "linux", "riscv64").is_none());
}

#[test]
fn detect_platform_returns_supported_current_platform() {
    let (os, arch) = detect_platform("linux", "x86_64").expect("supported");
    assert!(matches!(os.as_str(), "linux" | "darwin"));
    assert!(matches!(arch.as_str(), "x86_64" | "aarch64"));
    let (os, arch) = detect_platform("macos", "aarch64").expect("supported");
    assert_eq!(os, "darwin");
    assert_eq!(arch, "aarch64");
}

// --- own tests ---

#[test]
fn detect_platform_refuses_others() {
    assert_eq!(
        detect_platform("windows", "x86_64").unwrap_err(),
        "Unsupported OS for auto-download. Install rg/fd manually."
    );
    assert_eq!(
        detect_platform("linux", "riscv64").unwrap_err(),
        "Unsupported CPU architecture for auto-download. Install rg/fd manually."
    );
}

#[test]
fn expand_replaces_every_placeholder() {
    assert_eq!(expand_asset_name("{VERSION}/{VERSION}", "1"), "1/1");
    assert_eq!(expand_asset_name("plain", "1"), "plain");
}

#[test]
fn latest_version_strips_leading_v() {
    assert_eq!(latest_version_from(r#"{"tag_name":"v10.1.0"}"#).unwrap(), "10.1.0");
    assert_eq!(latest_version_from(r#"{"tag_name":"14.1.0"}"#).unwrap(), "14.1.0");
    assert_eq!(
        latest_version_from(r#"{"name":"x"}"#).unwrap_err(),
        "GitHub API: missing tag_name"
    );
    assert!(latest_version_from("not json")
        .unwrap_err()
        .starts_with("GitHub API JSON parse error: "));
}

#[test]
fn release_asset_for_fd() {
    let cfg = find_config("fd").unwrap();
    let a = release_asset(&cfg, "10.1.0", "linux", "x86_64").unwrap();
    assert_eq!(a.file_name, "fd-10.1.0-x86_64-unknown-linux-gnu.tar.gz");
    assert_eq!(
        a.url,
        "https://github.com/sharkdp/fd/releases/download/v10.1.0/fd-10.1.0-x86_64-unknown-linux-gnu.tar.gz"
    );
    let e = release_asset(&cfg, "10.1.0", "windows", "x86_64").unwrap_err();
    assert_eq!(
        e,
        "Unsupported platform: windows/x86_64 for fd-find. Install manually: https://github.com/sharkdp/fd#installation"
    );
}

#[test]
fn resolution_order() {
    let cfg = find_config("rg").unwrap();
    match resolve_tool(&cfg, Some("/usr/bin/rg".to_string()), "/c", true, true).unwrap() {
        Resolution::Found(p) => assert_eq!(p, "/usr/bin/rg"),
        _ => panic!("expected path"),
    }
    match resolve_tool(&cfg, None, "/c", true, true).unwrap() {
        Resolution::Found(p) => assert_eq!(p, "/c/rg"),
        _ => panic!("expected cache"),
    }
    let e = resolve_tool(&cfg, None, "/c", false, true).unwrap_err();
    assert_eq!(e, offline_error(&cfg));
    assert!(e.to_lowercase().contains("offline"));
    assert!(matches!(
        resolve_tool(&cfg, None, "/c", false, false).unwrap(),
        Resolution::Download
    ));
    assert_eq!(
        unknown_tool_error("zz"),
        "Unknown tool: 'zz'. Supported tools: rg, fd"
    );
}

#[test]
fn cache_dir_mentions_quecto() {
    let d = tools_cache_dir("/tmp");
    assert!(d.contains("quecto"));
}

#[test]
fn replace_str_replaces_left_to_right_without_overlap() {
    assert_eq!(replace_str("aaaa", "aa", "b"), "bb");
    assert_eq!(replace_str("aaa", "aa", "b"), "ba");
    assert_eq!(replace_str("x AM y AM", " AM", "\u{202F}AM"), "x\u{202F}AM y\u{202F}AM");
    assert_eq!(replace_str("", "a", "b"), "");
}

#[test]
fn test_tools_cache_dir_is_reasonable() {
    let dir = tools_cache_dir("/tmp");
    assert!(dir.starts_with('/'), "cache dir should be absolute: {:?}", dir);
    assert!(dir.contains("quecto"), "cache dir should contain 'quecto': {:?}", dir);
}

#[test]
fn which_looks_in_each_search_dir_then_falls_back() {
    let c = which_candidates("/usr/bin:/bin::/opt/x", "rg");
    assert_eq!(c, vec!["/usr/bin/rg", "/bin/rg", "rg", "/opt/x/rg"]);
    assert_eq!(which_candidates("", "fd"), vec!["fd"]);
    assert_eq!(pick_which("rg", &c, &[false, true, true, false]), "/bin/rg");
    assert_eq!(pick_which("rg", &c, &[false, false, false, false]), "rg");
}
