//! Making `rg` and `fd` available: a binary on the search path wins, then
//! one cached earlier, then (unless offline) one downloaded from the tool's
//! GitHub releases. The library knows the tools, names the release assets,
//! reads the release answer and decides; probing the disk, the network and
//! unpacking archives happen in the caller.

use vstd::prelude::*;

use crate::jail::{join_paths, joined_path};
use crate::text::{
    ascii_lower, chars_of, has_prefix, matches_at, owned, push_char, push_str, str_is,
    to_ascii_lower,
};
use crate::tool::{json_str_member, json_string_member};

verus! {

/// The environment variable that turns downloads off.
pub const OFFLINE_ENV_VAR: &'static str = "QUECTO_OFFLINE";

/// A tool that can be fetched.
#[derive(Debug, Clone, Copy)]
pub struct ToolConfig {
    /// The binary's file name (`rg`, `fd`).
    pub binary_name: &'static str,
    /// The GitHub repository.
    pub repo: &'static str,
    /// What release tags put before the version (`v` for fd).
    pub tag_prefix: &'static str,
    /// The name used in messages.
    pub display_name: &'static str,
    /// Where to read how to install it by hand.
    pub install_url: &'static str,
}

/// The configuration of a known tool, by binary name.
pub open spec fn config_fields(tool: Seq<char>) -> Option<(Seq<char>, Seq<char>, Seq<char>, Seq<char>)> {
    if tool == "rg"@ {
        Some(
            (
                "BurntSushi/ripgrep"@,
                ""@,
                "ripgrep"@,
                "https://github.com/BurntSushi/ripgrep#installation"@,
            ),
        )
    } else if tool == "fd"@ {
        Some(("sharkdp/fd"@, "v"@, "fd-find"@, "https://github.com/sharkdp/fd#installation"@))
    } else {
        None
    }
}

/// `c` is the configuration of `tool`.
pub open spec fn is_config_of(c: ToolConfig, tool: Seq<char>) -> bool {
    match config_fields(tool) {
        Some((repo, prefix, display, url)) => c.binary_name@ == tool && c.repo@ == repo
            && c.tag_prefix@ == prefix && c.display_name@ == display && c.install_url@ == url,
        None => false,
    }
}

/// The configuration of `tool` (`rg` or `fd`), `None` for any other name.
pub fn find_config(tool: &str) -> (r: Option<ToolConfig>)
    ensures
        config_fields(tool@) is None ==> r is None,
        config_fields(tool@) is Some ==> (r matches Some(c) && is_config_of(c, tool@)),
{
    if str_is(tool, "rg") {
        Some(
            ToolConfig {
                binary_name: "rg",
                repo: "BurntSushi/ripgrep",
                tag_prefix: "",
                display_name: "ripgrep",
                install_url: "https://github.com/BurntSushi/ripgrep#installation",
            },
        )
    } else if str_is(tool, "fd") {
        Some(
            ToolConfig {
                binary_name: "fd",
                repo: "sharkdp/fd",
                tag_prefix: "v",
                display_name: "fd-find",
                install_url: "https://github.com/sharkdp/fd#installation",
            },
        )
    } else {
        None
    }
}

/// The value of the offline variable turns downloads off when it is `1`,
/// or `true` or `yes` in any ASCII case.
pub open spec fn offline_value(v: Option<Seq<char>>) -> bool {
    match v {
        Some(s) => s == "1"@ || ascii_lower(s) == "true"@ || ascii_lower(s) == "yes"@,
        None => false,
    }
}

/// Whether the offline variable's value (`None` when unset) turns
/// downloads off (see `offline_value`).
pub fn is_offline(value: Option<&str>) -> (r: bool)
    ensures
        r == offline_value(
            match value {
                Some(s) => Some(s@),
                None => None,
            },
        ),
{
    match value {
        Some(v) => {
            let low = to_ascii_lower(v);
            str_is(v, "1") || str_is(low.as_str(), "true") || str_is(low.as_str(), "yes")
        },
        None => false,
    }
}

/// The release asset of `tool` for `os` and `arch`, with `{VERSION}` where
/// the version goes.
pub open spec fn asset_template(tool: Seq<char>, os: Seq<char>, arch: Seq<char>) -> Option<
    Seq<char>,
> {
    if tool == "rg"@ && os == "linux"@ && arch == "x86_64"@ {
        Some("ripgrep-{VERSION}-x86_64-unknown-linux-musl.tar.gz"@)
    } else if tool == "rg"@ && os == "linux"@ && arch == "aarch64"@ {
        Some("ripgrep-{VERSION}-aarch64-unknown-linux-gnu.tar.gz"@)
    } else if tool == "rg"@ && os == "darwin"@ && arch == "x86_64"@ {
        Some("ripgrep-{VERSION}-x86_64-apple-darwin.tar.gz"@)
    } else if tool == "rg"@ && os == "darwin"@ && arch == "aarch64"@ {
        Some("ripgrep-{VERSION}-aarch64-apple-darwin.tar.gz"@)
    } else if tool == "fd"@ && os == "linux"@ && arch == "x86_64"@ {
        Some("fd-{VERSION}-x86_64-unknown-linux-gnu.tar.gz"@)
    } else if tool == "fd"@ && os == "linux"@ && arch == "aarch64"@ {
        Some("fd-{VERSION}-aarch64-unknown-linux-gnu.tar.gz"@)
    } else if tool == "fd"@ && os == "darwin"@ && arch == "x86_64"@ {
        Some("fd-{VERSION}-x86_64-apple-darwin.tar.gz"@)
    } else if tool == "fd"@ && os == "darwin"@ && arch == "aarch64"@ {
        Some("fd-{VERSION}-aarch64-apple-darwin.tar.gz"@)
    } else {
        None
    }
}

/// The release asset name template for `tool` on `os`/`arch` (see
/// `asset_template`).
pub fn asset_name_for(tool: &str, os: &str, arch: &str) -> (r: Option<&'static str>)
    ensures
        match r {
            Some(t) => asset_template(tool@, os@, arch@) == Some(t@),
            None => asset_template(tool@, os@, arch@) is None,
        },
{
    let rg = str_is(tool, "rg");
    let fd = str_is(tool, "fd");
    let linux = str_is(os, "linux");
    let darwin = str_is(os, "darwin");
    let x86 = str_is(arch, "x86_64");
    let arm = str_is(arch, "aarch64");
    if rg && linux && x86 {
        Some("ripgrep-{VERSION}-x86_64-unknown-linux-musl.tar.gz")
    } else if rg && linux && arm {
        Some("ripgrep-{VERSION}-aarch64-unknown-linux-gnu.tar.gz")
    } else if rg && darwin && x86 {
        Some("ripgrep-{VERSION}-x86_64-apple-darwin.tar.gz")
    } else if rg && darwin && arm {
        Some("ripgrep-{VERSION}-aarch64-apple-darwin.tar.gz")
    } else if fd && linux && x86 {
        Some("fd-{VERSION}-x86_64-unknown-linux-gnu.tar.gz")
    } else if fd && linux && arm {
        Some("fd-{VERSION}-aarch64-unknown-linux-gnu.tar.gz")
    } else if fd && darwin && x86 {
        Some("fd-{VERSION}-x86_64-apple-darwin.tar.gz")
    } else if fd && darwin && arm {
        Some("fd-{VERSION}-aarch64-apple-darwin.tar.gz")
    } else {
        None
    }
}

/// `s` with every occurrence of `p`, read left to right without overlap,
/// replaced by `r` (`str::replace` for a non-empty `p`).
pub open spec fn replace_all(s: Seq<char>, p: Seq<char>, r: Seq<char>) -> Seq<char>
    decreases s.len(),
{
    if s.len() == 0 {
        s
    } else if p.len() > 0 && has_prefix(s, p) {
        r + replace_all(s.skip(p.len() as int), p, r)
    } else {
        seq![s[0]] + replace_all(s.skip(1), p, r)
    }
}

/// `s` with every occurrence of `p` replaced by `r`, left to right
/// (`str::replace`).
pub fn replace_str(s: &str, p: &str, r: &str) -> (out: String)
    requires
        p@.len() > 0,
    ensures
        out@ == replace_all(s@, p@, r@),
{
    let cs = chars_of(s);
    let ps = chars_of(p);
    let n = ps.len();
    let mut out = owned("");
    let mut i: usize = 0;
    proof {
        reveal_strlit("");
        assert(s@.skip(0) =~= s@);
        assert(out@ + replace_all(s@.skip(0), p@, r@) =~= replace_all(s@, p@, r@));
    }
    while i < cs.len()
        invariant
            i <= cs.len(),
            cs@ == s@,
            ps@ == p@,
            n == p@.len(),
            n > 0,
            replace_all(s@, p@, r@) == out@ + replace_all(s@.skip(i as int), p@, r@),
        decreases cs.len() - i,
    {
        let ghost rest = s@.skip(i as int);
        if matches_at(cs.as_slice(), ps.as_slice(), i) {
            assert(has_prefix(rest, p@)) by {
                assert(rest.take(n as int) =~= cs@.subrange(i as int, i + n));
            }
            assert(rest.skip(n as int) =~= s@.skip(i + n));
            push_str(&mut out, r);
            i = i + n;
        } else {
            assert(!has_prefix(rest, p@)) by {
                if has_prefix(rest, p@) {
                    assert(rest.take(n as int) =~= cs@.subrange(i as int, i + n));
                }
            }
            assert(rest.skip(1) =~= s@.skip(i + 1));
            assert(rest[0] == cs@[i as int]);
            push_char(&mut out, cs[i]);
            i = i + 1;
        }
        assert(out@ + replace_all(s@.skip(i as int), p@, r@) =~= replace_all(s@, p@, r@));
    }
    assert(s@.skip(cs.len() as int) =~= Seq::<char>::empty());
    out
}

/// An asset name template with its `{VERSION}` filled in.
pub fn expand_asset_name(template: &str, version: &str) -> (r: String)
    ensures
        r@ == replace_all(template@, "{VERSION}"@, version@),
{
    proof {
        reveal_strlit("{VERSION}");
    }
    replace_str(template, "{VERSION}", version)
}

/// `s` without its leading `v`s (`trim_start_matches('v')`).
pub open spec fn without_leading_v(s: Seq<char>) -> Seq<char>
    decreases s.len(),
{
    if s.len() > 0 && s[0] == 'v' {
        without_leading_v(s.drop_first())
    } else {
        s
    }
}

/// The latest version from the answer of GitHub's latest-release API: its
/// `tag_name` without leading `v`s; an error when the answer is not JSON
/// or names no tag.
pub fn latest_version_from(body: &str) -> (r: Result<String, String>)
    ensures
        json_string_member(body@, "tag_name"@) is None ==> (r matches Err(m) && has_prefix(
            m@,
            "GitHub API JSON parse error: "@,
        )),
        json_string_member(body@, "tag_name"@) == Some(None::<Seq<char>>) ==> (r matches Err(m)
            && m@ == "GitHub API: missing tag_name"@),
        forall|t: Seq<char>|
            json_string_member(body@, "tag_name"@) == Some(Some(t)) ==> (r matches Ok(v) && v@
                == without_leading_v(t)),
{
    let tag = match json_str_member(body, "tag_name") {
        Err(e) => {
            let mut m = owned("GitHub API JSON parse error: ");
            push_str(&mut m, e.as_str());
            proof {
                reveal_strlit("GitHub API JSON parse error: ");
            }
            assert(m@.take(29) =~= "GitHub API JSON parse error: "@);
            return Err(m);
        },
        Ok(None) => {
            return Err(owned("GitHub API: missing tag_name"));
        },
        Ok(Some(t)) => t,
    };
    let cs = chars_of(tag.as_str());
    let mut i: usize = 0;
    assert(tag@.skip(0) =~= tag@);
    while i < cs.len() && cs[i] == 'v'
        invariant
            i <= cs.len(),
            cs@ == tag@,
            without_leading_v(tag@) == without_leading_v(tag@.skip(i as int)),
        decreases cs.len() - i,
    {
        assert(tag@.skip(i as int).drop_first() =~= tag@.skip(i + 1));
        i = i + 1;
    }
    assert(cs@.subrange(i as int, cs.len() as int) =~= tag@.skip(i as int));
    Ok(crate::text::string_from_chars(&cs.as_slice()[i..cs.len()]))
}

/// The operating system and architecture names used in asset names, from
/// the ones Rust calls the target: `linux` and `macos` (`darwin`),
/// `x86_64` and `aarch64`.
pub fn detect_platform(target_os: &str, target_arch: &str) -> (r: Result<(String, String), String>)
    ensures
        !(target_os@ == "linux"@ || target_os@ == "macos"@) ==> (r matches Err(m) && m@
            == "Unsupported OS for auto-download. Install rg/fd manually."@),
        (target_os@ == "linux"@ || target_os@ == "macos"@) && !(target_arch@ == "x86_64"@
            || target_arch@ == "aarch64"@) ==> (r matches Err(m) && m@
            == "Unsupported CPU architecture for auto-download. Install rg/fd manually."@),
        (target_os@ == "linux"@ || target_os@ == "macos"@) && (target_arch@ == "x86_64"@
            || target_arch@ == "aarch64"@) ==> (r matches Ok((os, arch)) && os@ == (if target_os@
            == "linux"@ {
            "linux"@
        } else {
            "darwin"@
        }) && arch@ == target_arch@),
{
    let os = if str_is(target_os, "linux") {
        owned("linux")
    } else if str_is(target_os, "macos") {
        owned("darwin")
    } else {
        return Err(owned("Unsupported OS for auto-download. Install rg/fd manually."));
    };
    let arch = if str_is(target_arch, "x86_64") {
        owned("x86_64")
    } else if str_is(target_arch, "aarch64") {
        owned("aarch64")
    } else {
        return Err(owned("Unsupported CPU architecture for auto-download. Install rg/fd manually."));
    };
    Ok((os, arch))
}

/// The error for a tool that is not known.
pub fn unknown_tool_error(tool: &str) -> (r: String)
    ensures
        r@ == "Unknown tool: '"@ + tool@ + "'. Supported tools: rg, fd"@,
{
    let mut m = owned("Unknown tool: '");
    push_str(&mut m, tool);
    push_str(&mut m, "'. Supported tools: rg, fd");
    m
}

/// The error when a tool is missing and downloads are off.
pub fn offline_error(cfg: &ToolConfig) -> (r: String)
    ensures
        r@ == cfg.display_name@ + " not found and offline mode is enabled ("@ + OFFLINE_ENV_VAR@
            + "=1). Install manually: "@ + cfg.install_url@,
{
    let mut m = owned(cfg.display_name);
    push_str(&mut m, " not found and offline mode is enabled (");
    push_str(&mut m, OFFLINE_ENV_VAR);
    push_str(&mut m, "=1). Install manually: ");
    push_str(&mut m, cfg.install_url);
    m
}

/// Where a tool's release comes from: the archive's file name and its URL.
#[derive(Debug)]
pub struct ReleaseAsset {
    pub file_name: String,
    pub url: String,
}

/// The release asset of `cfg` at `version` for `os`/`arch`: the file named
/// by the asset template with the version filled in, under the tag made of
/// the tool's prefix and the version; an error for an unsupported platform.
pub fn release_asset(cfg: &ToolConfig, version: &str, os: &str, arch: &str) -> (r: Result<
    ReleaseAsset,
    String,
>)
    ensures
        asset_template(cfg.binary_name@, os@, arch@) is None ==> (r matches Err(m) && m@
            == "Unsupported platform: "@ + os@ + "/"@ + arch@ + " for "@ + cfg.display_name@
            + ". Install manually: "@ + cfg.install_url@),
        forall|t: Seq<char>|
            asset_template(cfg.binary_name@, os@, arch@) == Some(t) ==> (r matches Ok(a) && a.file_name@
                == replace_all(t, "{VERSION}"@, version@) && a.url@ == "https://github.com/"@
                + cfg.repo@ + "/releases/download/"@ + cfg.tag_prefix@ + version@ + "/"@
                + a.file_name@),
{
    let template = match asset_name_for(cfg.binary_name, os, arch) {
        Some(t) => t,
        None => {
            let mut m = owned("Unsupported platform: ");
            push_str(&mut m, os);
            push_str(&mut m, "/");
            push_str(&mut m, arch);
            push_str(&mut m, " for ");
            push_str(&mut m, cfg.display_name);
            push_str(&mut m, ". Install manually: ");
            push_str(&mut m, cfg.install_url);
            return Err(m);
        },
    };
    let file_name = expand_asset_name(template, version);
    let mut url = owned("https://github.com/");
    push_str(&mut url, cfg.repo);
    push_str(&mut url, "/releases/download/");
    push_str(&mut url, cfg.tag_prefix);
    push_str(&mut url, version);
    push_str(&mut url, "/");
    push_str(&mut url, file_name.as_str());
    Ok(ReleaseAsset { file_name, url })
}

/// What to do for a known tool once the search path and the cache were
/// probed.
#[derive(Debug)]
pub enum Resolution {
    /// Use the binary at this path.
    Found(String),
    /// Fetch the tool's release into the cache.
    Download,
}

/// The decision for `cfg`: the binary found on the search path, else the
/// cached binary (`cache_dir` joined with the binary's name) when it
/// exists, else an error when offline, else a download.
pub fn resolve_tool(
    cfg: &ToolConfig,
    on_path: Option<String>,
    cache_dir: &str,
    cached_exists: bool,
    offline: bool,
) -> (r: Result<Resolution, String>)
    ensures
        on_path is Some ==> (r matches Ok(Resolution::Found(p)) && p@ == on_path->0@),
        on_path is None && cached_exists ==> (r matches Ok(Resolution::Found(p)) && p@
            == joined_path(cache_dir@, cfg.binary_name@)),
        on_path is None && !cached_exists && offline ==> (r matches Err(m) && m@
            == cfg.display_name@ + " not found and offline mode is enabled ("@ + OFFLINE_ENV_VAR@
            + "=1). Install manually: "@ + cfg.install_url@),
        on_path is None && !cached_exists && !offline ==> r matches Ok(Resolution::Download),
{
    if let Some(p) = on_path {
        return Ok(Resolution::Found(p));
    }
    if cached_exists {
        return Ok(Resolution::Found(join_paths(cache_dir, cfg.binary_name)));
    }
    if offline {
        return Err(offline_error(cfg));
    }
    Ok(Resolution::Download)
}


/// The cache of fetched binaries: `quecto/tools` under the user's local
/// data directory, else `.quecto/tools` under the home directory, else
/// `quecto-tools` in the temporary directory.
pub open spec fn cache_dir_of(data_local: Option<Seq<char>>, home: Option<Seq<char>>, temp: Seq<
    char,
>) -> Seq<char> {
    match data_local {
        Some(d) => joined_path(joined_path(d, "quecto"@), "tools"@),
        None => match home {
            Some(h) => joined_path(joined_path(h, ".quecto"@), "tools"@),
            None => joined_path(temp, "quecto-tools"@),
        },
    }
}

/// The user's local data directory (`dirs::data_local_dir`). It depends on
/// the environment, so nothing is promised of it.
#[verifier::external_body]
fn data_local_dir() -> (r: Option<String>) {
    dirs::data_local_dir().map(|p| p.to_string_lossy().to_string())
}

/// The cache of fetched binaries (see `cache_dir_of`), given the
/// temporary directory; the data and home directories are read from the
/// environment.
pub fn tools_cache_dir(temp_dir: &str) -> (r: String)
    ensures
        exists|d: Option<Seq<char>>, h: Option<Seq<char>>| r@ == cache_dir_of(d, h, temp_dir@),
{
    let data = data_local_dir();
    let home = crate::path_utils::home_dir();
    let r = match &data {
        Some(d) => {
            let q = join_paths(d.as_str(), "quecto");
            join_paths(q.as_str(), "tools")
        },
        None => match &home {
            Some(h) => {
                let q = join_paths(h.as_str(), ".quecto");
                join_paths(q.as_str(), "tools")
            },
            None => join_paths(temp_dir, "quecto-tools"),
        },
    };
    let ghost dv = match data {
        Some(d) => Some(d@),
        None => None,
    };
    let ghost hv = match home {
        Some(h) => Some(h@),
        None => None,
    };
    assert(r@ == cache_dir_of(dv, hv, temp_dir@));
    r
}


/// `s` split at each `c` (`str::split`): always at least one piece.
pub open spec fn split_on(s: Seq<char>, c: char) -> Seq<Seq<char>>
    decreases s.len(),
{
    if s.len() == 0 {
        seq![Seq::<char>::empty()]
    } else {
        let init = split_on(s.drop_last(), c);
        if s.last() == c {
            init.push(Seq::<char>::empty())
        } else {
            init.update(init.len() - 1, init.last().push(s.last()))
        }
    }
}

/// A split always has a piece.
pub proof fn lemma_split_nonempty(s: Seq<char>, c: char)
    ensures
        split_on(s, c).len() >= 1,
    decreases s.len(),
{
    if s.len() > 0 {
        lemma_split_nonempty(s.drop_last(), c);
    }
}

/// Where `name` is looked for on a search path (`PATH`, `:`-separated):
/// each directory joined with the name, in order.
pub open spec fn which_candidates_of(path_var: Seq<char>, name: Seq<char>) -> Seq<Seq<char>> {
    split_on(path_var, ':').map_values(|d: Seq<char>| joined_path(d, name))
}

/// The places to look for `name` on the search path `path_var`.
pub fn which_candidates(path_var: &str, name: &str) -> (r: Vec<String>)
    ensures
        r@.map_values(|x: String| x@) == which_candidates_of(path_var@, name@),
{
    let cs = chars_of(path_var);
    let mut dirs: Vec<String> = Vec::new();
    let mut cur = owned("");
    proof {
        reveal_strlit("");
        assert(path_var@.take(0) =~= Seq::<char>::empty());
        assert(split_on(path_var@.take(0), ':') == seq![Seq::<char>::empty()]);
        assert(cur@ =~= Seq::<char>::empty());
        assert(dirs@.map_values(|x: String| x@) =~= Seq::<Seq<char>>::empty());
        assert(dirs@.map_values(|x: String| x@).push(cur@) =~= seq![Seq::<char>::empty()]);
    }
    let mut i: usize = 0;
    while i < cs.len()
        invariant
            i <= cs.len(),
            cs@ == path_var@,
            ""@ == Seq::<char>::empty(),
            dirs@.map_values(|x: String| x@).push(cur@) == split_on(path_var@.take(i as int), ':'),
        decreases cs.len() - i,
    {
        let ghost before = path_var@.take(i as int);
        let ghost after = path_var@.take(i as int + 1);
        assert(after.drop_last() =~= before);
        assert(after.last() == cs@[i as int]);
        proof {
            lemma_split_nonempty(before, ':');
        }
        let ghost dv = dirs@.map_values(|x: String| x@);
        let ghost old_cur = cur@;
        let ghost init = split_on(before, ':');
        assert(init == dv.push(old_cur));
        assert(init.last() == old_cur);
        if cs[i] == ':' {
            let mut done = owned("");
            std::mem::swap(&mut cur, &mut done);
            dirs.push(done);
            assert(dirs@.map_values(|x: String| x@) =~= dv.push(split_on(before, ':').last()));
            assert(dirs@.map_values(|x: String| x@).push(cur@) =~= split_on(after, ':'));
        } else {
            push_char(&mut cur, cs[i]);
            assert(split_on(after, ':') == init.update(init.len() - 1, old_cur.push(cs@[i as int])));
            assert(dirs@.map_values(|x: String| x@).push(cur@) =~= split_on(after, ':'));
        }
        i = i + 1;
    }
    dirs.push(cur);
    assert(path_var@.take(cs.len() as int) =~= path_var@);
    let ghost parts = dirs@.map_values(|x: String| x@);
    let mut out: Vec<String> = Vec::new();
    let mut j: usize = 0;
    while j < dirs.len()
        invariant
            j <= dirs@.len(),
            parts == dirs@.map_values(|x: String| x@),
            out@.map_values(|x: String| x@) == parts.take(j as int).map_values(|d: Seq<char>| joined_path(d, name@)),
        decreases dirs.len() - j,
    {
        let ghost oo = out@;
        let p = join_paths(dirs[j].as_str(), name);
        out.push(p);
        assert(parts.take(j as int + 1) =~= parts.take(j as int).push(parts[j as int]));
        assert(parts[j as int] == dirs@[j as int]@);
        assert(out@.map_values(|x: String| x@) =~= oo.map_values(|x: String| x@).push(joined_path(parts[j as int], name@)));
        assert(out@.map_values(|x: String| x@) =~= parts.take(j as int + 1).map_values(|d: Seq<char>| joined_path(d, name@)));
        j = j + 1;
    }
    assert(parts.take(dirs@.len() as int) =~= parts);
    out
}

/// The binary to run for `name`: the first candidate that is a file, else
/// the bare name for the system to find.
pub fn pick_which(name: &str, cands: &[String], is_file: &[bool]) -> (r: String)
    requires
        is_file@.len() == cands@.len(),
    ensures
        (exists|i: int| 0 <= i < cands@.len() && is_file@[i] && r@ == cands@[i]@ && forall|k: int| 0 <= k < i ==> !is_file@[k])
            || ((forall|k: int| 0 <= k < cands@.len() ==> !is_file@[k]) && r@ == name@),
{
    let mut i: usize = 0;
    while i < cands.len()
        invariant
            i <= cands@.len(),
            is_file@.len() == cands@.len(),
            forall|k: int| 0 <= k < i ==> !is_file@[k],
        decreases cands.len() - i,
    {
        if is_file[i] {
            return cands[i].clone();
        }
        i = i + 1;
    }
    owned(name)
}

} // verus!
