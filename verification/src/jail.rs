//! Process invocations for shell commands: the argument list of an nsjail
//! container, the environment handed to the child, and the checks that keep
//! the jail binary inside trusted system directories.

use vstd::prelude::*;

use crate::text::{chars_of, decimal, decimal_string, has_prefix, owned, push_char, push_str, starts_with};

verus! {

/// A process to launch: program, arguments, working directory and its whole
/// environment (nothing is inherited from the parent).
pub struct CommandSpec {
    pub program: String,
    pub args: Vec<String>,
    pub current_dir: String,
    pub env: Vec<(String, String)>,
}

/// The contents of a list of strings.
pub open spec fn strs(v: Seq<String>) -> Seq<Seq<char>> {
    v.map_values(|s: String| s@)
}

/// The contents of a list of key/value string pairs.
pub open spec fn pairs(v: Seq<(String, String)>) -> Seq<(Seq<char>, Seq<char>)> {
    v.map_values(|p: (String, String)| (p.0@, p.1@))
}

impl CommandSpec {
    pub open spec fn args_view(&self) -> Seq<Seq<char>> {
        strs(self.args@)
    }

    pub open spec fn env_view(&self) -> Seq<(Seq<char>, Seq<char>)> {
        pairs(self.env@)
    }
}

/// Appends a string to a list of strings.
pub fn push_string(v: &mut Vec<String>, s: String)
    ensures
        strs(final(v)@) == strs(old(v)@).push(s@),
{
    let ghost before = v@;
    v.push(s);
    assert(strs(v@) =~= strs(before).push(s@));
}

/// Appends a key/value pair to a list of pairs.
pub fn push_pair(v: &mut Vec<(String, String)>, k: String, val: String)
    ensures
        pairs(final(v)@) == pairs(old(v)@).push((k@, val@)),
{
    let ghost before = v@;
    v.push((k, val));
    assert(pairs(v@) =~= pairs(before).push((k@, val@)));
}

/// Copies a list of strings.
pub fn copy_strings(v: &[String]) -> (r: Vec<String>)
    ensures
        strs(r@) == strs(v@),
{
    let mut r: Vec<String> = Vec::new();
    let mut i: usize = 0;
    while i < v.len()
        invariant
            i <= v.len(),
            strs(r@) == strs(v@.take(i as int)),
        decreases v.len() - i,
    {
        push_string(&mut r, v[i].clone());
        assert(strs(v@.take(i as int + 1)) =~= strs(v@.take(i as int)).push(v@[i as int]@));
        i = i + 1;
    }
    assert(v@.take(v.len() as int) =~= v@);
    r
}

// ---------------------------------------------------------------------------
// nsjail arguments
// ---------------------------------------------------------------------------

/// `p:p`: a host path mounted at the same place inside the jail.
pub open spec fn same_place(p: Seq<char>) -> Seq<char> {
    p + seq![':'] + p
}

/// One `--bindmount_ro p:p` pair per path, in order.
pub open spec fn ro_mount_args(ps: Seq<Seq<char>>) -> Seq<Seq<char>>
    decreases ps.len(),
{
    if ps.len() == 0 {
        Seq::empty()
    } else {
        ro_mount_args(ps.drop_last()) + seq!["--bindmount_ro"@, same_place(ps.last())]
    }
}

/// The leading arguments: quiet one-shot mode, `/workspace` as working
/// directory, and the workspace mounted read-write there.
pub open spec fn head_args(workspace: Seq<char>) -> Seq<Seq<char>> {
    seq![
        "--quiet"@,
        "--mode"@,
        "o"@,
        "--cwd"@,
        "/workspace"@,
        "--bindmount"@,
        workspace + ":/workspace"@,
    ]
}

/// `flag value` when the limit is set, nothing otherwise.
pub open spec fn limit_args(flag: Seq<char>, v: Option<u64>) -> Seq<Seq<char>> {
    match v {
        Some(x) => seq![flag, decimal(x as nat)],
        None => Seq::empty(),
    }
}

/// The size of a tmpfs of `mb` megabytes, in bytes.
pub open spec fn tmpfs_bytes(mb: u64) -> nat {
    (mb * 1048576) as nat
}

/// `-m none:/tmp:tmpfs:size=<bytes>` when a `/tmp` size is set.
pub open spec fn tmpfs_args(tmp_mb: Option<u64>) -> Seq<Seq<char>> {
    match tmp_mb {
        Some(mb) => seq!["-m"@, "none:/tmp:tmpfs:size="@ + decimal(tmpfs_bytes(mb))],
        None => Seq::empty(),
    }
}

/// A `/tmp` size whose byte count fits in `u64`.
pub open spec fn tmpfs_fits(tmp_mb: Option<u64>) -> bool {
    tmp_mb matches Some(mb) ==> mb * 1048576 <= u64::MAX
}

/// The trailing arguments: run `command` with `/bin/sh -c`.
pub open spec fn shell_tail_args(command: Seq<char>) -> Seq<Seq<char>> {
    seq!["--"@, "/bin/sh"@, "-c"@, command]
}

/// A string from a literal.
fn lit(s: &str) -> (r: String)
    ensures
        r@ == s@,
{
    owned(s)
}

/// Appends the leading arguments.
pub fn append_head_args(args: &mut Vec<String>, workspace: &str)
    ensures
        strs(final(args)@) == strs(old(args)@) + head_args(workspace@),
{
    let ghost start = strs(args@);
    push_string(args, lit("--quiet"));
    push_string(args, lit("--mode"));
    push_string(args, lit("o"));
    push_string(args, lit("--cwd"));
    push_string(args, lit("/workspace"));
    push_string(args, lit("--bindmount"));
    let mut ws = owned(workspace);
    push_str(&mut ws, ":/workspace");
    push_string(args, ws);
    assert(strs(args@) =~= start + head_args(workspace@));
}

/// Appends a `--bindmount_ro p:p` pair for each path.
pub fn append_ro_mounts(args: &mut Vec<String>, paths: &[String])
    ensures
        strs(final(args)@) == strs(old(args)@) + ro_mount_args(strs(paths@)),
{
    let ghost start = strs(args@);
    let mut i: usize = 0;
    assert(strs(paths@.take(0)) =~= Seq::<Seq<char>>::empty());
    assert(start + ro_mount_args(Seq::<Seq<char>>::empty()) =~= start);
    while i < paths.len()
        invariant
            i <= paths.len(),
            strs(args@) == start + ro_mount_args(strs(paths@.take(i as int))),
        decreases paths.len() - i,
    {
        let ghost pre = strs(paths@.take(i as int));
        let ghost post = strs(paths@.take(i as int + 1));
        assert(post.drop_last() =~= pre);
        assert(post.last() == paths@[i as int]@);
        push_string(args, lit("--bindmount_ro"));
        let mut pair = paths[i].clone();
        push_char(&mut pair, ':');
        push_str(&mut pair, paths[i].as_str());
        assert(pair@ =~= same_place(paths@[i as int]@));
        assert(ro_mount_args(post) == ro_mount_args(pre) + seq![
            "--bindmount_ro"@,
            same_place(paths@[i as int]@),
        ]);
        push_string(args, pair);
        assert(strs(args@) =~= start + ro_mount_args(post));
        i = i + 1;
    }
    assert(paths@.take(paths.len() as int) =~= paths@);
}

/// Appends `flag value` when the limit is set.
pub fn append_limit(args: &mut Vec<String>, flag: &str, v: Option<u64>)
    ensures
        strs(final(args)@) == strs(old(args)@) + limit_args(flag@, v),
{
    let ghost start = strs(args@);
    match v {
        Some(x) => {
            push_string(args, owned(flag));
            let d = decimal_string(x);
            push_string(args, d);
            assert(limit_args(flag@, v) == seq![flag@, decimal(x as nat)]);
            assert(strs(args@) =~= start + limit_args(flag@, v));
        },
        None => {
            assert(strs(args@) =~= start + limit_args(flag@, v));
        },
    }
}

/// Appends the bounded `/tmp` tmpfs mount when a size is set.
pub fn append_tmpfs(args: &mut Vec<String>, tmp_mb: Option<u64>)
    requires
        tmpfs_fits(tmp_mb),
    ensures
        strs(final(args)@) == strs(old(args)@) + tmpfs_args(tmp_mb),
{
    let ghost start = strs(args@);
    match tmp_mb {
        Some(mb) => {
            push_string(args, lit("-m"));
            let mut spec_arg = lit("none:/tmp:tmpfs:size=");
            let bytes = decimal_string(mb * 1048576);
            push_str(&mut spec_arg, bytes.as_str());
            push_string(args, spec_arg);
            assert(strs(args@) =~= start + tmpfs_args(tmp_mb));
        },
        None => {
            assert(strs(args@) =~= start + tmpfs_args(tmp_mb));
        },
    }
}

/// Appends `-- /bin/sh -c command`.
pub fn append_shell_tail(args: &mut Vec<String>, command: &str)
    ensures
        strs(final(args)@) == strs(old(args)@) + shell_tail_args(command@),
{
    let ghost start = strs(args@);
    push_string(args, lit("--"));
    push_string(args, lit("/bin/sh"));
    push_string(args, lit("-c"));
    push_string(args, owned(command));
    assert(strs(args@) =~= start + shell_tail_args(command@));
}

/// Appends one flag.
pub fn append_flag(args: &mut Vec<String>, flag: &str)
    ensures
        strs(final(args)@) == strs(old(args)@).push(flag@),
{
    push_string(args, owned(flag));
}

// ---------------------------------------------------------------------------
// Environment
// ---------------------------------------------------------------------------

/// Keys with this prefix carry the agent's own secrets and never reach a child.
pub open spec fn is_secret_key(k: Seq<char>) -> bool {
    has_prefix(k, "QUECTO_"@)
}

/// Some entry of `env` has key `k`.
pub open spec fn has_key(env: Seq<(Seq<char>, Seq<char>)>, k: Seq<char>) -> bool {
    exists|i: int| 0 <= i < env.len() && env[i].0 == k
}

/// The value of the first entry with key `k`.
pub open spec fn lookup(env: Seq<(Seq<char>, Seq<char>)>, k: Seq<char>) -> Option<Seq<char>>
    decreases env.len(),
{
    if env.len() == 0 {
        None
    } else if env[0].0 == k {
        Some(env[0].1)
    } else {
        lookup(env.drop_first(), k)
    }
}

/// The entries whose keys are not secret, in order.
pub open spec fn public_entries(env: Seq<(Seq<char>, Seq<char>)>) -> Seq<(Seq<char>, Seq<char>)>
    decreases env.len(),
{
    if env.len() == 0 {
        Seq::empty()
    } else {
        let rest = public_entries(env.drop_last());
        if is_secret_key(env.last().0) {
            rest
        } else {
            rest.push(env.last())
        }
    }
}

/// `env` followed by `(key, value)` unless `source` already has `key`.
pub open spec fn default_entry(
    env: Seq<(Seq<char>, Seq<char>)>,
    source: Seq<(Seq<char>, Seq<char>)>,
    key: Seq<char>,
    value: Option<Seq<char>>,
) -> Seq<(Seq<char>, Seq<char>)> {
    if !has_key(source, key) && value is Some {
        env.push((key, value->0))
    } else {
        env
    }
}

/// The environment of a jailed command: the non-secret entries of `source`,
/// the host `PATH` when `source` has none, and `TMPDIR`, `TMP` and `TEMP`
/// set to `/tmp` unless `source` sets them.
pub open spec fn jail_env(
    source: Seq<(Seq<char>, Seq<char>)>,
    host_path: Option<Seq<char>>,
) -> Seq<(Seq<char>, Seq<char>)> {
    let base = default_entry(public_entries(source), source, "PATH"@, host_path);
    let t1 = default_entry(base, source, "TMPDIR"@, Some("/tmp"@));
    let t2 = default_entry(t1, source, "TMP"@, Some("/tmp"@));
    default_entry(t2, source, "TEMP"@, Some("/tmp"@))
}

/// Whether `source` has an entry with key `key`.
pub fn env_has_key(source: &[(String, String)], key: &str) -> (r: bool)
    ensures
        r == has_key(pairs(source@), key@),
{
    let target = owned(key);
    let mut i: usize = 0;
    while i < source.len()
        invariant
            i <= source.len(),
            target@ == key@,
            forall|j: int| 0 <= j < i ==> pairs(source@)[j].0 != key@,
        decreases source.len() - i,
    {
        if source[i].0 == target {
            assert(pairs(source@)[i as int].0 == key@);
            return true;
        }
        i = i + 1;
    }
    false
}

/// The value of the first entry of `source` with key `key`.
pub fn env_lookup(source: &[(String, String)], key: &str) -> (r: Option<String>)
    ensures
        match r {
            Some(v) => lookup(pairs(source@), key@) == Some(v@),
            None => lookup(pairs(source@), key@) is None,
        },
{
    let target = owned(key);
    let mut i: usize = 0;
    assert(pairs(source@).skip(0) =~= pairs(source@));
    while i < source.len()
        invariant
            i <= source.len(),
            target@ == key@,
            lookup(pairs(source@), key@) == lookup(pairs(source@).skip(i as int), key@),
        decreases source.len() - i,
    {
        let ghost rest = pairs(source@).skip(i as int);
        assert(rest.drop_first() =~= pairs(source@).skip(i as int + 1));
        if source[i].0 == target {
            return Some(source[i].1.clone());
        }
        i = i + 1;
    }
    None
}

/// The non-secret entries of `source`, in order.
pub fn public_env(source: &[(String, String)]) -> (r: Vec<(String, String)>)
    ensures
        pairs(r@) == public_entries(pairs(source@)),
{
    let prefix = chars_of("QUECTO_");
    let mut r: Vec<(String, String)> = Vec::new();
    let mut i: usize = 0;
    assert(pairs(source@).take(0) =~= Seq::<(Seq<char>, Seq<char>)>::empty());
    assert(public_entries(Seq::<(Seq<char>, Seq<char>)>::empty()) =~= Seq::<(Seq<char>, Seq<char>)>::empty());
    while i < source.len()
        invariant
            i <= source.len(),
            prefix@ == "QUECTO_"@,
            pairs(r@) == public_entries(pairs(source@).take(i as int)),
        decreases source.len() - i,
    {
        let ghost pre = pairs(source@).take(i as int);
        let ghost post = pairs(source@).take(i as int + 1);
        assert(post.drop_last() =~= pre);
        let key = chars_of(source[i].0.as_str());
        if !starts_with(key.as_slice(), prefix.as_slice()) {
            push_pair(&mut r, source[i].0.clone(), source[i].1.clone());
        }
        i = i + 1;
    }
    assert(pairs(source@).take(source.len() as int) =~= pairs(source@));
    r
}

/// Appends `(key, value)` to `env` unless `source` has `key`.
pub fn append_default(
    env: &mut Vec<(String, String)>,
    source: &[(String, String)],
    key: &str,
    value: Option<String>,
)
    ensures
        pairs(final(env)@) == default_entry(
            pairs(old(env)@),
            pairs(source@),
            key@,
            match value {
                Some(v) => Some(v@),
                None => None,
            },
        ),
{
    if !env_has_key(source, key) {
        match value {
            Some(v) => push_pair(env, owned(key), v),
            None => {},
        }
    }
}

/// The environment of a jailed command (see `jail_env`); `host_path` is the
/// `PATH` of the process launching it.
pub fn build_jail_env(source: &[(String, String)], host_path: Option<String>) -> (r: Vec<
    (String, String),
>)
    ensures
        pairs(r@) == jail_env(
            pairs(source@),
            match host_path {
                Some(p) => Some(p@),
                None => None,
            },
        ),
{
    let mut env = public_env(source);
    append_default(&mut env, source, "PATH", host_path);
    append_default(&mut env, source, "TMPDIR", Some(lit("/tmp")));
    append_default(&mut env, source, "TMP", Some(lit("/tmp")));
    append_default(&mut env, source, "TEMP", Some(lit("/tmp")));
    env
}

// ---------------------------------------------------------------------------
// Host paths
// ---------------------------------------------------------------------------

/// `r` is `c` with some elements left out, the rest kept in order.
pub open spec fn kept_from<T>(r: Seq<T>, c: Seq<T>) -> bool
    decreases c.len(),
{
    if c.len() == 0 {
        r.len() == 0
    } else if r.len() > 0 && r.last() == c.last() && kept_from(r.drop_last(), c.drop_last()) {
        true
    } else {
        kept_from(r, c.drop_last())
    }
}

/// Whether something exists at `path` on this host (`Path::exists`). The
/// answer depends on the file system, so nothing is promised of it.
#[verifier::external_body]
pub(crate) fn path_exists(path: &str) -> (r: bool) {
    std::path::Path::new(path).exists()
}

/// Those of `paths` that exist on this host, in order.
pub fn resolve_existing(paths: &[String]) -> (r: Vec<String>)
    ensures
        kept_from(strs(r@), strs(paths@)),
{
    let mut r: Vec<String> = Vec::new();
    let mut i: usize = 0;
    assert(strs(paths@.take(0)) =~= Seq::<Seq<char>>::empty());
    assert(strs(r@) =~= Seq::<Seq<char>>::empty());
    while i < paths.len()
        invariant
            i <= paths.len(),
            kept_from(strs(r@), strs(paths@.take(i as int))),
        decreases paths.len() - i,
    {
        let ghost pre = strs(paths@.take(i as int));
        let ghost post = strs(paths@.take(i as int + 1));
        assert(post.drop_last() =~= pre);
        assert(post.last() == paths@[i as int]@);
        let ghost before = strs(r@);
        if path_exists(paths[i].as_str()) {
            push_string(&mut r, paths[i].clone());
            assert(strs(r@).drop_last() =~= before);
        }
        i = i + 1;
    }
    assert(paths@.take(paths.len() as int) =~= paths@);
    r
}

/// Directories searched for the nsjail binary, and the roots a resolved
/// binary must lie under.
pub open spec fn trusted_nsjail_dirs() -> Seq<Seq<char>> {
    seq!["/usr/bin"@, "/bin"@, "/usr/sbin"@, "/sbin"@, "/usr/local/bin"@]
}

fn trusted_dirs() -> (r: Vec<String>)
    ensures
        strs(r@) == trusted_nsjail_dirs(),
{
    let r = vec![
        owned("/usr/bin"),
        owned("/bin"),
        owned("/usr/sbin"),
        owned("/sbin"),
        owned("/usr/local/bin"),
    ];
    assert(strs(r@) =~= trusted_nsjail_dirs());
    r
}

/// Whether path `a` equals path `b` component by component.
pub uninterp spec fn same_path(a: Seq<char>, b: Seq<char>) -> bool;

/// Whether the components of path `b` are a prefix of those of path `a`.
pub uninterp spec fn path_has_prefix(a: Seq<char>, b: Seq<char>) -> bool;

/// Whether a path is absolute: on Unix, it starts at the root `/`.
pub open spec fn path_absolute(a: Seq<char>) -> bool {
    a.len() > 0 && a[0] == '/'
}

/// The number of components of a path.
pub uninterp spec fn path_component_count(a: Seq<char>) -> nat;

/// The path `b` joined onto `a`.
pub uninterp spec fn joined_path(a: Seq<char>, b: Seq<char>) -> Seq<char>;

/// `Path::new(a) == Path::new(b)`: equality of the paths' components.
#[verifier::external_body]
fn path_eq(a: &str, b: &str) -> (r: bool)
    ensures
        r == same_path(a@, b@),
{
    std::path::Path::new(a) == std::path::Path::new(b)
}

/// `Path::starts_with`: whether `b`'s components are a prefix of `a`'s.
#[verifier::external_body]
fn path_starts_with(a: &str, b: &str) -> (r: bool)
    ensures
        r == path_has_prefix(a@, b@),
{
    std::path::Path::new(a).starts_with(b)
}

/// `Path::is_absolute`, which on Unix holds exactly when the path starts
/// with `/`.
#[verifier::external_body]
pub fn is_absolute_path(a: &str) -> (r: bool)
    ensures
        r == path_absolute(a@),
{
    std::path::Path::new(a).is_absolute()
}

/// `Path::components().count()`.
#[verifier::external_body]
fn path_components(a: &str) -> (r: usize)
    ensures
        r == path_component_count(a@),
{
    std::path::Path::new(a).components().count()
}

/// `Path::join`, rendered back to a string.
#[verifier::external_body]
pub fn join_paths(a: &str, b: &str) -> (r: String)
    ensures
        r@ == joined_path(a@, b@),
{
    std::path::Path::new(a).join(b).to_string_lossy().to_string()
}

/// Whether `dir` is one of the trusted search directories.
pub fn is_trusted_nsjail_search_dir(dir: &str) -> (r: bool)
    ensures
        r == exists|i: int| 0 <= i < 5 && same_path(dir@, #[trigger] trusted_nsjail_dirs()[i]),
{
    let roots = trusted_dirs();
    assert(strs(roots@).len() == 5);
    let mut i: usize = 0;
    while i < roots.len()
        invariant
            i <= roots.len(),
            roots@.len() == 5,
            strs(roots@) == trusted_nsjail_dirs(),
            forall|j: int| 0 <= j < i ==> !same_path(dir@, #[trigger] trusted_nsjail_dirs()[j]),
        decreases roots.len() - i,
    {
        assert(roots@[i as int]@ == trusted_nsjail_dirs()[i as int]);
        if path_eq(dir, roots[i].as_str()) {
            assert(same_path(dir@, trusted_nsjail_dirs()[i as int]));
            return true;
        }
        i = i + 1;
    }
    false
}

/// Whether `path` lies under one of the trusted directories.
pub fn is_trusted_nsjail_binary_path(path: &str) -> (r: bool)
    ensures
        r == exists|i: int| 0 <= i < 5 && path_has_prefix(path@, #[trigger] trusted_nsjail_dirs()[i]),
{
    let roots = trusted_dirs();
    assert(strs(roots@).len() == 5);
    let mut i: usize = 0;
    while i < roots.len()
        invariant
            i <= roots.len(),
            roots@.len() == 5,
            strs(roots@) == trusted_nsjail_dirs(),
            forall|j: int| 0 <= j < i ==> !path_has_prefix(path@, #[trigger] trusted_nsjail_dirs()[j]),
        decreases roots.len() - i,
    {
        assert(roots@[i as int]@ == trusted_nsjail_dirs()[i as int]);
        if path_starts_with(path, roots[i].as_str()) {
            assert(path_has_prefix(path@, trusted_nsjail_dirs()[i as int]));
            return true;
        }
        i = i + 1;
    }
    false
}

/// The places to look for the nsjail binary, in order. A binary written as
/// a path (more than one component) is its own only candidate if absolute
/// and has none otherwise; a bare name is looked up in each trusted
/// directory of `search_path` (the host `PATH`, split), in order.
pub open spec fn nsjail_candidates(binary: Seq<char>, search_path: Seq<Seq<char>>) -> Seq<
    Seq<char>,
>
    decreases search_path.len(),
{
    if path_component_count(binary) > 1 {
        if path_absolute(binary) {
            seq![binary]
        } else {
            Seq::empty()
        }
    } else if search_path.len() == 0 {
        Seq::empty()
    } else {
        let rest = nsjail_candidates(binary, search_path.drop_last());
        let d = search_path.last();
        if exists|i: int| 0 <= i < 5 && same_path(d, trusted_nsjail_dirs()[i]) {
            rest.push(joined_path(d, binary))
        } else {
            rest
        }
    }
}

/// The candidate locations of the nsjail binary (see `nsjail_candidates`).
/// Each one is then canonicalized on the host and accepted with
/// `accept_nsjail_binary`; the first accepted one is the binary.
pub fn nsjail_binary_candidates(binary: &str, search_path: &[String]) -> (r: Vec<String>)
    ensures
        strs(r@) == nsjail_candidates(binary@, strs(search_path@)),
{
    let mut r: Vec<String> = Vec::new();
    if path_components(binary) > 1 {
        if is_absolute_path(binary) {
            push_string(&mut r, owned(binary));
        }
        assert(strs(r@) =~= nsjail_candidates(binary@, strs(search_path@)));
        return r;
    }
    let mut i: usize = 0;
    assert(strs(search_path@.take(0)) =~= Seq::<Seq<char>>::empty());
    assert(strs(r@) =~= Seq::<Seq<char>>::empty());
    while i < search_path.len()
        invariant
            i <= search_path.len(),
            path_component_count(binary@) <= 1,
            strs(r@) == nsjail_candidates(binary@, strs(search_path@.take(i as int))),
        decreases search_path.len() - i,
    {
        let ghost pre = strs(search_path@.take(i as int));
        let ghost post = strs(search_path@.take(i as int + 1));
        assert(post.drop_last() =~= pre);
        assert(post.last() == search_path@[i as int]@);
        if is_trusted_nsjail_search_dir(search_path[i].as_str()) {
            let c = join_paths(search_path[i].as_str(), binary);
            push_string(&mut r, c);
        }
        i = i + 1;
    }
    assert(search_path@.take(search_path.len() as int) =~= search_path@);
    r
}

/// Whether a canonicalized candidate is acceptable as the nsjail binary:
/// it lies under a trusted directory and the host reports it as an
/// executable file.
pub fn accept_nsjail_binary(canonical: &str, is_executable_file: bool) -> (r: bool)
    ensures
        r == (is_executable_file && exists|i: int|
            0 <= i < 5 && path_has_prefix(canonical@, trusted_nsjail_dirs()[i])),
{
    is_trusted_nsjail_binary_path(canonical) && is_executable_file
}


/// A path lies under one of the trusted nsjail directories.
pub open spec fn trusted_nsjail_path(p: Seq<char>) -> bool {
    exists|i: int| 0 <= i < 5 && path_has_prefix(p, #[trigger] trusted_nsjail_dirs()[i])
}

/// Candidate `i` resolved (`canonical[i]`) to a trusted path that the host
/// reports as an executable file.
pub open spec fn candidate_accepted(canonical: Seq<Option<String>>, executable: Seq<bool>, i: int) -> bool {
    canonical[i] matches Some(c) && executable[i] && trusted_nsjail_path(c@)
}

/// The nsjail binary among the candidates, given what the host said of
/// each: its canonical path (`None` when it could not be resolved) and
/// whether that is an executable file. The first accepted candidate's
/// canonical path; `None` when none is accepted.
pub fn pick_nsjail_binary(canonical: &[Option<String>], executable: &[bool]) -> (r: Option<String>)
    requires
        executable@.len() == canonical@.len(),
    ensures
        match r {
            Some(b) => exists|i: int|
                0 <= i < canonical@.len() && candidate_accepted(canonical@, executable@, i)
                    && canonical@[i] == Some(b) && forall|j: int|
                    0 <= j < i ==> !candidate_accepted(canonical@, executable@, j),
            None => forall|j: int|
                0 <= j < canonical@.len() ==> !candidate_accepted(canonical@, executable@, j),
        },
        r matches Some(b) ==> trusted_nsjail_path(b@),
{
    let mut i: usize = 0;
    while i < canonical.len()
        invariant
            i <= canonical@.len(),
            executable@.len() == canonical@.len(),
            forall|j: int| 0 <= j < i ==> !candidate_accepted(canonical@, executable@, j),
        decreases canonical.len() - i,
    {
        match &canonical[i] {
            Some(c) => {
                if accept_nsjail_binary(c.as_str(), executable[i]) {
                    let b = c.clone();
                    assert(candidate_accepted(canonical@, executable@, i as int));
                    return Some(b);
                }
            },
            None => {},
        }
        i = i + 1;
    }
    None
}

} // verus!
