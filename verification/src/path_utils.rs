//! Resolving the paths tools receive: a leading `@` is dropped, Unicode
//! spaces become ASCII spaces, `~` and `~/` expand to the home directory,
//! and relative paths are taken against the working directory.

use vstd::prelude::*;

use crate::ensure_tool::{replace_all, replace_str};
use crate::jail::{join_paths, joined_path, path_absolute, path_exists};
use crate::text::{chars_of, has_prefix, owned, push_char, string_from_chars};

verus! {

/// `path` without one leading `@`.
pub open spec fn at_stripped(path: Seq<char>) -> Seq<char> {
    if path.len() > 0 && path[0] == '@' {
        path.drop_first()
    } else {
        path
    }
}

/// Strips one leading `@`, which editors sometimes put before file names.
pub fn normalize_at_prefix(path: &str) -> (r: String)
    ensures
        r@ == at_stripped(path@),
{
    let cs = chars_of(path);
    if cs.len() > 0 && cs[0] == '@' {
        let rest = string_from_chars(&cs.as_slice()[1..cs.len()]);
        assert(cs@.subrange(1, cs@.len() as int) =~= path@.drop_first());
        rest
    } else {
        owned(path)
    }
}

/// The Unicode spaces read as an ASCII space: no-break space, the en to
/// hair spaces (U+2002 to U+200A), narrow no-break space, medium
/// mathematical space and ideographic space.
pub open spec fn is_special_space(c: char) -> bool {
    ||| c == '\u{00A0}'
    ||| ('\u{2002}' <= c && c <= '\u{200A}')
    ||| c == '\u{202F}'
    ||| c == '\u{205F}'
    ||| c == '\u{3000}'
}

/// `s` with every special space replaced by `' '`.
pub open spec fn spaces_normalized(s: Seq<char>) -> Seq<char> {
    s.map_values(|c: char| if is_special_space(c) { ' ' } else { c })
}

fn special_space(c: char) -> (r: bool)
    ensures
        r == is_special_space(c),
{
    c == '\u{00A0}' || ('\u{2002}' <= c && c <= '\u{200A}') || c == '\u{202F}' || c == '\u{205F}'
        || c == '\u{3000}'
}

/// Replaces Unicode spaces with ASCII spaces.
pub fn normalize_unicode_spaces(s: &str) -> (r: String)
    ensures
        r@ == spaces_normalized(s@),
{
    let cs = chars_of(s);
    let mut out = String::new();
    let mut i: usize = 0;
    while i < cs.len()
        invariant
            i <= cs.len(),
            cs@ == s@,
            out@ == spaces_normalized(s@.take(i as int)),
        decreases cs.len() - i,
    {
        let c = cs[i];
        if special_space(c) {
            push_char(&mut out, ' ');
        } else {
            push_char(&mut out, c);
        }
        assert(spaces_normalized(s@.take(i as int + 1)) =~= spaces_normalized(s@.take(i as int)).push(
            if is_special_space(c) {
                ' '
            } else {
                c
            },
        ));
        i = i + 1;
    }
    assert(s@.take(cs.len() as int) =~= s@);
    out
}

/// The home directory of the user running the process (`dirs::home_dir`).
/// It depends on the environment, so nothing is promised of it.
#[verifier::external_body]
pub fn home_dir() -> (r: Option<String>) {
    dirs::home_dir().map(|p| p.to_string_lossy().to_string())
}

/// `~` is the home directory (itself when unknown); `~/rest` is `rest`
/// under the home directory when it is known; anything else is unchanged.
pub open spec fn tilde_expanded(path: Seq<char>, home: Option<Seq<char>>) -> Seq<char> {
    if path == "~"@ {
        match home {
            Some(h) => h,
            None => path,
        }
    } else if has_prefix(path, "~/"@) && home is Some {
        joined_path(home->0, path.skip(2))
    } else {
        path
    }
}

/// Expands `~` against the given home directory.
pub fn expand_tilde_with(path: &str, home: Option<String>) -> (r: String)
    ensures
        r@ == tilde_expanded(
            path@,
            match home {
                Some(h) => Some(h@),
                None => None,
            },
        ),
{
    let cs = chars_of(path);
    let tilde = chars_of("~");
    let tilde_slash = chars_of("~/");
    if crate::text::chars_eq(cs.as_slice(), tilde.as_slice()) {
        match home {
            Some(h) => h,
            None => owned(path),
        }
    } else if crate::text::starts_with(cs.as_slice(), tilde_slash.as_slice()) && home.is_some() {
        proof {
            reveal_strlit("~/");
        }
        let rest = string_from_chars(&cs.as_slice()[2..cs.len()]);
        assert(cs@.subrange(2, cs@.len() as int) =~= path@.skip(2));
        match home {
            Some(h) => crate::jail::join_paths(h.as_str(), rest.as_str()),
            None => owned(path),
        }
    } else {
        owned(path)
    }
}

/// Expands `~` and `~/` to the home directory.
pub fn expand_tilde(path: &str) -> (r: String)
    ensures
        exists|home: Option<Seq<char>>| r@ == tilde_expanded(path@, home),
{
    let home = home_dir();
    let r = expand_tilde_with(path, home);
    assert(r@ == tilde_expanded(
        path@,
        match home {
            Some(h) => Some(h@),
            None => None,
        },
    ));
    r
}

/// Where a tool argument `path` points, relative to `cwd`, given the home
/// directory: `@` stripped, spaces normalized, `~` expanded, then taken
/// against `cwd` unless absolute.
pub open spec fn resolved_path(path: Seq<char>, cwd: Seq<char>, home: Option<Seq<char>>) -> Seq<
    char,
> {
    let expanded = tilde_expanded(spaces_normalized(at_stripped(path)), home);
    if path_absolute(expanded) {
        expanded
    } else {
        joined_path(cwd, expanded)
    }
}

/// Resolves `path` against `cwd` with the given home directory.
pub fn resolve_with_home(path: &str, cwd: &str, home: Option<String>) -> (r: String)
    ensures
        r@ == resolved_path(
            path@,
            cwd@,
            match home {
                Some(h) => Some(h@),
                None => None,
            },
        ),
{
    let p1 = normalize_at_prefix(path);
    let p2 = normalize_unicode_spaces(p1.as_str());
    let expanded = expand_tilde_with(p2.as_str(), home);
    if crate::jail::is_absolute_path(expanded.as_str()) {
        expanded
    } else {
        crate::jail::join_paths(cwd, expanded.as_str())
    }
}

/// Resolves `path` against `cwd` (see `resolved_path`), with the home
/// directory of the running user.
pub fn resolve_to_cwd(path: &str, cwd: &str) -> (r: String)
    ensures
        exists|home: Option<Seq<char>>| r@ == resolved_path(path@, cwd@, home),
{
    let home = home_dir();
    let r = resolve_with_home(path, cwd, home);
    assert(r@ == resolved_path(
        path@,
        cwd@,
        match home {
            Some(h) => Some(h@),
            None => None,
        },
    ));
    r
}


/// The last component of a path as text (`Path::file_name`), `None` when
/// there is none (the path ends in `..`, or is a root or empty).
pub uninterp spec fn file_name_of(p: Seq<char>) -> Option<Seq<char>>;

/// The path without its last component (`Path::parent`), empty when it
/// has none.
pub uninterp spec fn parent_of(p: Seq<char>) -> Seq<char>;

/// `Path::file_name`, as text when it is valid UTF-8.
#[verifier::external_body]
fn path_file_name(p: &str) -> (r: Option<String>)
    ensures
        match r {
            Some(f) => file_name_of(p@) == Some(f@),
            None => file_name_of(p@) is None,
        },
{
    std::path::Path::new(p).file_name().and_then(|n| n.to_str()).map(|n| n.to_string())
}

/// `Path::parent`, the empty path when there is none.
#[verifier::external_body]
fn path_parent(p: &str) -> (r: String)
    ensures
        r@ == parent_of(p@),
{
    std::path::Path::new(p).parent().unwrap_or(std::path::Path::new("")).to_string_lossy().to_string()
}

/// The spellings of a file name that screenshot tools produce and users
/// type differently: a narrow no-break space before `AM`/`PM`, and a
/// straight apostrophe for a curly right or left one.
pub open spec fn name_variants(f: Seq<char>) -> Seq<Seq<char>> {
    seq![
        replace_all(replace_all(f, " AM"@, "\u{202F}AM"@), " PM"@, "\u{202F}PM"@),
        replace_all(f, "\u{2019}"@, "'"@),
        replace_all(f, "\u{2018}"@, "'"@),
    ]
}

/// `x` when `b`, else nothing.
pub open spec fn only_if(b: bool, x: Seq<char>) -> Seq<Seq<char>> {
    if b {
        seq![x]
    } else {
        seq![]
    }
}

/// The paths tried for a read of `primary`, in order: the path itself,
/// then each variant spelling of its file name that differs from it, in
/// the same directory.
pub open spec fn read_candidates(primary: Seq<char>) -> Seq<Seq<char>> {
    seq![primary] + match file_name_of(primary) {
        None => seq![],
        Some(f) => {
            let v = name_variants(f);
            let dir = parent_of(primary);
            only_if(v[0] != f, joined_path(dir, v[0])) + only_if(v[1] != f, joined_path(dir, v[1]))
                + only_if(v[2] != f, joined_path(dir, v[2]))
        },
    }
}

fn push_if_differs(out: &mut Vec<String>, dir: &str, v: String, f: &str)
    ensures
        final(out)@.map_values(|s: String| s@) == old(out)@.map_values(|s: String| s@) + only_if(
            v@ != f@,
            joined_path(dir@, v@),
        ),
{
    let ghost before = out@.map_values(|s: String| s@);
    if !crate::text::str_is(v.as_str(), f) {
        out.push(join_paths(dir, v.as_str()));
        assert(out@.map_values(|s: String| s@) =~= before + only_if(v@ != f@, joined_path(dir@, v@)));
    } else {
        assert(out@.map_values(|s: String| s@) =~= before + only_if(v@ != f@, joined_path(dir@, v@)));
    }
}

/// The paths tried for a read of `primary` (see `read_candidates`).
pub fn read_path_candidates(primary: &str) -> (r: Vec<String>)
    ensures
        r@.map_values(|s: String| s@) == read_candidates(primary@),
{
    let mut out: Vec<String> = Vec::new();
    out.push(owned(primary));
    assert(out@.map_values(|s: String| s@) =~= seq![primary@]);
    match path_file_name(primary) {
        None => {},
        Some(f) => {
            let dir = path_parent(primary);
            proof {
                reveal_strlit(" AM");
                reveal_strlit(" PM");
                reveal_strlit("\u{202F}AM");
                reveal_strlit("\u{202F}PM");
                reveal_strlit("\u{2019}");
                reveal_strlit("\u{2018}");
                reveal_strlit("'");
            }
            let am = replace_str(f.as_str(), " AM", "\u{202F}AM");
            let ampm = replace_str(am.as_str(), " PM", "\u{202F}PM");
            push_if_differs(&mut out, dir.as_str(), ampm, f.as_str());
            let right = replace_str(f.as_str(), "\u{2019}", "'");
            push_if_differs(&mut out, dir.as_str(), right, f.as_str());
            let left = replace_str(f.as_str(), "\u{2018}", "'");
            push_if_differs(&mut out, dir.as_str(), left, f.as_str());
        },
    }
    proof {
        let v = out@.map_values(|s: String| s@);
        assert(v =~= read_candidates(primary@));
    }
    out
}

/// The first of `cands` found (`found[i]`), else the first of them.
pub open spec fn first_found(cands: Seq<Seq<char>>, found: Seq<bool>, i: int) -> Seq<char>
    decreases cands.len() - i,
{
    if i < 0 || i >= cands.len() {
        cands[0]
    } else if found[i] {
        cands[i]
    } else {
        first_found(cands, found, i + 1)
    }
}

/// Picks the path to read among the candidates: the first found, else the
/// first candidate.
pub fn pick_read_path(cands: &[String], found: &[bool]) -> (r: String)
    requires
        cands@.len() > 0,
        found@.len() == cands@.len(),
    ensures
        r@ == first_found(cands@.map_values(|s: String| s@), found@, 0),
{
    let ghost cv = cands@.map_values(|s: String| s@);
    let mut i: usize = 0;
    while i < cands.len()
        invariant
            i <= cands@.len(),
            found@.len() == cands@.len(),
            cands@.len() > 0,
            cv == cands@.map_values(|s: String| s@),
            first_found(cv, found@, 0) == first_found(cv, found@, i as int),
        decreases cands.len() - i,
    {
        if found[i] {
            return cands[i].clone();
        }
        i = i + 1;
    }
    cands[0].clone()
}

/// The path a read of `path` opens, relative to `cwd`: the resolved path
/// (`resolve_to_cwd`) when it exists, else the first variant spelling of
/// its file name that exists (see `read_candidates`), else the resolved
/// path. Which of them exist is the file system's answer: the result is
/// `pick_read_path` of the candidates for some such answer.
pub fn resolve_read_path(path: &str, cwd: &str) -> (r: String)
    ensures
        exists|home: Option<Seq<char>>, found: Seq<bool>|
            found.len() == read_candidates(resolved_path(path@, cwd@, home)).len() && r@
                == first_found(read_candidates(resolved_path(path@, cwd@, home)), found, 0),
{
    let primary = resolve_to_cwd(path, cwd);
    let cands = read_path_candidates(primary.as_str());
    let ghost cv = cands@.map_values(|s: String| s@);
    assert(cv.len() == read_candidates(primary@).len());
    assert(cands@.len() > 0);
    let mut found: Vec<bool> = Vec::new();
    let mut hit = false;
    let mut i: usize = 0;
    while i < cands.len()
        invariant
            i <= cands@.len(),
            found@.len() == i,
        decreases cands.len() - i,
    {
        let here = !hit && path_exists(cands[i].as_str());
        if here {
            hit = true;
        }
        found.push(here);
        i = i + 1;
    }
    let r = pick_read_path(cands.as_slice(), found.as_slice());
    proof {
        let home = choose|home: Option<Seq<char>>| primary@ == resolved_path(path@, cwd@, home);
        assert(found@.len() == read_candidates(resolved_path(path@, cwd@, home)).len());
    }
    r
}

} // verus!
