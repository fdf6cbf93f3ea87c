//! The `docs` tool: names the capability docs built into the agent, and
//! resolves a requested name (`quecto`, `quecto.md`, `docs/quecto.md`, any
//! case, surrounding whitespace) to one of them.

use vstd::prelude::*;

use crate::jail::strs;
use crate::text::{
    ascii_lower, chars_of, ends_with, has_prefix, has_suffix, owned, push_str, starts_with,
    string_from_chars, to_ascii_lower, trim, trim_bounds,
};
use crate::tool::{json_str_member, json_string_member, ToolDefinition, ToolResult};

verus! {

/// The names of the built-in capability docs, in listing order.
pub open spec fn embedded_doc_names() -> Seq<Seq<char>> {
    seq![
        "quecto"@,
        "subagents"@,
        "workflow"@,
        "extensions"@,
        "sessions"@,
        "disable-tools"@,
        "uds-protocol"@,
        "getting-started"@,
        "models-providers"@,
        "readme"@,
    ]
}

/// The names of the built-in capability docs.
pub fn embedded_docs() -> (r: Vec<&'static str>)
    ensures
        r@.map_values(|s: &str| s@) == embedded_doc_names(),
{
    let r = vec![
        "quecto",
        "subagents",
        "workflow",
        "extensions",
        "sessions",
        "disable-tools",
        "uds-protocol",
        "getting-started",
        "models-providers",
        "readme",
    ];
    assert(r@.map_values(|s: &str| s@) =~= embedded_doc_names());
    r
}

/// `s` with every leading copy of `p` removed (`trim_start_matches`).
pub open spec fn strip_leading(s: Seq<char>, p: Seq<char>) -> Seq<char>
    decreases s.len(),
{
    if p.len() > 0 && has_prefix(s, p) {
        strip_leading(s.skip(p.len() as int), p)
    } else {
        s
    }
}

/// `s` with every trailing copy of `p` removed (`trim_end_matches`).
pub open spec fn strip_trailing(s: Seq<char>, p: Seq<char>) -> Seq<char>
    decreases s.len(),
{
    if p.len() > 0 && has_suffix(s, p) {
        strip_trailing(s.take(s.len() - p.len()), p)
    } else {
        s
    }
}

/// The key of a requested doc name: trimmed, without leading `docs/` and
/// trailing `.md`, ASCII-lowercased.
pub open spec fn doc_key(raw: Seq<char>) -> Seq<char> {
    ascii_lower(strip_trailing(strip_leading(trim(raw), "docs/"@), ".md"@))
}

fn strip_leading_exec(s: &[char], p: &[char]) -> (r: Vec<char>)
    ensures
        r@ == strip_leading(s@, p@),
{
    let mut start: usize = 0;
    assert(s@.skip(0) =~= s@);
    while p.len() > 0 && start <= s.len() && starts_with(&s[start..s.len()], p)
        invariant
            start <= s.len(),
            strip_leading(s@, p@) == strip_leading(s@.skip(start as int), p@),
        decreases s.len() - start,
    {
        assert(s@.subrange(start as int, s@.len() as int) =~= s@.skip(start as int));
        assert(s@.skip(start as int).skip(p@.len() as int) =~= s@.skip(start + p@.len()));
        start = start + p.len();
    }
    if start <= s.len() {
        assert(s@.subrange(start as int, s@.len() as int) =~= s@.skip(start as int));
    }
    let mut out: Vec<char> = Vec::new();
    let mut i = start;
    while i < s.len()
        invariant
            start <= i <= s.len(),
            out@ == s@.subrange(start as int, i as int),
        decreases s.len() - i,
    {
        out.push(s[i]);
        assert(s@.subrange(start as int, i + 1) =~= s@.subrange(start as int, i as int).push(s@[i as int]));
        i = i + 1;
    }
    assert(s@.subrange(start as int, s@.len() as int) =~= s@.skip(start as int));
    out
}

fn strip_trailing_exec(s: &[char], p: &[char]) -> (r: Vec<char>)
    ensures
        r@ == strip_trailing(s@, p@),
{
    let mut end: usize = s.len();
    assert(s@.take(end as int) =~= s@);
    while p.len() > 0 && ends_with(&s[0..end], p)
        invariant
            end <= s.len(),
            strip_trailing(s@, p@) == strip_trailing(s@.take(end as int), p@),
        decreases end,
    {
        assert(s@.subrange(0, end as int) =~= s@.take(end as int));
        assert(s@.take(end as int).take(end - p@.len()) =~= s@.take(end - p@.len()));
        end = end - p.len();
    }
    assert(s@.subrange(0, end as int) =~= s@.take(end as int));
    let mut out: Vec<char> = Vec::new();
    let mut i: usize = 0;
    while i < end
        invariant
            i <= end <= s.len(),
            out@ == s@.take(i as int),
        decreases end - i,
    {
        out.push(s[i]);
        assert(s@.take(i + 1) =~= s@.take(i as int).push(s@[i as int]));
        i = i + 1;
    }
    out
}

/// The key of a requested doc name (see `doc_key`).
pub fn normalize_name(raw: &str) -> (r: String)
    ensures
        r@ == doc_key(raw@),
{
    let cs = chars_of(raw);
    let (a, b) = trim_bounds(cs.as_slice());
    let t = &cs.as_slice()[a..b];
    assert(t@ == cs@.subrange(a as int, b as int));
    let docs = chars_of("docs/");
    let md = chars_of(".md");
    let s1 = strip_leading_exec(t, docs.as_slice());
    let s2 = strip_trailing_exec(s1.as_slice(), md.as_slice());
    let s3 = string_from_chars(s2.as_slice());
    to_ascii_lower(s3.as_str())
}

/// Resolves a requested doc name to the built-in doc it designates: the
/// one whose name is the request's key (see `doc_key`).
pub fn lookup_doc(name: &str) -> (r: Option<&'static str>)
    ensures
        match r {
            Some(d) => d@ == doc_key(name@) && embedded_doc_names().contains(d@),
            None => !embedded_doc_names().contains(doc_key(name@)),
        },
{
    let key = normalize_name(name);
    let docs = embedded_docs();
    assert(docs@.map_values(|s: &str| s@).len() == 10);
    let mut i: usize = 0;
    while i < docs.len()
        invariant
            i <= docs.len(),
            docs@.len() == 10,
            docs@.map_values(|s: &str| s@) == embedded_doc_names(),
            key@ == doc_key(name@),
            forall|j: int| 0 <= j < i ==> embedded_doc_names()[j] != key@,
        decreases docs.len() - i,
    {
        assert(docs@.map_values(|s: &str| s@)[i as int] == docs@[i as int]@);
        if owned(docs[i]) == key {
            assert(embedded_doc_names()[i as int] == key@);
            return Some(docs[i]);
        }
        i = i + 1;
    }
    None
}

/// The listing of available docs: the built-in ones, then the workspace's
/// skill docs with their descriptions, then how to read one.
pub open spec fn listing(skill_docs: Seq<(Seq<char>, Seq<char>)>) -> Seq<char> {
    "Available quecto capability docs:\n"@ + bullets(embedded_doc_names()) + (if skill_docs.len()
        > 0 {
        "\nAvailable legacy skill knowledge docs:\n"@ + skill_bullets(skill_docs)
    } else {
        Seq::empty()
    }) + "\nRead one with: docs {\"name\": \"quecto\"}"@
}

/// `- name` lines.
pub open spec fn bullets(names: Seq<Seq<char>>) -> Seq<char>
    decreases names.len(),
{
    if names.len() == 0 {
        Seq::empty()
    } else {
        bullets(names.drop_last()) + "- "@ + names.last() + seq!['\n']
    }
}

/// `- name — description` lines (the dash and description only when the
/// description is non-empty).
pub open spec fn skill_bullets(docs: Seq<(Seq<char>, Seq<char>)>) -> Seq<char>
    decreases docs.len(),
{
    if docs.len() == 0 {
        Seq::empty()
    } else {
        let (n, d) = docs.last();
        skill_bullets(docs.drop_last()) + "- "@ + n + (if d.len() > 0 {
            " \u{2014} "@ + d
        } else {
            Seq::empty()
        }) + seq!['\n']
    }
}

/// Renders the listing of available docs (see `listing`).
pub fn available_listing(skill_docs: &[(String, String)]) -> (r: String)
    ensures
        r@ == listing(crate::jail::pairs(skill_docs@)),
{
    let mut out = owned("Available quecto capability docs:\n");
    let docs = embedded_docs();
    let ghost names = docs@.map_values(|s: &str| s@);
    let mut i: usize = 0;
    assert(names.take(0) =~= Seq::<Seq<char>>::empty());
    assert(out@ =~= "Available quecto capability docs:\n"@ + bullets(names.take(0)));
    while i < docs.len()
        invariant
            i <= docs.len(),
            names == docs@.map_values(|s: &str| s@),
            out@ == "Available quecto capability docs:\n"@ + bullets(names.take(i as int)),
        decreases docs.len() - i,
    {
        assert(names.take(i as int + 1).drop_last() =~= names.take(i as int));
        assert(names[i as int] == docs@[i as int]@);
        push_str(&mut out, "- ");
        push_str(&mut out, docs[i]);
        crate::text::push_char(&mut out, '\n');
        assert(out@ =~= "Available quecto capability docs:\n"@ + bullets(names.take(i as int + 1)));
        i = i + 1;
    }
    assert(names.take(docs.len() as int) =~= names);
    let ghost head = out@;
    if skill_docs.len() > 0 {
        push_str(&mut out, "\nAvailable legacy skill knowledge docs:\n");
        let ghost mid = out@;
        let ghost sv = crate::jail::pairs(skill_docs@);
        let mut j: usize = 0;
        assert(sv.take(0) =~= Seq::<(Seq<char>, Seq<char>)>::empty());
        assert(out@ =~= mid + skill_bullets(sv.take(0)));
        while j < skill_docs.len()
            invariant
                j <= skill_docs.len(),
                sv == crate::jail::pairs(skill_docs@),
                out@ == mid + skill_bullets(sv.take(j as int)),
            decreases skill_docs.len() - j,
        {
            assert(sv.take(j as int + 1).drop_last() =~= sv.take(j as int));
            let ghost before = out@;
            push_str(&mut out, "- ");
            push_str(&mut out, skill_docs[j].0.as_str());
            if !skill_docs[j].1.as_str().is_empty() {
                push_str(&mut out, " \u{2014} ");
                push_str(&mut out, skill_docs[j].1.as_str());
            }
            crate::text::push_char(&mut out, '\n');
            assert(out@ =~= mid + skill_bullets(sv.take(j as int + 1)));
            j = j + 1;
        }
        assert(sv.take(skill_docs.len() as int) =~= sv);
    }
    push_str(&mut out, "\nRead one with: docs {\"name\": \"quecto\"}");
    assert(out@ =~= listing(crate::jail::pairs(skill_docs@)));
    out
}

/// The `docs` tool; skill docs come from the legacy workspace when set.
pub struct DocsTool {
    pub legacy_skills_workspace: Option<String>,
}

impl DocsTool {
    pub fn new() -> (t: DocsTool)
        ensures
            t.legacy_skills_workspace is None,
    {
        DocsTool { legacy_skills_workspace: None }
    }

    pub fn with_workspace(workspace: String) -> (t: DocsTool)
        ensures
            t.legacy_skills_workspace matches Some(w) && w@ == workspace@,
    {
        DocsTool { legacy_skills_workspace: Some(workspace) }
    }

    pub fn definition(&self) -> (d: ToolDefinition)
        ensures
            d.name@ == "docs"@,
            d.description@ == DOCS_DESCRIPTION@,
            d.parameters_schema@ == DOCS_SCHEMA@,
    {
        ToolDefinition {
            name: owned("docs"),
            description: owned(DOCS_DESCRIPTION),
            parameters_schema: owned(DOCS_SCHEMA),
        }
    }
}

/// The doc requested by a `docs` call: the string member `name` when the
/// arguments are JSON and it is not blank; `None` asks for the listing.
pub fn requested_doc(arguments: &str) -> (r: Option<String>)
    ensures
        match json_string_member(arguments@, "name"@) {
            Some(Some(n)) => if trim(n).len() > 0 {
                r matches Some(s) && s@ == n
            } else {
                r is None
            },
            _ => r is None,
        },
{
    match json_str_member(arguments, "name") {
        Ok(Some(n)) => {
            let cs = chars_of(n.as_str());
            let (a, b) = trim_bounds(cs.as_slice());
            if a < b {
                Some(n)
            } else {
                None
            }
        },
        _ => None,
    }
}


impl Default for DocsTool {
    /// The tool without legacy skill docs, as `new` makes it.
    fn default() -> (t: DocsTool)
        ensures
            t.legacy_skills_workspace is None,
    {
        DocsTool::new()
    }
}

/// The reply to a `docs` call, given the requested name (`None` for the
/// listing), the body of the built-in doc it resolved to, the body of the
/// legacy skill doc of that name, and the skill docs to list: the listing;
/// else the built-in doc; else the skill doc; else an error naming the
/// request, followed by the listing.
pub fn docs_reply(
    name: Option<String>,
    embedded_body: Option<String>,
    skill_body: Option<String>,
    skill_docs: &[(String, String)],
) -> (r: ToolResult)
    ensures
        r.image_blocks@.len() == 0,
        match name {
            None => !r.is_error && r.content@ == listing(crate::jail::pairs(skill_docs@)),
            Some(n) => match embedded_body {
                Some(b) => !r.is_error && r.content@ == b@,
                None => match skill_body {
                    Some(b) => !r.is_error && r.content@ == b@,
                    None => r.is_error && r.content@ == "No embedded doc or legacy skill knowledge doc named '"@
                        + n@ + "'.\n\n"@ + listing(crate::jail::pairs(skill_docs@)),
                },
            },
        },
{
    match name {
        None => ToolResult::text(available_listing(skill_docs)),
        Some(n) => match embedded_body {
            Some(b) => ToolResult::text(b),
            None => match skill_body {
                Some(b) => ToolResult::text(b),
                None => {
                    let mut m = owned("No embedded doc or legacy skill knowledge doc named '");
                    push_str(&mut m, n.as_str());
                    push_str(&mut m, "'.\n\n");
                    let l = available_listing(skill_docs);
                    push_str(&mut m, l.as_str());
                    ToolResult::error(m)
                },
            },
        },
    }
}


/// The description of the `docs` tool.
pub const DOCS_DESCRIPTION: &'static str = "Read quecto's own capability docs, embedded in the binary and available from any directory, plus legacy workspace skills as on-demand knowledge docs named skills/<name>. Call with no name (or {}) to list docs; pass a name to read one. Start with \"quecto\". Use this instead of reading docs/*.md from disk. Example: docs {\"name\": \"subagents\"}";

/// The parameter schema of the `docs` tool.
pub const DOCS_SCHEMA: &'static str = "{\"type\":\"object\",\"properties\":{\"name\":{\"type\":\"string\",\"description\":\"Doc to read, e.g. \\\"quecto\\\", \\\"subagents\\\", or \\\"skills/review\\\" (a docs/ prefix or .md suffix is accepted). Omit to list all available docs.\"}}}";

} // verus!
