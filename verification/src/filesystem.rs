//! The file tools `write`, `edit_file`, `append_file`, `list_dir` and `ls`:
//! their arguments, the edits they make to text, and the replies they give.
//! Touching the file system happens in the caller.

use vstd::prelude::*;

use crate::jail::strs;
use crate::text::{
    byte_count, byte_len, chars_of, contains_chars, contains_seq, decimal, decimal_string_wide, find_chars,
    find_from, owned, push_chars, push_str, string_from_chars, utf8_size,
};
use crate::tool::{
    json_str_member, json_string_member, DomainError, Sandbox, ToolDefinition, ToolResult,
};

verus! {

/// Files larger than this are not edited (1 MiB).
pub const MAX_EDIT_FILE_BYTES: u64 = 1048576;

/// The string member `key` of JSON arguments: a tool error carrying the
/// parser's message when they are not JSON, and `missing '<key>' argument`
/// when the member is missing or not a string.
pub fn required_str(arguments: &str, key: &str) -> (r: Result<String, DomainError>)
    ensures
        match json_string_member(arguments@, key@) {
            None => r matches Err(DomainError::Tool(_)),
            Some(None) => r matches Err(DomainError::Tool(m)) && m@ == "missing '"@ + key@
                + "' argument"@,
            Some(Some(v)) => r matches Ok(s) && s@ == v,
        },
{
    match json_str_member(arguments, key) {
        Err(e) => Err(DomainError::Tool(e)),
        Ok(None) => {
            let mut m = owned("missing '");
            push_str(&mut m, key);
            push_str(&mut m, "' argument");
            Err(DomainError::Tool(m))
        },
        Ok(Some(v)) => Ok(v),
    }
}

/// `"<prefix><n> bytes to <path>"`.
pub open spec fn bytes_to_msg(prefix: Seq<char>, n: nat, path: Seq<char>) -> Seq<char> {
    prefix + decimal(n) + " bytes to "@ + path
}

fn bytes_to(prefix: &str, content: &str, path: &str) -> (r: String)
    ensures
        r@ == bytes_to_msg(prefix@, byte_count(content@), path@),
{
    let mut out = owned(prefix);
    let n = byte_len(content);
    let d = decimal_string_wide(n as u128);
    push_str(&mut out, d.as_str());
    push_str(&mut out, " bytes to ");
    push_str(&mut out, path);
    out
}

// ---------------------------------------------------------------------------
// write
// ---------------------------------------------------------------------------

/// The `write` tool: creates or overwrites a file, creating its parent
/// directories.
pub struct WriteTool {
    pub workspace: String,
    pub sandbox: Sandbox,
}

/// What a `write` call writes: the path as given and the content.
pub struct WriteRequest {
    pub path: String,
    pub content: String,
}

impl WriteTool {
    pub fn new(workspace: String, sandbox: Sandbox) -> (t: WriteTool)
        ensures
            t.workspace@ == workspace@,
            t.sandbox == sandbox,
    {
        WriteTool { workspace, sandbox }
    }

    pub fn definition(&self) -> (d: ToolDefinition)
        ensures
            d.name@ == "write"@,
            d.description@ == WRITE_DESCRIPTION@,
            d.parameters_schema@ == WRITE_SCHEMA@,
    {
        ToolDefinition {
            name: owned("write"),
            description: owned(WRITE_DESCRIPTION),
            parameters_schema: owned(WRITE_SCHEMA),
        }
    }

    /// Reads a `write` call: the parser's error when the arguments are not
    /// JSON; an error result naming the missing `path` or `content`.
    pub fn parse_args(&self, arguments: &str) -> (r: Result<Result<WriteRequest, ToolResult>, DomainError>)
        ensures
            match (
                json_string_member(arguments@, "path"@),
                json_string_member(arguments@, "content"@),
            ) {
                (None, _) => r matches Err(DomainError::Tool(_)),
                (Some(None), _) => r matches Ok(Err(e)) && e.is_error && e.content@
                    == "missing 'path' argument. Example: {\"path\": \"output.txt\", \"content\": \"hello\"}"@,
                (Some(Some(p)), Some(None)) => r matches Ok(Err(e)) && e.is_error && e.content@
                    == "missing 'content' argument. Example: {\"path\": \"output.txt\", \"content\": \"hello\"}"@,
                (Some(Some(p)), Some(Some(c))) => r matches Ok(Ok(q)) && q.path@ == p
                    && q.content@ == c,
                (Some(Some(_)), None) => r matches Err(DomainError::Tool(_)),
            },
    {
        let path = match json_str_member(arguments, "path") {
            Err(e) => {
                return Err(DomainError::Tool(e));
            },
            Ok(None) => {
                return Ok(
                    Err(
                        ToolResult::error(
                            owned(
                                "missing 'path' argument. Example: {\"path\": \"output.txt\", \"content\": \"hello\"}",
                            ),
                        ),
                    ),
                );
            },
            Ok(Some(p)) => p,
        };
        let content = match json_str_member(arguments, "content") {
            Err(e) => {
                return Err(DomainError::Tool(e));
            },
            Ok(None) => {
                return Ok(
                    Err(
                        ToolResult::error(
                            owned(
                                "missing 'content' argument. Example: {\"path\": \"output.txt\", \"content\": \"hello\"}",
                            ),
                        ),
                    ),
                );
            },
            Ok(Some(c)) => c,
        };
        Ok(Ok(WriteRequest { path, content }))
    }
}

/// The reply after writing `content` to `path`.
pub fn write_success(content: &str, path: &str) -> (r: ToolResult)
    ensures
        !r.is_error,
        r.content@ == bytes_to_msg("Successfully wrote "@, byte_count(content@), path@),
{
    ToolResult::text(bytes_to("Successfully wrote ", content, path))
}

// ---------------------------------------------------------------------------
// edit_file (first occurrence)
// ---------------------------------------------------------------------------

/// The `edit_file` tool: replaces the first occurrence of a substring.
pub struct EditFileTool {
    pub workspace: String,
    pub sandbox: Sandbox,
}

impl EditFileTool {
    pub fn new(workspace: String, sandbox: Sandbox) -> (t: EditFileTool)
        ensures
            t.workspace@ == workspace@,
            t.sandbox == sandbox,
    {
        EditFileTool { workspace, sandbox }
    }

    pub fn definition(&self) -> (d: ToolDefinition)
        ensures
            d.name@ == "edit_file"@,
    {
        ToolDefinition {
            name: owned("edit_file"),
            description: owned("Edit a file by replacing a substring"),
            parameters_schema: owned(
                "{\"type\":\"object\",\"properties\":{\"path\":{\"type\":\"string\"},\"old\":{\"type\":\"string\"},\"new\":{\"type\":\"string\"}},\"required\":[\"path\",\"old\",\"new\"]}",
            ),
        }
    }
}

/// The refusal of a file over `MAX_EDIT_FILE_BYTES`.
pub fn check_edit_size(path: &str, size: u64) -> (r: Result<(), DomainError>)
    ensures
        size <= MAX_EDIT_FILE_BYTES ==> r is Ok,
        size > MAX_EDIT_FILE_BYTES ==> (r matches Err(DomainError::Tool(m)) && m@ == "file '"@
            + path@ + "' exceeds maximum allowed size for editing ("@ + decimal(size as nat)
            + " > 1048576 bytes)"@),
{
    if size <= MAX_EDIT_FILE_BYTES {
        return Ok(());
    }
    let mut m = owned("file '");
    push_str(&mut m, path);
    push_str(&mut m, "' exceeds maximum allowed size for editing (");
    let d = decimal_string_wide(size as u128);
    push_str(&mut m, d.as_str());
    push_str(&mut m, " > 1048576 bytes)");
    Err(DomainError::Tool(m))
}

/// `s` with its first occurrence of `old` (at `find_from(s, old, 0)`)
/// replaced by `new`.
pub open spec fn replace_first(s: Seq<char>, old: Seq<char>, new: Seq<char>) -> Seq<char> {
    match find_from(s, old, 0) {
        Some(i) => s.take(i) + new + s.skip(i + old.len()),
        None => s,
    }
}

/// The outcome of `edit_file` on a file's text: the new text and the
/// reply, or the error reply when `old` does not occur.
pub fn edit_file_apply(content: &str, old_text: &str, new_text: &str, path: &str) -> (r: (
    Option<String>,
    ToolResult,
))
    ensures
        contains_seq(content@, old_text@) ==> {
            &&& r.0 matches Some(t) && t@ == replace_first(content@, old_text@, new_text@)
            &&& !r.1.is_error
            &&& r.1.content@ == "replaced '"@ + old_text@ + "' with '"@ + new_text@ + "' in "@ + path@
        },
        !contains_seq(content@, old_text@) ==> {
            &&& r.0 is None
            &&& r.1.is_error
            &&& r.1.content@ == "substring '"@ + old_text@ + "' not found in "@ + path@
        },
{
    let cs = chars_of(content);
    let os = chars_of(old_text);
    proof {
        crate::text::lemma_find_from_contains(content@, old_text@, 0);
    }
    let found = find_chars(cs.as_slice(), os.as_slice(), 0);
    assert(found == match find_from(cs@, os@, 0) {
        Some(i) => Some(i as usize),
        None => None::<usize>,
    });
    match found {
        None => {
            let mut m = owned("substring '");
            push_str(&mut m, old_text);
            push_str(&mut m, "' not found in ");
            push_str(&mut m, path);
            (None, ToolResult::error(m))
        },
        Some(i) => {
            proof {
                crate::text::lemma_find_from_contains(cs@, os@, 0);
                assert(find_from(cs@, os@, 0) is Some);
                let j = find_from(cs@, os@, 0)->0;
                assert(crate::text::occurs_at(cs@, os@, j));
                assert(j == i as int);
            }
            assert(crate::text::occurs_at(cs@, os@, i as int));
            let mut t = string_from_chars(&cs.as_slice()[0..i]);
            push_str(&mut t, new_text);
            let total = cs.len();
            assert(i + os@.len() <= total);
            let after = i + os.len();
            push_chars(&mut t, &cs.as_slice()[after..cs.len()]);
            assert(t@ =~= replace_first(content@, old_text@, new_text@));
            let mut m = owned("replaced '");
            push_str(&mut m, old_text);
            push_str(&mut m, "' with '");
            push_str(&mut m, new_text);
            push_str(&mut m, "' in ");
            push_str(&mut m, path);
            (Some(t), ToolResult::text(m))
        },
    }
}

// ---------------------------------------------------------------------------
// append_file
// ---------------------------------------------------------------------------

/// The `append_file` tool: appends to a file, creating it when missing.
pub struct AppendFileTool {
    pub workspace: String,
    pub sandbox: Sandbox,
}

impl AppendFileTool {
    pub fn new(workspace: String, sandbox: Sandbox) -> (t: AppendFileTool)
        ensures
            t.workspace@ == workspace@,
            t.sandbox == sandbox,
    {
        AppendFileTool { workspace, sandbox }
    }

    pub fn definition(&self) -> (d: ToolDefinition)
        ensures
            d.name@ == "append_file"@,
    {
        ToolDefinition {
            name: owned("append_file"),
            description: owned("Append content to a file"),
            parameters_schema: owned(
                "{\"type\":\"object\",\"properties\":{\"path\":{\"type\":\"string\"},\"content\":{\"type\":\"string\"}},\"required\":[\"path\",\"content\"]}",
            ),
        }
    }
}

/// The reply after appending `content` to `path`.
pub fn append_success(content: &str, path: &str) -> (r: ToolResult)
    ensures
        !r.is_error,
        r.content@ == bytes_to_msg("appended "@, byte_count(content@), path@),
{
    ToolResult::text(bytes_to("appended ", content, path))
}

// ---------------------------------------------------------------------------
// list_dir
// ---------------------------------------------------------------------------

/// The `list_dir` tool: the entries of a directory, one per line.
pub struct ListDirTool {
    pub workspace: String,
    pub sandbox: Sandbox,
}

impl ListDirTool {
    pub fn new(workspace: String, sandbox: Sandbox) -> (t: ListDirTool)
        ensures
            t.workspace@ == workspace@,
            t.sandbox == sandbox,
    {
        ListDirTool { workspace, sandbox }
    }

    pub fn definition(&self) -> (d: ToolDefinition)
        ensures
            d.name@ == "list_dir"@,
    {
        ToolDefinition {
            name: owned("list_dir"),
            description: owned("List contents of a directory"),
            parameters_schema: owned(
                "{\"type\":\"object\",\"properties\":{\"path\":{\"type\":\"string\",\"description\":\"Relative path to the directory\"}},\"required\":[\"path\"]}",
            ),
        }
    }
}

/// How a directory entry is listed: its name, with `/` after directories.
pub open spec fn entry_label(name: Seq<char>, is_dir: bool) -> Seq<char> {
    if is_dir {
        name.push('/')
    } else {
        name
    }
}

/// The label of a directory entry.
pub fn label_entry(name: String, is_dir: bool) -> (r: String)
    ensures
        r@ == entry_label(name@, is_dir),
{
    let mut name = name;
    if is_dir {
        crate::text::push_char(&mut name, '/');
    }
    name
}

/// Lines joined with `'\n'`.
pub open spec fn joined(ls: Seq<Seq<char>>) -> Seq<char>
    decreases ls.len(),
{
    if ls.len() == 0 {
        Seq::empty()
    } else if ls.len() == 1 {
        ls[0]
    } else {
        joined(ls.drop_last()) + seq!['\n'] + ls.last()
    }
}

/// Joins strings with `'\n'`.
pub fn join_with_newlines(ls: &[String]) -> (r: String)
    ensures
        r@ == joined(strs(ls@)),
{
    let mut out = String::new();
    let mut i: usize = 0;
    assert(strs(ls@.take(0)) =~= Seq::<Seq<char>>::empty());
    while i < ls.len()
        invariant
            i <= ls.len(),
            out@ == joined(strs(ls@.take(i as int))),
        decreases ls.len() - i,
    {
        let ghost pre = strs(ls@.take(i as int));
        let ghost post = strs(ls@.take(i as int + 1));
        assert(post.drop_last() =~= pre);
        assert(post.last() == ls@[i as int]@);
        if i > 0 {
            crate::text::push_char(&mut out, '\n');
        }
        push_str(&mut out, ls[i].as_str());
        assert(out@ =~= joined(post));
        i = i + 1;
    }
    assert(ls@.take(ls.len() as int) =~= ls@);
    out
}


/// The `list_dir` listing: the entry labels in code-point order, one per
/// line.
pub fn list_dir_listing(labels: &Vec<String>) -> (r: String)
    ensures
        exists|order: Seq<usize>|
            crate::ls::sorted_order(strs(labels@), order) && r@ == joined(
                order.map_values(|i: usize| labels@[i as int]@),
            ),
{
    let mut keys: Vec<Vec<char>> = Vec::new();
    let mut i: usize = 0;
    while i < labels.len()
        invariant
            i <= labels@.len(),
            keys@.len() == i,
            forall|k: int| 0 <= k < i ==> #[trigger] keys@[k]@ == labels@[k]@,
        decreases labels.len() - i,
    {
        keys.push(crate::text::chars_of(labels[i].as_str()));
        i = i + 1;
    }
    assert(keys@.map_values(|k: Vec<char>| k@) =~= strs(labels@));
    let order = crate::ls::stable_order(&keys);
    let mut sorted: Vec<String> = Vec::new();
    let mut j: usize = 0;
    while j < order.len()
        invariant
            j <= order@.len(),
            order@.len() == labels@.len(),
            forall|a: int| 0 <= a < order@.len() ==> order@[a] < labels@.len(),
            sorted@.len() == j,
            forall|k: int| 0 <= k < j ==> #[trigger] sorted@[k]@ == labels@[order@[k] as int]@,
        decreases order.len() - j,
    {
        sorted.push(labels[order[j]].clone());
        j = j + 1;
    }
    let r = join_with_newlines(sorted.as_slice());
    assert(strs(sorted@) =~= order@.map_values(|i: usize| labels@[i as int]@));
    r
}


/// The description of the `write` tool.
pub const WRITE_DESCRIPTION: &'static str = "Write content to a file. Creates the file if it doesn't exist, overwrites if it does. Automatically creates parent directories. Example: {\"path\": \"output.txt\", \"content\": \"hello\"}";

/// The parameter schema of the `write` tool.
pub const WRITE_SCHEMA: &'static str = "{\"type\":\"object\",\"properties\":{\"path\":{\"type\":\"string\",\"description\":\"Path to the file to write (relative or absolute)\"},\"content\":{\"type\":\"string\",\"description\":\"Content to write to the file\"}},\"required\":[\"path\",\"content\"]}";

} // verus!
