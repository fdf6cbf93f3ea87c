//! The `read` tool: reads a text file with 1-indexed line pagination and
//! head truncation, or an image (recognized by its leading bytes) as a
//! base64 attachment.
//!
//! The library decides what a read returns from the arguments and the
//! file's bytes; resolving the path and reading the file happen in the
//! caller.

use vstd::prelude::*;

use crate::text::{
    ascii_lower, decimal, decimal_string, decimal_string_wide, has_prefix, lines, owned, push_char,
    push_str, to_ascii_lower, utf8_size,
};
use crate::tool::{
    json_str_member, json_string_member, json_u64_member, json_u64_member_of, DomainError,
    ImageBlock, Sandbox, ToolDefinition, ToolResult,
};
use crate::truncate::{
    format_size, format_size_spec, head_bytes, head_kept, truncate_head, TruncatedBy,
    DEFAULT_MAX_BYTES, DEFAULT_MAX_LINES,
};

verus! {

/// Files larger than this are not read (10 MiB).
pub const MAX_READ_BYTES: u64 = 10485760;

/// Images larger than this are not attached (5 MiB).
pub const MAX_IMAGE_BYTES: usize = 5242880;

/// The `read` tool.
pub struct ReadTool {
    pub workspace: String,
    pub sandbox: Sandbox,
}

impl ReadTool {
    pub fn new(workspace: String, sandbox: Sandbox) -> (t: ReadTool)
        ensures
            t.workspace@ == workspace@,
            t.sandbox == sandbox,
    {
        ReadTool { workspace, sandbox }
    }

    /// The tool's name, description and parameter schema.
    pub fn definition(&self) -> (d: ToolDefinition)
        ensures
            d.name@ == "read"@,
            d.description@ == READ_DESCRIPTION@,
            d.parameters_schema@ == READ_SCHEMA@,
    {
        ToolDefinition {
            name: owned("read"),
            description: owned(READ_DESCRIPTION),
            parameters_schema: owned(READ_SCHEMA),
        }
    }
}

// ---------------------------------------------------------------------------
// Arguments
// ---------------------------------------------------------------------------

/// A read request: the path as given, and the optional 1-indexed first line
/// and line count.
pub struct ReadRequest {
    pub path: String,
    pub offset: Option<u64>,
    pub limit: Option<u64>,
}

/// The error text for arguments that are not JSON.
pub open spec fn invalid_json_msg(parser_msg: Seq<char>) -> Seq<char> {
    "invalid JSON arguments: "@ + parser_msg + ". Example: {\"path\": \"src/main.rs\"}"@
}

/// The error text for arguments without a `path`.
pub open spec fn missing_path_msg() -> Seq<char> {
    "missing 'path' argument. Example: {\"path\": \"src/main.rs\"}"@
}

/// Reads the arguments of a `read` call: the string member `path`, and the
/// members `offset` and `limit` when they are non-negative integers. When
/// the arguments are not JSON, or have no `path`, the result the model
/// reads instead.
pub fn parse_read_args(arguments: &str) -> (r: Result<ReadRequest, ToolResult>)
    ensures
        match json_string_member(arguments@, "path"@) {
            None => r matches Err(e) && e.is_error && exists|m: Seq<char>|
                e.content@ == invalid_json_msg(m),
            Some(None) => r matches Err(e) && e.is_error && e.content@ == missing_path_msg(),
            Some(Some(p)) => match (
                json_u64_member_of(arguments@, "offset"@),
                json_u64_member_of(arguments@, "limit"@),
            ) {
                (Some(o), Some(l)) => r matches Ok(q) && q.path@ == p && q.offset == o && q.limit
                    == l,
                _ => r matches Err(e) && e.is_error && exists|m: Seq<char>|
                    e.content@ == invalid_json_msg(m),
            },
        },
{
    let path = match json_str_member(arguments, "path") {
        Err(e) => {
            return Err(ToolResult::error(invalid_json(e)));
        },
        Ok(None) => {
            return Err(
                ToolResult::error(owned("missing 'path' argument. Example: {\"path\": \"src/main.rs\"}")),
            );
        },
        Ok(Some(p)) => p,
    };
    let offset = match json_u64_member(arguments, "offset") {
        Err(e) => {
            return Err(ToolResult::error(invalid_json(e)));
        },
        Ok(o) => o,
    };
    let limit = match json_u64_member(arguments, "limit") {
        Err(e) => {
            return Err(ToolResult::error(invalid_json(e)));
        },
        Ok(l) => l,
    };
    Ok(ReadRequest { path, offset, limit })
}

fn invalid_json(e: String) -> (r: String)
    ensures
        r@ == invalid_json_msg(e@),
{
    let mut msg = owned("invalid JSON arguments: ");
    push_str(&mut msg, e.as_str());
    push_str(&mut msg, ". Example: {\"path\": \"src/main.rs\"}");
    msg
}

// ---------------------------------------------------------------------------
// Shell hints
// ---------------------------------------------------------------------------

/// `s` inside single quotes for a shell, each `'` written as `'\''`.
pub open spec fn single_quoted(s: Seq<char>) -> Seq<char> {
    seq!['\''] + quote_body(s) + seq!['\'']
}

/// The characters of `s` with each `'` written as `'\''`.
pub open spec fn quote_body(s: Seq<char>) -> Seq<char>
    decreases s.len(),
{
    if s.len() == 0 {
        Seq::empty()
    } else {
        quote_body(s.drop_last()) + if s.last() == '\'' {
            seq!['\'', '\\', '\'', '\'']
        } else {
            seq![s.last()]
        }
    }
}

/// Quotes a path for a shell command hint.
pub fn shell_escape_single(path: &str) -> (r: String)
    ensures
        r@ == single_quoted(path@),
{
    let cs = crate::text::chars_of(path);
    let mut body = String::new();
    let mut i: usize = 0;
    while i < cs.len()
        invariant
            i <= cs.len(),
            cs@ == path@,
            body@ == quote_body(path@.take(i as int)),
        decreases cs.len() - i,
    {
        let c = cs[i];
        assert(path@.take(i as int + 1).drop_last() =~= path@.take(i as int));
        if c == '\'' {
            push_char(&mut body, '\'');
            push_char(&mut body, '\\');
            push_char(&mut body, '\'');
            push_char(&mut body, '\'');
        } else {
            push_char(&mut body, c);
        }
        assert(body@ =~= quote_body(path@.take(i as int + 1)));
        i = i + 1;
    }
    assert(path@.take(cs.len() as int) =~= path@);
    let mut out = String::new();
    push_char(&mut out, '\'');
    push_str(&mut out, body.as_str());
    push_char(&mut out, '\'');
    assert(out@ =~= single_quoted(path@));
    out
}

// ---------------------------------------------------------------------------
// Image detection
// ---------------------------------------------------------------------------

/// The bytes `sig` stand at `at` in `b`.
pub open spec fn bytes_at(b: Seq<u8>, at: int, sig: Seq<u8>) -> bool {
    at + sig.len() <= b.len() && b.subrange(at, at + sig.len()) == sig
}

/// The image type a file's leading bytes announce: PNG, JPEG, GIF (87a or
/// 89a) or WebP (`RIFF....WEBP`).
pub open spec fn magic_mime(b: Seq<u8>) -> Option<Seq<char>> {
    if bytes_at(b, 0, seq![0x89u8, 0x50u8, 0x4Eu8, 0x47u8, 0x0Du8, 0x0Au8, 0x1Au8, 0x0Au8]) {
        Some("image/png"@)
    } else if bytes_at(b, 0, seq![0xFFu8, 0xD8u8, 0xFFu8]) {
        Some("image/jpeg"@)
    } else if bytes_at(b, 0, seq![0x47u8, 0x49u8, 0x46u8, 0x38u8, 0x37u8, 0x61u8]) || bytes_at(
        b,
        0,
        seq![0x47u8, 0x49u8, 0x46u8, 0x38u8, 0x39u8, 0x61u8],
    ) {
        Some("image/gif"@)
    } else if b.len() >= 12 && bytes_at(b, 0, seq![0x52u8, 0x49u8, 0x46u8, 0x46u8]) && bytes_at(
        b,
        8,
        seq![0x57u8, 0x45u8, 0x42u8, 0x50u8],
    ) {
        Some("image/webp"@)
    } else {
        None
    }
}

fn has_bytes_at(b: &[u8], at: usize, sig: &[u8]) -> (r: bool)
    requires
        at <= 8,
    ensures
        r == bytes_at(b@, at as int, sig@),
{
    if sig.len() > b.len() || at > b.len() - sig.len() {
        return false;
    }
    let mut i: usize = 0;
    while i < sig.len()
        invariant
            i <= sig.len(),
            at + sig.len() <= b.len(),
            forall|j: int| 0 <= j < i ==> b@[at + j] == sig@[j],
        decreases sig.len() - i,
    {
        if b[at + i] != sig[i] {
            assert(b@.subrange(at as int, at + sig@.len())[i as int] != sig@[i as int]);
            return false;
        }
        i = i + 1;
    }
    assert(b@.subrange(at as int, at + sig@.len()) =~= sig@);
    true
}

/// Recognizes an image by its leading bytes (see `magic_mime`); text that
/// merely has an image extension is not an image.
pub fn detect_mime_by_magic(bytes: &[u8]) -> (r: Option<&'static str>)
    ensures
        match r {
            Some(m) => magic_mime(bytes@) == Some(m@),
            None => magic_mime(bytes@) is None,
        },
{
    let png: [u8; 8] = [0x89, 0x50, 0x4E, 0x47, 0x0D, 0x0A, 0x1A, 0x0A];
    let jpeg: [u8; 3] = [0xFF, 0xD8, 0xFF];
    let gif87: [u8; 6] = [0x47, 0x49, 0x46, 0x38, 0x37, 0x61];
    let gif89: [u8; 6] = [0x47, 0x49, 0x46, 0x38, 0x39, 0x61];
    let riff: [u8; 4] = [0x52, 0x49, 0x46, 0x46];
    let webp: [u8; 4] = [0x57, 0x45, 0x42, 0x50];
    assert(png@ =~= seq![0x89u8, 0x50u8, 0x4Eu8, 0x47u8, 0x0Du8, 0x0Au8, 0x1Au8, 0x0Au8]);
    assert(jpeg@ =~= seq![0xFFu8, 0xD8u8, 0xFFu8]);
    assert(gif87@ =~= seq![0x47u8, 0x49u8, 0x46u8, 0x38u8, 0x37u8, 0x61u8]);
    assert(gif89@ =~= seq![0x47u8, 0x49u8, 0x46u8, 0x38u8, 0x39u8, 0x61u8]);
    assert(riff@ =~= seq![0x52u8, 0x49u8, 0x46u8, 0x46u8]);
    assert(webp@ =~= seq![0x57u8, 0x45u8, 0x42u8, 0x50u8]);
    if has_bytes_at(bytes, 0, png.as_slice()) {
        return Some("image/png");
    }
    if has_bytes_at(bytes, 0, jpeg.as_slice()) {
        return Some("image/jpeg");
    }
    if has_bytes_at(bytes, 0, gif87.as_slice()) || has_bytes_at(bytes, 0, gif89.as_slice()) {
        return Some("image/gif");
    }
    if bytes.len() >= 12 && has_bytes_at(bytes, 0, riff.as_slice()) && has_bytes_at(
        bytes,
        8,
        webp.as_slice(),
    ) {
        return Some("image/webp");
    }
    None
}

/// The extension of the last component of a path, as `Path::extension`
/// defines it.
pub uninterp spec fn extension_of(path: Seq<char>) -> Option<Seq<char>>;

/// `Path::extension`, as a string when it is valid Unicode.
#[verifier::external_body]
fn path_extension(path: &str) -> (r: Option<String>)
    ensures
        match r {
            Some(e) => extension_of(path@) == Some(e@),
            None => extension_of(path@) is None,
        },
{
    std::path::Path::new(path).extension().and_then(|e| e.to_str()).map(|e| e.to_string())
}

/// The image type a file extension names, ignoring ASCII case.
pub open spec fn ext_mime(ext: Seq<char>) -> Option<Seq<char>> {
    let e = ascii_lower(ext);
    if e == "jpg"@ || e == "jpeg"@ {
        Some("image/jpeg"@)
    } else if e == "png"@ {
        Some("image/png"@)
    } else if e == "gif"@ {
        Some("image/gif"@)
    } else if e == "webp"@ {
        Some("image/webp"@)
    } else {
        None
    }
}

/// The image type a path's extension names (jpg, jpeg, png, gif, webp, in
/// any ASCII case).
pub fn detect_image_mime_by_ext(path: &str) -> (r: Option<&'static str>)
    ensures
        match extension_of(path@) {
            Some(e) => match r {
                Some(m) => ext_mime(e) == Some(m@),
                None => ext_mime(e) is None,
            },
            None => r is None,
        },
{
    let ext = match path_extension(path) {
        Some(e) => e,
        None => {
            return None;
        },
    };
    let e = to_ascii_lower(ext.as_str());
    if e == owned("jpg") || e == owned("jpeg") {
        Some("image/jpeg")
    } else if e == owned("png") {
        Some("image/png")
    } else if e == owned("gif") {
        Some("image/gif")
    } else if e == owned("webp") {
        Some("image/webp")
    } else {
        None
    }
}

// ---------------------------------------------------------------------------
// Pagination and truncation
// ---------------------------------------------------------------------------

/// `n` capped at `usize::MAX`.
pub open spec fn capped(n: nat) -> nat {
    if n <= usize::MAX {
        n
    } else {
        usize::MAX as nat
    }
}

/// The error for a zero offset.
pub open spec fn offset_zero_msg() -> Seq<char> {
    "offset is 1-indexed; 0 is not valid. Use offset=1 for the first line."@
}

/// The error for an offset past the last line.
pub open spec fn offset_beyond_msg(offset: nat, total: nat) -> Seq<char> {
    "Offset "@ + decimal(offset) + " is beyond end of file ("@ + decimal(total)
        + " lines total)"@
}

/// The notice replacing a first line that alone exceeds the byte budget.
pub open spec fn long_line_notice(line_no: nat, line_bytes: nat, path: Seq<char>) -> Seq<char> {
    "[Line "@ + decimal(line_no) + " is "@ + format_size_spec(line_bytes) + ", exceeds "@
        + format_size_spec(DEFAULT_MAX_BYTES as nat) + " limit. Use bash: sed -n '"@ + decimal(
        line_no,
    ) + "p' "@ + single_quoted(path) + " | head -c "@ + decimal(DEFAULT_MAX_BYTES as nat) + "]"@
}

/// The notice after a cut page: how many lines remain when the caller set
/// a limit, otherwise which lines are shown (noting the byte limit when it
/// was the one that cut); both say where to continue.
pub open spec fn continue_notice(
    start: nat,
    kept: nat,
    total: nat,
    limited: bool,
    by_bytes: bool,
) -> Seq<char> {
    let shown_end = start + kept;
    let next = shown_end + 1;
    let remaining: nat = if total > shown_end {
        (total - shown_end) as nat
    } else {
        0
    };
    if limited && remaining > 0 {
        "\n["@ + decimal(remaining) + " more lines in file. Use offset="@ + decimal(next)
            + " to continue.]"@
    } else if by_bytes {
        "\n[Showing lines "@ + decimal(start + 1) + seq!['-'] + decimal(shown_end) + " of "@
            + decimal(total) + " (50KB limit). Use offset="@ + decimal(next) + " to continue.]"@
    } else {
        "\n[Showing lines "@ + decimal(start + 1) + seq!['-'] + decimal(shown_end) + " of "@
            + decimal(total) + ". Use offset="@ + decimal(next) + " to continue.]"@
    }
}

/// The page of `content` a read returns, or the error message.
///
/// Lines are those of `content`; `offset` is the 1-indexed first line
/// (0 is an error, past the end is an error); the rest of the file from
/// there is head-truncated to `limit` lines (2000 by default) and 50 KB.
/// A first line over 50 KB is replaced by a notice with a `sed` command;
/// a cut page ends with a notice on how to continue.
pub open spec fn read_page(
    content: Seq<char>,
    path: Seq<char>,
    offset: Option<usize>,
    limit: Option<usize>,
) -> Result<Seq<char>, Seq<char>> {
    let ls = lines(content);
    let total = ls.len();
    if offset == Some(0usize) {
        Err(offset_zero_msg())
    } else if offset is Some && offset->0 > total {
        Err(offset_beyond_msg(offset->0 as nat, total))
    } else {
        let start: nat = match offset {
            None => 0,
            Some(n) => (n - 1) as nat,
        };
        let max_lines: int = match limit {
            Some(l) => l as int,
            None => DEFAULT_MAX_LINES as int,
        };
        let sl = lines(crate::text::join_lines(ls.skip(start as int)));
        let k = head_kept(sl, max_lines, DEFAULT_MAX_BYTES as int, 0);
        if sl.len() > 0 && utf8_size(sl[0]) > DEFAULT_MAX_BYTES {
            Ok(long_line_notice(start + 1, capped(utf8_size(sl[0])), path))
        } else if k < sl.len() {
            Ok(
                crate::text::join_lines(sl.take(k)) + continue_notice(
                    start,
                    k as nat,
                    total,
                    limit is Some,
                    head_bytes(sl, k + 1) > DEFAULT_MAX_BYTES,
                ),
            )
        } else {
            Ok(crate::text::join_lines(sl.take(k)))
        }
    }
}

fn long_line_text(start: usize, first_len: usize, path: &str) -> (out: String)
    ensures
        out@ == long_line_notice(start as nat + 1, first_len as nat, path@),
{
    let mut out = owned("[Line ");
    let ln = decimal_string_wide((start as u128) + 1);
    push_str(&mut out, ln.as_str());
    push_str(&mut out, " is ");
    let fs = format_size(first_len);
    push_str(&mut out, fs.as_str());
    push_str(&mut out, ", exceeds ");
    let ls2 = format_size(DEFAULT_MAX_BYTES);
    push_str(&mut out, ls2.as_str());
    push_str(&mut out, " limit. Use bash: sed -n '");
    push_str(&mut out, ln.as_str());
    push_str(&mut out, "p' ");
    let esc = shell_escape_single(path);
    push_str(&mut out, esc.as_str());
    push_str(&mut out, " | head -c ");
    let mb = decimal_string(DEFAULT_MAX_BYTES as u64);
    push_str(&mut out, mb.as_str());
    push_str(&mut out, "]");
    assert(out@ =~= long_line_notice(start as nat + 1, first_len as nat, path@));
    out
}

fn continue_text(start: usize, kept: usize, total: usize, limited: bool, by_bytes: bool) -> (out:
    String)
    ensures
        out@ == continue_notice(start as nat, kept as nat, total as nat, limited, by_bytes),
{
    let mut out = String::new();
    let shown_end: u128 = (start as u128) + (kept as u128);
    let next: u128 = shown_end + 1;
    let remaining: u128 = if (total as u128) > shown_end {
        (total as u128) - shown_end
    } else {
        0
    };
    if limited && remaining > 0 {
        push_str(&mut out, "\n[");
        let d = decimal_string_wide(remaining);
        push_str(&mut out, d.as_str());
        push_str(&mut out, " more lines in file. Use offset=");
        let n = decimal_string_wide(next);
        push_str(&mut out, n.as_str());
        push_str(&mut out, " to continue.]");
    } else {
        push_str(&mut out, "\n[Showing lines ");
        let a = decimal_string_wide((start as u128) + 1);
        push_str(&mut out, a.as_str());
        push_char(&mut out, '-');
        let b = decimal_string_wide(shown_end);
        push_str(&mut out, b.as_str());
        push_str(&mut out, " of ");
        let t = decimal_string_wide(total as u128);
        push_str(&mut out, t.as_str());
        if by_bytes {
            push_str(&mut out, " (50KB limit). Use offset=");
        } else {
            push_str(&mut out, ". Use offset=");
        }
        let n = decimal_string_wide(next);
        push_str(&mut out, n.as_str());
        push_str(&mut out, " to continue.]");
    }
    assert(out@ =~= continue_notice(start as nat, kept as nat, total as nat, limited, by_bytes));
    out
}

/// Pages and head-truncates the text of a file (see `read_page`).
pub fn apply_read_truncation(
    content: &str,
    path: &str,
    offset: Option<usize>,
    limit: Option<usize>,
) -> (r: Result<String, DomainError>)
    ensures
        match read_page(content@, path@, offset, limit) {
            Ok(page) => r matches Ok(s) && s@ == page,
            Err(msg) => r matches Err(DomainError::Tool(m)) && m@ == msg,
        },
{
    if offset == Some(0usize) {
        return Err(
            DomainError::Tool(
                owned("offset is 1-indexed; 0 is not valid. Use offset=1 for the first line."),
            ),
        );
    }
    let cs = crate::text::chars_of(content);
    let ls = crate::text::lines_of(cs.as_slice());
    let ghost lv = crate::text::chars_view(ls@);
    let total = ls.len();
    let start: usize = match offset {
        None => 0,
        Some(n) => {
            if n > total {
                let mut msg = owned("Offset ");
                let d = decimal_string_wide(n as u128);
                push_str(&mut msg, d.as_str());
                push_str(&mut msg, " is beyond end of file (");
                let t = decimal_string_wide(total as u128);
                push_str(&mut msg, t.as_str());
                push_str(&mut msg, " lines total)");
                return Err(DomainError::Tool(msg));
            }
            n - 1
        },
    };
    let max_lines: usize = match limit {
        Some(l) => l,
        None => DEFAULT_MAX_LINES,
    };
    let sliced = crate::text::join_lines_exec(&ls.as_slice()[start..total]);
    assert(crate::text::chars_view(ls@.subrange(start as int, total as int)) =~= lv.skip(
        start as int,
    ));
    let tr = truncate_head(sliced.as_str(), max_lines, DEFAULT_MAX_BYTES);
    let ghost sl = lines(sliced@);
    if tr.first_line_exceeds_limit {
        let scs = crate::text::chars_of(sliced.as_str());
        let sls = crate::text::lines_of(scs.as_slice());
        assert(crate::text::chars_view(sls@)[0] == sls@[0]@);
        let first_len = crate::text::utf8_size_capped(sls[0].as_slice());
        return Ok(long_line_text(start, first_len, path));
    }
    let mut out = tr.content;
    if tr.truncated {
        let notice = continue_text(
            start,
            tr.output_lines,
            total,
            limit.is_some(),
            tr.truncated_by == Some(TruncatedBy::Bytes),
        );
        push_str(&mut out, notice.as_str());
    }
    Ok(out)
}

// ---------------------------------------------------------------------------
// Results
// ---------------------------------------------------------------------------

/// The error result for a file over `MAX_READ_BYTES`.
pub open spec fn too_large_msg(size: nat, path: Seq<char>) -> Seq<char> {
    "File is "@ + format_size_spec(size)
        + " \u{2014} too large to read directly (max 10 MiB). Use bash: head -n 2000 "@
        + single_quoted(path) + " | head -c 51200"@
}

/// The result for a file of `size` bytes too large to read.
pub fn too_large_result(size: usize, path: &str) -> (r: ToolResult)
    ensures
        r.is_error,
        r.content@ == too_large_msg(size as nat, path@),
        r.image_blocks@.len() == 0,
{
    let mut out = owned("File is ");
    let fs = format_size(size);
    push_str(&mut out, fs.as_str());
    push_str(&mut out, " \u{2014} too large to read directly (max 10 MiB). Use bash: head -n 2000 ");
    let esc = shell_escape_single(path);
    push_str(&mut out, esc.as_str());
    push_str(&mut out, " | head -c 51200");
    ToolResult::error(out)
}

/// The standard base64 encoding of some bytes.
pub uninterp spec fn base64_standard(bytes: Seq<u8>) -> Seq<char>;

/// `base64::engine::general_purpose::STANDARD.encode`.
#[verifier::external_body]
fn base64_encode(bytes: &[u8]) -> (r: String)
    ensures
        r@ == base64_standard(bytes@),
{
    base64::Engine::encode(&base64::engine::general_purpose::STANDARD, bytes)
}

/// The text that some bytes spell in UTF-8, `None` when they are not UTF-8.
pub uninterp spec fn utf8_text(bytes: Seq<u8>) -> Option<Seq<char>>;

/// `String::from_utf8`; the error carries std's description of the first
/// invalid sequence, whose wording is not stated here.
#[verifier::external_body]
fn decode_utf8(bytes: &[u8]) -> (r: Result<String, String>)
    ensures
        match r {
            Ok(s) => utf8_text(bytes@) == Some(s@),
            Err(_) => utf8_text(bytes@) is None,
        },
{
    String::from_utf8(bytes.to_vec()).map_err(|e| e.to_string())
}

/// The result of reading a file whose bytes are `bytes`: an image as an
/// attachment (or an error result when it is over 5 MiB), otherwise the
/// page of its UTF-8 text (see `read_page`).
pub fn read_bytes_result(
    path: &str,
    bytes: &[u8],
    offset: Option<usize>,
    limit: Option<usize>,
) -> (r: Result<ToolResult, DomainError>)
    ensures
        match magic_mime(bytes@) {
            Some(mime) => r matches Ok(t) && if bytes@.len() > MAX_IMAGE_BYTES {
                t.is_error && t.image_blocks@.len() == 0 && t.content@ == "Image is "@
                    + format_size_spec(bytes@.len())
                    + " \u{2014} too large to send inline (max 5 MiB for API). Describe what you need from the image instead."@
            } else {
                &&& !t.is_error
                &&& t.content@ == "Read image file ["@ + mime + "] ("@ + format_size_spec(
                    bytes@.len(),
                ) + ")"@
                &&& t.image_blocks@.len() == 1
                &&& t.image_blocks@[0].mime_type@ == mime
                &&& t.image_blocks@[0].data@ == base64_standard(bytes@)
            },
            None => match utf8_text(bytes@) {
                None => r matches Err(DomainError::Tool(m)) && has_prefix(
                    m@,
                    "read failed (not valid UTF-8): "@,
                ),
                Some(text) => match read_page(text, path@, offset, limit) {
                    Ok(page) => r matches Ok(t) && !t.is_error && t.content@ == page
                        && t.image_blocks@.len() == 0,
                    Err(msg) => r matches Err(DomainError::Tool(m)) && m@ == msg,
                },
            },
        },
{
    match detect_mime_by_magic(bytes) {
        Some(mime) => {
            if bytes.len() > MAX_IMAGE_BYTES {
                let mut out = owned("Image is ");
                let fs = format_size(bytes.len());
                push_str(&mut out, fs.as_str());
                push_str(
                    &mut out,
                    " \u{2014} too large to send inline (max 5 MiB for API). Describe what you need from the image instead.",
                );
                assert(out@ =~= "Image is "@ + format_size_spec(bytes@.len())
                    + " \u{2014} too large to send inline (max 5 MiB for API). Describe what you need from the image instead."@);
                return Ok(ToolResult::error(out));
            }
            let data = base64_encode(bytes);
            let mut content = owned("Read image file [");
            push_str(&mut content, mime);
            push_str(&mut content, "] (");
            let fs = format_size(bytes.len());
            push_str(&mut content, fs.as_str());
            push_str(&mut content, ")");
            assert(content@ =~= "Read image file ["@ + mime@ + "] ("@ + format_size_spec(
                bytes@.len(),
            ) + ")"@);
            let mut blocks: Vec<ImageBlock> = Vec::new();
            blocks.push(ImageBlock { mime_type: owned(mime), data });
            Ok(ToolResult { content, is_error: false, image_blocks: blocks })
        },
        None => match decode_utf8(bytes) {
            Err(e) => {
                let mut msg = owned("read failed (not valid UTF-8): ");
                let ghost pre = msg@;
                push_str(&mut msg, e.as_str());
                assert(msg@.take(pre.len() as int) =~= pre);
                Err(DomainError::Tool(msg))
            },
            Ok(text) => match apply_read_truncation(text.as_str(), path, offset, limit) {
                Ok(page) => Ok(ToolResult::text(page)),
                Err(e) => Err(e),
            },
        },
    }
}


/// The description of the `read` tool.
pub const READ_DESCRIPTION: &'static str = "Read the contents of a file. Supports text files and images (jpg, png, gif, webp). Images are sent as attachments. For text files, output is truncated to 2000 lines or 50KB (whichever is hit first). Use offset/limit for large files. When you need the full file, continue with offset until complete. Example: {\"path\": \"src/main.rs\"}";

/// The parameter schema of the `read` tool.
pub const READ_SCHEMA: &'static str = "{\"type\":\"object\",\"properties\":{\"path\":{\"type\":\"string\",\"description\":\"Path to the file to read (relative or absolute)\"},\"offset\":{\"type\":\"number\",\"description\":\"Line number to start reading from (1-indexed)\"},\"limit\":{\"type\":\"number\",\"description\":\"Maximum number of lines to read\"}},\"required\":[\"path\"]}";


/// Every offset from 1 to the number of lines reads a page, including the
/// last line itself; without an offset the read starts at line 1 and
/// succeeds too. Only offset 0 and an offset past the last line are
/// refused, each with its message.
pub proof fn law_offsets_within_file_read(
    content: Seq<char>,
    path: Seq<char>,
    offset: usize,
    limit: Option<usize>,
)
    ensures
        1 <= offset <= lines(content).len() ==> read_page(content, path, Some(offset), limit) is Ok,
        offset == lines(content).len() && offset > 0 ==> read_page(
            content,
            path,
            Some(offset),
            limit,
        ) is Ok,
        read_page(content, path, None, limit) is Ok,
        offset == 0 ==> read_page(content, path, Some(offset), limit) == Err::<Seq<char>, Seq<char>>(
            offset_zero_msg(),
        ),
        offset > lines(content).len() ==> read_page(content, path, Some(offset), limit) == Err::<
            Seq<char>,
            Seq<char>,
        >(offset_beyond_msg(offset as nat, lines(content).len())),
{
}

} // verus!
