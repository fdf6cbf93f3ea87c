use quecto_tools::read::{
    apply_read_truncation, detect_image_mime_by_ext, detect_mime_by_magic, parse_read_args,
    read_bytes_result, shell_escape_single, too_large_result, ReadTool,
};
use quecto_tools::tool::{DomainError, Sandbox};

// --- detect_image_mime unit tests ---

#[test]
fn test_detect_image_mime_png() {
    assert_eq!(detect_image_mime_by_ext("screenshot.png"), Some("image/png"));
}

#[test]
fn test_detect_image_mime_jpg() {
    assert_eq!(detect_image_mime_by_ext("photo.jpg"), Some("image/jpeg"));
    assert_eq!(detect_image_mime_by_ext("photo.jpeg"), Some("image/jpeg"));
}

#[test]
fn test_detect_image_mime_gif() {
    assert_eq!(detect_image_mime_by_ext("anim.gif"), Some("image/gif"));
}

#[test]
fn test_detect_image_mime_webp() {
    assert_eq!(detect_image_mime_by_ext("icon.webp"), Some("image/webp"));
}

#[test]
fn test_detect_image_mime_text_file() {
    assert_eq!(detect_image_mime_by_ext("notes.txt"), None);
    assert_eq!(detect_image_mime_by_ext("main.rs"), None);
    assert_eq!(detect_image_mime_by_ext("no_extension"), None);
}

#[test]
fn test_detect_image_mime_uppercase_ext() {
    assert_eq!(detect_image_mime_by_ext("IMAGE.PNG"), Some("image/png"));
    assert_eq!(detect_image_mime_by_ext("Photo.JPG"), Some("image/jpeg"));
}

// --- Magic-byte MIME detection ---

#[test]
fn test_detect_mime_by_magic_png() {
    const PNG: &[u8] = &[0x89, b'P', b'N', b'G', 0x0D, 0x0A, 0x1A, 0x0A, 0, 0];
    assert_eq!(detect_mime_by_magic(PNG), Some("image/png"));
}

#[test]
fn test_detect_mime_by_magic_jpeg() {
    const JPEG: &[u8] = &[0xFF, 0xD8, 0xFF, 0xD9];
    assert_eq!(detect_mime_by_magic(JPEG), Some("image/jpeg"));
}

#[test]
fn test_detect_mime_by_magic_gif89a() {
    assert_eq!(detect_mime_by_magic(b"GIF89a\x01"), Some("image/gif"));
}

#[test]
fn test_detect_mime_by_magic_gif87a() {
    assert_eq!(detect_mime_by_magic(b"GIF87a\x01"), Some("image/gif"));
}

#[test]
fn test_detect_mime_by_magic_webp() {
    let webp = b"RIFF\x20\x00\x00\x00WEBPVP8L";
    assert_eq!(detect_mime_by_magic(webp), Some("image/webp"));
}

#[test]
fn test_detect_mime_by_magic_text() {
    assert_eq!(detect_mime_by_magic(b"hello world"), None);
    assert_eq!(detect_mime_by_magic(b""), None);
}

#[test]
fn detect_mime_by_magic_short_riff_is_text() {
    assert_eq!(detect_mime_by_magic(b"RIFF\x20\x00\x00\x00WEB"), None);
}

// --- Truncation notice format ---

#[test]
fn test_truncation_byte_limit_includes_50kb_hint() {
    // Each line is ~50 bytes; 1500 lines = ~75KB total, truncation happens by bytes.
    let line = "abcdefghijklmnopqrstuvwxyzabcdefghijklmnopqrstuv\n"; // 50 bytes
    let content: String = line.repeat(1500); // ~75KB
    let result = apply_read_truncation(&content, "f.txt", None, None).unwrap();
    assert!(
        result.contains("50KB limit"),
        "byte-truncated notice should include '50KB limit', got: {}",
        &result[result.len().saturating_sub(200)..]
    );
}

#[test]
fn test_truncation_user_limit_shows_more_lines() {
    // 100 lines, user requests 10 → "N more lines in file" notice.
    let content: String = (1..=100).map(|i| format!("line{}\n", i)).collect();
    let result = apply_read_truncation(&content, "f.txt", None, Some(10)).unwrap();
    assert!(
        result.contains("more lines in file"),
        "user-limit notice should say 'more lines in file', got: {}",
        &result[result.len().saturating_sub(200)..]
    );
}

#[test]
fn read_truncation_exact_notices() {
    let content: String = (1..=10).map(|i| format!("line{}\n", i)).collect();
    let page = apply_read_truncation(&content, "f.txt", Some(5), Some(3)).unwrap();
    assert_eq!(page, "line5\nline6\nline7\n[3 more lines in file. Use offset=8 to continue.]");
    let page = apply_read_truncation(&content, "f.txt", Some(9), None).unwrap();
    assert_eq!(page, "line9\nline10");
    let content: String = (1..=3000).map(|i| format!("l{}\n", i)).collect();
    let page = apply_read_truncation(&content, "f.txt", None, None).unwrap();
    assert!(page.ends_with("\n[Showing lines 1-2000 of 3000. Use offset=2001 to continue.]"));
}

#[test]
fn read_truncation_offset_errors() {
    match apply_read_truncation("a\nb", "f.txt", Some(0), None) {
        Err(DomainError::Tool(m)) => assert!(m.contains("1-indexed")),
        _ => panic!("expected an error"),
    }
    match apply_read_truncation("a\nb", "f.txt", Some(3), None) {
        Err(DomainError::Tool(m)) => {
            assert_eq!(m, "Offset 3 is beyond end of file (2 lines total)")
        }
        _ => panic!("expected an error"),
    }
}

#[test]
fn read_truncation_long_first_line() {
    let content = "x".repeat(60000);
    let page = apply_read_truncation(&content, "it's.txt", None, None).unwrap();
    assert_eq!(
        page,
        "[Line 1 is 58.6KB, exceeds 50.0KB limit. Use bash: sed -n '1p' 'it'\\''s.txt' | head -c 51200]"
    );
}

#[test]
fn shell_escape_wraps_and_escapes_quotes() {
    assert_eq!(shell_escape_single("a b"), "'a b'");
    assert_eq!(shell_escape_single("it's"), "'it'\\''s'");
}

#[test]
fn read_bytes_image_and_text() {
    let png: &[u8] = &[0x89, 0x50, 0x4E, 0x47, 0x0D, 0x0A, 0x1A, 0x0A, 0x00];
    let r = read_bytes_result("img.png", png, None, None).unwrap();
    assert!(!r.is_error);
    assert_eq!(r.image_blocks.len(), 1);
    assert_eq!(r.image_blocks[0].mime_type, "image/png");
    assert_eq!(r.image_blocks[0].data, "iVBORw0KGgoA");
    assert_eq!(r.content, "Read image file [image/png] (9B)");
    let r = read_bytes_result("not_image.jpg", b"hello world", None, None).unwrap();
    assert!(r.image_blocks.is_empty());
    assert_eq!(r.content, "hello world");
    assert!(read_bytes_result("bad.txt", &[0xC3, 0x28], None, None).is_err());
}

#[test]
fn read_args_and_too_large() {
    let q = match parse_read_args(r#"{"path": "a.txt", "offset": 5, "limit": 3}"#) {
        Ok(q) => q,
        Err(_) => panic!("expected a request"),
    };
    assert_eq!(q.path, "a.txt");
    assert_eq!(q.offset, Some(5));
    assert_eq!(q.limit, Some(3));
    match parse_read_args("{}") {
        Err(e) => {
            assert!(e.is_error);
            assert!(e.content.contains("path") && e.content.contains("Example"));
        }
        Ok(_) => panic!("expected an error"),
    }
    let r = too_large_result(11 * 1024 * 1024, "big.bin");
    assert!(r.is_error);
    assert!(r.content.starts_with("File is 11.0MB"));
    let tool = ReadTool::new("/tmp".to_string(), Sandbox::new(None, true));
    assert!(tool.definition().description.contains("Example"));
}

#[test]
fn test_read_description_includes_example() {
    let tool = ReadTool::new("/w".to_string(), Sandbox::new(Some("/w".to_string()), true));
    let def = tool.definition();
    assert!(
        def.description.contains("Example"),
        "read description should include Example, got: {}",
        def.description
    );
}
