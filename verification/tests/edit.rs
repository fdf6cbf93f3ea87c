use quecto_tools::edit::{
    apply_edit, base_normalise, count_occurrences_capped, detect_line_ending, make_edit_diff,
    normalize_for_fuzzy_match, restore_file_format, EditTool, LineEnding,
};
use quecto_tools::tool::Sandbox;

fn chars(s: &str) -> Vec<char> {
    s.chars().collect()
}

fn text(v: Vec<char>) -> String {
    v.into_iter().collect()
}

#[test]
fn line_endings_and_bom() {
    assert_eq!(detect_line_ending(&chars("a\r\nb\n")), LineEnding::Crlf);
    assert_eq!(detect_line_ending(&chars("a\nb\r\n")), LineEnding::Lf);
    assert_eq!(detect_line_ending(&chars("abc")), LineEnding::Lf);
    assert_eq!(text(base_normalise(&chars("\u{FEFF}a\r\nb\rc"))), "a\nb\nc");
    assert_eq!(restore_file_format(&chars("a\nb"), LineEnding::Crlf, true), "\u{FEFF}a\r\nb");
    assert_eq!(restore_file_format(&chars("a\nb"), LineEnding::Lf, false), "a\nb");
}

#[test]
fn fuzzy_normal_form() {
    let s = "say \u{201C}hi\u{201D}  \nit\u{2019}s\u{00A0}ok \u{2014} fine\n";
    assert_eq!(text(normalize_for_fuzzy_match(&chars(s))), "say \"hi\"\nit's ok - fine\n");
}

#[test]
fn occurrences_are_capped() {
    assert_eq!(count_occurrences_capped(&chars("aXaXa"), &chars("a"), 2), (2, Some(0)));
    assert_eq!(count_occurrences_capped(&chars("bab"), &chars("a"), 2), (1, Some(1)));
    assert_eq!(count_occurrences_capped(&chars("aaa"), &chars("aa"), 5), (1, Some(0)));
    assert_eq!(count_occurrences_capped(&chars("abc"), &chars(""), 2), (0, None));
    assert_eq!(count_occurrences_capped(&chars("abc"), &chars("z"), 2), (0, None));
}

#[test]
fn edit_unique_exact_match() {
    let out = match apply_edit("one\ntwo\nthree\n", "two", "TWO", "f.txt") {
        Ok(o) => o,
        Err(e) => panic!("unexpected: {}", e.content),
    };
    assert_eq!(out.write_content, "one\nTWO\nthree\n");
    assert_eq!(out.reply, "Successfully edited f.txt\n\n 1 one\n-2 two\n+2 TWO\n 3 three");
}

#[test]
fn edit_preserves_crlf_and_bom() {
    let out = match apply_edit("\u{FEFF}a\r\nb\r\n", "b", "c", "f.txt") {
        Ok(o) => o,
        Err(e) => panic!("unexpected: {}", e.content),
    };
    assert_eq!(out.write_content, "\u{FEFF}a\r\nc\r\n");
}

#[test]
fn edit_fuzzy_match() {
    let out = match apply_edit("it\u{2019}s here\n", "it's here", "it is here", "f.txt") {
        Ok(o) => o,
        Err(e) => panic!("unexpected: {}", e.content),
    };
    assert_eq!(out.write_content, "it is here\n");
}

#[test]
fn edit_refusals() {
    match apply_edit("abc", "zzz", "y", "f.txt") {
        Err(e) => assert_eq!(e.content, "oldText not found in f.txt"),
        Ok(_) => panic!("expected an error"),
    }
    match apply_edit("a a", "a", "b", "f.txt") {
        Err(e) => assert!(e.content.starts_with("oldText matches 2 times in f.txt")),
        Ok(_) => panic!("expected an error"),
    }
    match apply_edit("abc", "b", "b", "f.txt") {
        Err(e) => assert_eq!(e.content, "No changes made to f.txt. The replacement produced identical content."),
        Ok(_) => panic!("expected an error"),
    }
}

#[test]
fn edit_args() {
    let tool = EditTool::new("/w".to_string(), Sandbox::new(None, true));
    assert_eq!(tool.definition().name, "edit");
    match tool.parse_args(r#"{"path": "f", "old": "a", "new": "b"}"#) {
        Ok(q) => {
            assert_eq!(q.old_text, "a");
            assert_eq!(q.new_text, "b");
        }
        Err(_) => panic!("expected a request"),
    }
    match tool.parse_args(r#"{"path": "f", "oldText": "a"}"#) {
        Err(e) => assert!(e.content.starts_with("missing 'newText' argument. Example:")),
        Ok(_) => panic!("expected an error"),
    }
    match tool.parse_args("{}") {
        Err(e) => assert!(e.content.starts_with("missing 'path' argument")),
        Ok(_) => panic!("expected an error"),
    }
}

#[test]
fn long_diff_is_omitted() {
    let old: String = (1..=300).map(|i| format!("line {}\n", i)).collect();
    let new: String = (1..=300).map(|i| format!("LINE {}\n", i)).collect();
    assert_eq!(make_edit_diff("f.txt", &old, &new), "Successfully edited f.txt");
}

#[test]
fn normal_form_round_trips_uniform_files() {
    for raw in ["\u{FEFF}a\r\nb\r\n", "a\nb\n", "\u{FEFF}plain", "x\r\ny"] {
        let cs: Vec<char> = raw.chars().collect();
        let ending = detect_line_ending(&cs);
        let bom = raw.starts_with('\u{FEFF}');
        let lf = base_normalise(&cs);
        assert_eq!(restore_file_format(&lf, ending, bom), raw);
    }
}
