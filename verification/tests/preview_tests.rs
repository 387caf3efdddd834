use moraya_core::preview::{extract_preview, split_into_lines, skip_run, trim_char};

#[test]
fn front_matter_title_preferred() {
    let content = "---\ntitle: \"My Document\"\n---\n# Heading\nBody text\n";
    assert_eq!(extract_preview(content, 100), "My Document");
    let content = "---\ntitle: 'Quoted'\n---\ntext\n";
    assert_eq!(extract_preview(content, 100), "Quoted");
    let content = "---\ntitle: Plain Title\n---\n";
    assert_eq!(extract_preview(content, 100), "Plain Title");
}

#[test]
fn first_content_line_as_fallback() {
    assert_eq!(extract_preview("# Hello World\nmore text\n", 100), "Hello World");
    assert_eq!(extract_preview("\n\n  \nplain paragraph\n", 100), "plain paragraph");
    assert_eq!(extract_preview("> a quote\n", 100), "a quote");
    assert_eq!(extract_preview("- item one\n", 100), "item one");
    assert_eq!(extract_preview("* starred\n", 100), "starred");
}

#[test]
fn empty_front_matter_title_ignored() {
    let content = "---\ntitle: \"\"\n---\nfallback line\n";
    assert_eq!(extract_preview(content, 100), "fallback line");
}

#[test]
fn marker_only_line_skipped() {
    assert_eq!(extract_preview("#\nreal text\n", 100), "real text");
}

#[test]
fn preview_truncated_with_ellipsis() {
    assert_eq!(extract_preview("abcdefgh\n", 5), "abcde...");
    assert_eq!(extract_preview("abcde\n", 5), "abcde");
}

#[test]
fn byte_order_mark_stripped() {
    assert_eq!(extract_preview("\u{FEFF}# Title\n", 100), "Title");
}

#[test]
fn empty_document_gives_empty_preview() {
    assert_eq!(extract_preview("", 100), "");
    assert_eq!(extract_preview("   \n\n", 100), "");
}

#[test]
fn lines_split_on_both_line_endings() {
    let lines = split_into_lines("a\r\nb\nc");
    assert_eq!(lines, vec!["a".to_string(), "b".to_string(), "c".to_string()]);
    assert_eq!(split_into_lines(""), Vec::<String>::new());
    assert_eq!(split_into_lines("x\n"), vec!["x".to_string()]);
    assert_eq!(split_into_lines("\n\n"), vec!["".to_string(), "".to_string()]);
}

#[test]
fn run_trimming() {
    assert_eq!(trim_char("\"\"quoted\"\"", '"'), "quoted");
    assert_eq!(trim_char("''''", '\''), "");
    assert_eq!(skip_run("###heading", '#'), "heading");
    assert_eq!(skip_run("plain", '#'), "plain");
}
