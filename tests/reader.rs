use text_diff::filereader::FileReader;

fn split(s: &str) -> Vec<String> {
    FileReader::new().split_lines(s)
}

fn lines(v: &[&str]) -> Vec<String> {
    v.iter().map(|s| s.to_string()).collect()
}

#[test]
fn splits_on_newlines() {
    assert_eq!(split("a\nb\n"), lines(&["a", "b"]));
}

#[test]
fn last_line_needs_no_newline() {
    assert_eq!(split("a\nb"), lines(&["a", "b"]));
}

#[test]
fn crlf_endings_are_stripped() {
    assert_eq!(split("a\r\nb\r\n"), lines(&["a", "b"]));
}

#[test]
fn lone_carriage_returns_stay() {
    assert_eq!(split("a\rb\r\r\nc\r"), lines(&["a\rb\r", "c\r"]));
}

#[test]
fn empty_lines_are_kept() {
    assert_eq!(split("\n\nx\n\n"), lines(&["", "", "x", ""]));
}

#[test]
fn empty_text_has_no_lines() {
    assert_eq!(split(""), Vec::<String>::new());
}

#[test]
fn non_ascii_text_is_kept() {
    assert_eq!(split("é ü\n日本\r\n"), lines(&["é ü", "日本"]));
}

#[test]
fn agrees_with_std_lines() {
    let text = "one\r\ntwo\n\nthree\r";
    let expected: Vec<String> = text.lines().map(|s| s.to_string()).collect();
    assert_eq!(split(text), expected);
}
