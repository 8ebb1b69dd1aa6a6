use text_diff::vector_exporter::{ExportError, ExportType, IVectorExporter, VectorExporter};

fn lines(v: &[&str]) -> Vec<String> {
    v.iter().map(|s| s.to_string()).collect()
}

fn contents(v: &[&str], format: ExportType) -> String {
    let exporter: VectorExporter<String> =
        IVectorExporter::<String>::new(lines(v), format, "/tmp/out");
    match exporter.contents() {
        Ok(s) => s,
        Err(ExportError::JsonError(e)) => panic!("json error: {}", e),
        Err(ExportError::IoError(e)) => panic!("io error: {}", e),
    }
}

#[test]
fn text_export_joins_with_newlines() {
    assert_eq!(contents(&["a", "b"], ExportType::Text), "a\nb\n");
}

#[test]
fn csv_export_quotes_each_line() {
    assert_eq!(contents(&["a", "b"], ExportType::Csv), "\"a\"\n\"b\"\n");
}

#[test]
fn json_export_parses_back() {
    let s = contents(&["a", "b"], ExportType::Json);
    assert_eq!(s, "[\"a\",\"b\"]");
    let back: Vec<String> = serde_json::from_str(&s).unwrap();
    assert_eq!(back, lines(&["a", "b"]));
}

#[test]
fn json_export_escapes() {
    let s = contents(&["q\"b\\", "t\tn\n\u{1}"], ExportType::Json);
    assert_eq!(s, "[\"q\\\"b\\\\\",\"t\\tn\\n\\u0001\"]");
}

#[test]
fn json_export_of_nothing() {
    assert_eq!(contents(&[], ExportType::Json), "[]");
}

#[test]
fn text_and_csv_export_of_nothing() {
    assert_eq!(contents(&[], ExportType::Text), "");
    assert_eq!(contents(&[], ExportType::Csv), "");
}

#[test]
fn csv_does_not_escape() {
    assert_eq!(contents(&["a\"b,c"], ExportType::Csv), "\"a\"b,c\"\n");
}

#[test]
fn unknown_extension_falls_back_to_text() {
    let format = ExportType::from_path("out.bak");
    assert_eq!(format, ExportType::Text);
    assert_eq!(contents(&["a", "b"], format), "a\nb\n");
}

#[test]
fn extension_picks_format() {
    assert_eq!(ExportType::from_path("out.txt"), ExportType::Text);
    assert_eq!(ExportType::from_path("/home/u/out.csv"), ExportType::Csv);
    assert_eq!(ExportType::from_path("dir/out.JSON"), ExportType::Json);
    assert_eq!(ExportType::from_path("a.b/out.CsV"), ExportType::Csv);
}

#[test]
fn missing_extension_falls_back_to_text() {
    assert_eq!(ExportType::from_path("out"), ExportType::Text);
    assert_eq!(ExportType::from_path("dir.json/out"), ExportType::Text);
    assert_eq!(ExportType::from_path("/tmp/.json"), ExportType::Text);
    assert_eq!(ExportType::from_path(""), ExportType::Text);
}

#[test]
fn default_format_is_text() {
    assert_eq!(ExportType::default(), ExportType::Text);
}

#[test]
fn exporter_holds_its_inputs() {
    let exporter: VectorExporter<String> =
        IVectorExporter::<String>::new(lines(&["a"]), ExportType::Csv, "/tmp/x.csv");
    assert_eq!(exporter.vec, lines(&["a"]));
    assert_eq!(exporter.export_type, ExportType::Csv);
    assert_eq!(exporter.export_path, "/tmp/x.csv");
}
