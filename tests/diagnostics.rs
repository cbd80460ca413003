use typwriter::diagnostic::{
    diagnostic_position_from_source, process_diagnostics, DiagnosticPosition, RawDiagnostic,
    TypstSeverity,
};
use typwriter::session::DocumentCache;

fn raw(severity: TypstSeverity, message: &str, source: Option<&str>, start: usize, end: usize) -> RawDiagnostic {
    RawDiagnostic {
        severity,
        message: message.to_string(),
        hints: vec!["hint".to_string()],
        source: source.map(|s| s.to_string()),
        start,
        end,
    }
}

#[test]
fn test_diagnostic_position_from_source_with_valid_source() {
    let source_text = "let x = 5;\nlet y = 10;";
    let position = diagnostic_position_from_source(&Some(source_text.to_string()), 4, 5);
    assert_eq!(position.line, 1);
    assert_eq!(position.column, 5);
}

#[test]
fn test_diagnostic_position_from_source_with_error() {
    let position = diagnostic_position_from_source(&None, 0, 5);
    assert_eq!(position.line, 0);
    assert_eq!(position.column, 0);
    assert_eq!(position.end_line, 0);
    assert_eq!(position.end_column, 0);
}

#[test]
fn test_multiline_diagnostic_position() {
    let source_text = "let x = (\n  1,\n  2,\n  3\n);";
    let position = diagnostic_position_from_source(&Some(source_text.to_string()), 9, 24);
    assert!(position.line > 0);
    assert!(position.end_line >= position.line);
}

#[test]
fn test_diagnostic_position_default() {
    let pos = DiagnosticPosition::default();
    assert_eq!(pos.line, 0);
    assert_eq!(pos.column, 0);
    assert_eq!(pos.end_line, 0);
    assert_eq!(pos.end_column, 0);
}

#[test]
fn multiline_position_is_exact() {
    let source_text = "let x = (\n  1,\n  2,\n  3\n);";
    let position = diagnostic_position_from_source(&Some(source_text.to_string()), 12, 24);
    assert_eq!(position, DiagnosticPosition { line: 2, column: 3, end_line: 5, end_column: 1 });
}

#[test]
fn columns_count_characters_not_bytes() {
    let source_text = "é世x";
    let position = diagnostic_position_from_source(&Some(source_text.to_string()), 5, 6);
    assert_eq!(position, DiagnosticPosition { line: 1, column: 3, end_line: 1, end_column: 4 });
}

#[test]
fn range_past_the_end_gives_one_based_fallback() {
    let position = diagnostic_position_from_source(&Some("ab".to_string()), 10, 12);
    assert_eq!(position, DiagnosticPosition { line: 1, column: 1, end_line: 1, end_column: 1 });
}

#[test]
fn diagnostics_keep_order_and_unresolvable_ones_are_zeroed() {
    let out = process_diagnostics(vec![
        raw(TypstSeverity::Warning, "first", Some("a\nb"), 2, 3),
        raw(TypstSeverity::Error, "second", None, 0, 1),
    ]);
    assert_eq!(out.len(), 2);
    assert_eq!(out[0].message, "first");
    assert_eq!(out[0].location, DiagnosticPosition { line: 2, column: 1, end_line: 2, end_column: 2 });
    assert_eq!(out[1].message, "second");
    assert_eq!(out[1].severity, TypstSeverity::Error);
    assert_eq!(out[1].location, DiagnosticPosition::default());
    assert_eq!(out[1].hints, vec!["hint".to_string()]);
}

#[test]
fn failed_compile_returns_warnings_then_errors_and_keeps_document() {
    let mut cache: DocumentCache<&str> = DocumentCache::new();
    let ok = cache.record_compile(vec![], Ok(("one page", 1)));
    assert!(ok.unwrap().is_empty());
    let failed = cache.record_compile(
        vec![raw(TypstSeverity::Warning, "w", Some("A"), 0, 1)],
        Err(vec![raw(TypstSeverity::Error, "unknown variable: nope", Some("#nope"), 1, 5)]),
    );
    let errors = failed.err().unwrap().0;
    assert_eq!(errors.len(), 2);
    assert_eq!(errors[0].message, "w");
    assert_eq!(errors[1].severity, TypstSeverity::Error);
    assert_eq!(errors[1].location, DiagnosticPosition { line: 1, column: 2, end_line: 1, end_column: 6 });
    assert_eq!(cache.get(), Some(&"one page"));
    assert_eq!(cache.page_count(), Some(1));
}

#[test]
fn failed_compile_with_unreadable_source_still_reports() {
    let mut cache: DocumentCache<u8> = DocumentCache::new();
    let failed = cache.record_compile(vec![], Err(vec![raw(TypstSeverity::Error, "package failed", None, 3, 9)]));
    let errors = failed.err().unwrap().0;
    assert_eq!(errors.len(), 1);
    assert_eq!(errors[0].location, DiagnosticPosition::default());
    assert_eq!(cache.get(), None);
}

#[test]
fn successful_compile_replaces_document() {
    let mut cache: DocumentCache<u8> = DocumentCache::new();
    let _ = cache.record_compile(vec![], Ok((1, 1)));
    let warnings = cache
        .record_compile(vec![raw(TypstSeverity::Warning, "w", Some("x"), 0, 0)], Ok((2, 4)))
        .unwrap();
    assert_eq!(warnings.len(), 1);
    assert_eq!(cache.get(), Some(&2));
    assert_eq!(cache.page_count(), Some(4));
}

#[test]
fn line_breaks_follow_the_compiler() {
    let text = "a\r\nb\rc\u{2028}d".to_string();
    let position = diagnostic_position_from_source(&Some(text.clone()), 3, 9);
    assert_eq!(position, DiagnosticPosition { line: 2, column: 1, end_line: 4, end_column: 1 });
    let position = diagnostic_position_from_source(&Some(text.clone()), 1, 2);
    assert_eq!(position, DiagnosticPosition { line: 1, column: 2, end_line: 1, end_column: 3 });
    let position = diagnostic_position_from_source(&Some(text), 5, 6);
    assert_eq!(position, DiagnosticPosition { line: 3, column: 1, end_line: 3, end_column: 2 });
}

#[test]
fn byte_inside_a_character_has_no_column() {
    let position = diagnostic_position_from_source(&Some("xé".to_string()), 2, 3);
    assert_eq!(position, DiagnosticPosition { line: 1, column: 1, end_line: 1, end_column: 3 });
}
