use safelang::diagnostics::CompileError;
use safelang::diagnostics::Diagnostics;
use safelang::diagnostics::ErrorKind;
use safelang::diagnostics::SourceLocation;
use safelang::diagnostics::SourceMap;
use safelang::diagnostics::Span;

fn sample_span(file: &str, line: usize, start_col: usize, end_col: usize) -> Span {
    Span {
        start: SourceLocation {
            file: file.to_string(),
            line,
            column: start_col,
        },
        end: SourceLocation {
            file: file.to_string(),
            line,
            column: end_col,
        },
    }
}

#[test]
fn test_format_with_source_snippet() {
    let error = CompileError::new(ErrorKind::Type, "mismatched types")
        .with_span(sample_span("main.sl", 1, 5, 8))
        .with_note("the declared type wins")
        .with_help("change the initializer");
    let rendered = error.format_with_source("let x = 5;");
    let expected = "Type error: mismatched types\n  --> main.sl:1:5\n   |\n   1 | let x = 5;\n   |     ^^^\nnote: the declared type wins\nhelp: change the initializer\n";
    assert_eq!(rendered, expected);
}

#[test]
fn test_format_second_line_and_min_caret() {
    let error =
        CompileError::new(ErrorKind::Ownership, "moved value").with_span(sample_span("lib.sl", 2, 3, 3));
    let rendered = error.format_with_source("first\nsecond line\nthird");
    let expected = "Ownership error: moved value\n  --> lib.sl:2:3\n   |\n   2 | second line\n   |   ^\n";
    assert_eq!(rendered, expected);
}

#[test]
fn test_format_without_matching_line() {
    let error =
        CompileError::new(ErrorKind::Name, "duplicate name").with_span(sample_span("x.sl", 9, 1, 2));
    let rendered = error.format_with_source("only one line");
    let expected = "Name error: duplicate name\n  --> x.sl:9:1\n";
    assert_eq!(rendered, expected);
}

#[test]
fn test_summary_line() {
    let plain = CompileError::new(ErrorKind::Internal, "oops");
    assert_eq!(plain.summary(), "Internal compiler error: oops");
    let with_span =
        CompileError::new(ErrorKind::Syntax, "bad token").with_span(sample_span("a.sl", 3, 7, 9));
    assert_eq!(with_span.summary(), "Syntax error: bad token at a.sl:3:7");
}

#[test]
fn test_source_map_exact_paths() {
    let mut map = SourceMap::new();
    map.add_source("src/main.sl".to_string(), "let a = 1;".to_string());
    map.add_source("lib.sl".to_string(), "fn id() {}".to_string());
    assert_eq!(map.get_source("src/main.sl"), Some("let a = 1;"));
    assert_eq!(map.get_source("lib.sl"), Some("fn id() {}"));
    assert_eq!(map.get_source("./src/main.sl"), None);
    map.add_source("lib.sl".to_string(), "fn id2() {}".to_string());
    assert_eq!(map.get_source("lib.sl"), Some("fn id2() {}"));
}

#[test]
fn test_diagnostics_counts_and_format_all() {
    let mut diagnostics = Diagnostics::new();
    assert!(!diagnostics.has_errors());
    diagnostics.add_error(
        CompileError::new(ErrorKind::Type, "mismatch").with_span(sample_span("main.sl", 1, 1, 4)),
    );
    diagnostics.add_warning(CompileError::new(ErrorKind::Ownership, "unused borrow"));
    assert!(diagnostics.has_errors());
    assert_eq!(diagnostics.error_count(), 1);
    assert_eq!(diagnostics.warning_count(), 1);

    let mut map = SourceMap::new();
    map.add_source("main.sl".to_string(), "abc def".to_string());
    let rendered = diagnostics.format_all(&map);
    let expected = "Type error: mismatch\n  --> main.sl:1:1\n   |\n   1 | abc def\n   | ^^^\n\nOwnership error: unused borrow\n\n";
    assert_eq!(rendered, expected);
}

#[test]
fn test_format_all_without_source() {
    let mut diagnostics = Diagnostics::new();
    diagnostics.add_error(
        CompileError::new(ErrorKind::Reference, "unknown symbol")
            .with_span(sample_span("gone.sl", 2, 2, 5)),
    );
    let rendered = diagnostics.format_all(&SourceMap::new());
    assert_eq!(rendered, "Reference error: unknown symbol at gone.sl:2:2\n\n");
}

#[test]
fn test_error_kind_labels() {
    assert_eq!(ErrorKind::Syntax.label(), "Syntax error");
    assert_eq!(ErrorKind::Type.label(), "Type error");
    assert_eq!(ErrorKind::Name.label(), "Name error");
    assert_eq!(ErrorKind::Reference.label(), "Reference error");
    assert_eq!(ErrorKind::Ownership.label(), "Ownership error");
    assert_eq!(ErrorKind::Safety.label(), "Safety error");
    assert_eq!(ErrorKind::IO.label(), "I/O error");
    assert_eq!(ErrorKind::Internal.label(), "Internal compiler error");
}
