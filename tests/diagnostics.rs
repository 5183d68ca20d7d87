use slice_lsp::diagnostics::{
    clear_then_publish, deduplicate_diagnostics, distinct_files, is_same_report, process_diagnostics,
    publish_diagnostics, try_into_lsp_diagnostic, Diagnostic, FileDiagnostics, Note, PublishOutput, Severity,
};
use slice_lsp::position::{Position, Range, SourceLocation, SourceSpan};
use slicec::diagnostics::DiagnosticLevel;

fn span(file: &str, row: usize, col: usize) -> SourceSpan {
    SourceSpan {
        start: SourceLocation { row, col },
        end: SourceLocation { row, col: col + 3 },
        file: file.to_string(),
    }
}

fn diag(file: Option<&str>, row: usize, message: &str) -> Diagnostic {
    Diagnostic {
        level: DiagnosticLevel::Error,
        span: file.map(|f| span(f, row, 1)),
        code: "E001".to_string(),
        message: message.to_string(),
        notes: vec![],
    }
}

fn summary(out: &PublishOutput) -> Vec<(String, Vec<String>)> {
    out.files
        .iter()
        .map(|f: &FileDiagnostics| (f.file.clone(), f.diagnostics.iter().map(|d| d.message.clone()).collect()))
        .collect()
}

fn strings(v: &[&str]) -> Vec<String> {
    v.iter().map(|s| s.to_string()).collect()
}

#[test]
fn lsp_diagnostic_has_range_severity_and_related_notes() {
    let mut d = diag(Some("/a.slice"), 2, "bad");
    d.level = DiagnosticLevel::Warning;
    d.notes = vec![
        Note { message: "see here".to_string(), span: Some(span("/b.slice", 4, 2)) },
        Note { message: "no place".to_string(), span: None },
    ];
    let l = try_into_lsp_diagnostic(&d).unwrap();
    assert_eq!(l.range, Range { start: Position { line: 1, character: 0 }, end: Position { line: 1, character: 3 } });
    assert_eq!(l.severity, Some(Severity::Warning));
    assert_eq!(l.code, "E001");
    assert_eq!(l.message, "bad");
    assert_eq!(l.related_information.len(), 1);
    assert_eq!(l.related_information[0].file, "/b.slice");
    assert_eq!(l.related_information[0].message, "see here");
    assert_eq!(l.related_information[0].range.start, Position { line: 3, character: 1 });
}

#[test]
fn allowed_and_info_levels() {
    let mut d = diag(Some("/a.slice"), 1, "m");
    d.level = DiagnosticLevel::Allowed;
    assert_eq!(try_into_lsp_diagnostic(&d).unwrap().severity, None);
    d.level = DiagnosticLevel::Info;
    assert_eq!(try_into_lsp_diagnostic(&d).unwrap().severity, Some(Severity::Information));
}

#[test]
fn spanless_diagnostic_has_no_lsp_form() {
    assert!(try_into_lsp_diagnostic(&diag(None, 1, "lost")).is_none());
}

#[test]
fn same_report_needs_equal_span_and_message() {
    assert!(is_same_report(&diag(Some("/a.slice"), 1, "m"), &diag(Some("/a.slice"), 1, "m")));
    assert!(!is_same_report(&diag(Some("/a.slice"), 1, "m"), &diag(Some("/a.slice"), 2, "m")));
    assert!(!is_same_report(&diag(Some("/a.slice"), 1, "m"), &diag(Some("/a.slice"), 1, "n")));
    assert!(!is_same_report(&diag(Some("/a.slice"), 1, "m"), &diag(None, 1, "m")));
}

#[test]
fn identical_span_and_message_yield_one_entry() {
    let ds = vec![diag(Some("/a.slice"), 1, "dup"), diag(Some("/a.slice"), 1, "dup")];
    let out = publish_diagnostics(&ds, &strings(&["/a.slice"]));
    assert_eq!(summary(&out), vec![("/a.slice".to_string(), strings(&["dup"]))]);
}

#[test]
fn deduplication_keeps_first_occurrences_in_order() {
    let ds = vec![
        diag(Some("/a.slice"), 1, "x"),
        diag(Some("/a.slice"), 2, "x"),
        diag(Some("/a.slice"), 1, "x"),
        diag(None, 1, "y"),
        diag(None, 1, "y"),
    ];
    let r = deduplicate_diagnostics(&ds);
    assert_eq!(r.len(), 3);
    assert_eq!(r[0].span.as_ref().unwrap().start.row, 1);
    assert_eq!(r[1].span.as_ref().unwrap().start.row, 2);
    assert!(r[2].span.is_none());
}

#[test]
fn publishing_twice_gives_the_same_grouping() {
    let ds = vec![
        diag(Some("/a.slice"), 1, "one"),
        diag(Some("/b.slice"), 1, "two"),
        diag(Some("/a.slice"), 1, "one"),
        diag(Some("/a.slice"), 3, "three"),
    ];
    let known = strings(&["/a.slice", "/b.slice", "/c.slice"]);
    let first = publish_diagnostics(&ds, &known);
    let second = publish_diagnostics(&ds, &known);
    assert_eq!(summary(&first), summary(&second));
    let again = publish_diagnostics(&deduplicate_diagnostics(&ds), &known);
    assert_eq!(summary(&first), summary(&again));
    assert_eq!(
        summary(&first),
        vec![
            ("/a.slice".to_string(), strings(&["one", "three"])),
            ("/b.slice".to_string(), strings(&["two"])),
            ("/c.slice".to_string(), vec![]),
        ]
    );
}

#[test]
fn diagnostics_of_unknown_files_get_entries_and_spanless_are_kept_apart() {
    let ds = vec![diag(None, 1, "popup"), diag(Some("/new.slice"), 1, "n")];
    let out = process_diagnostics(&ds, &strings(&["/a.slice", "/a.slice"]));
    assert_eq!(
        summary(&out),
        vec![("/a.slice".to_string(), vec![]), ("/new.slice".to_string(), strings(&["n"]))]
    );
    assert_eq!(out.spanless.len(), 1);
    assert_eq!(out.spanless[0].message, "popup");
}

#[test]
fn removed_file_is_cleared() {
    let out = clear_then_publish(&strings(&["/a.slice", "/b.slice"]), &vec![], &strings(&["/a.slice"]));
    assert!(summary(&out).contains(&("/b.slice".to_string(), vec![])));
}

#[test]
fn reconfiguration_clears_before_publishing() {
    let ds = vec![diag(Some("a"), 1, "fresh")];
    let out = clear_then_publish(&strings(&["a", "b"]), &ds, &strings(&["a"]));
    assert_eq!(
        summary(&out),
        vec![("b".to_string(), vec![]), ("a".to_string(), strings(&["fresh"]))]
    );
}

#[test]
fn shared_file_diagnostics_from_two_projects_are_deduplicated() {
    let from_first = diag(Some("/shared/common.slice"), 2, "redefinition");
    let from_second = diag(Some("/shared/common.slice"), 2, "redefinition");
    let out = publish_diagnostics(&vec![from_first, from_second], &strings(&["/shared/common.slice", "/shared/common.slice"]));
    assert_eq!(out.files.len(), 1);
    assert_eq!(out.files[0].diagnostics.len(), 1);
}

#[test]
fn distinct_files_keeps_first_occurrences() {
    assert_eq!(distinct_files(&strings(&["b", "a", "b", "c", "a"])), strings(&["b", "a", "c"]));
}
