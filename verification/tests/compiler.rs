use bevyforge::diagnostics::{CargoDiag, CargoMessage, CargoSpan, DiagnosticLevel, DiagnosticsParser};

fn span(file: &str, line: u32, primary: Option<bool>) -> CargoSpan {
    CargoSpan { file_name: Some(file.into()), line_start: Some(line), is_primary: primary }
}

fn diag(level: &str, message: &str, spans: Vec<CargoSpan>) -> CargoDiag {
    CargoDiag {
        level: Some(level.into()),
        message: Some(message.into()),
        rendered: Some("error[E0425]: ...".into()),
        spans: Some(spans),
    }
}

fn compiler_message(d: CargoDiag) -> CargoMessage {
    CargoMessage { reason: Some("compiler-message".into()), message: Some(d) }
}

#[test]
fn parses_error_with_span() {
    let mut p = DiagnosticsParser::new();
    p.feed_message(compiler_message(diag(
        "error",
        "unused variable: `old_position`",
        vec![span("crates/forge_scripts/src/lib.rs", 42, Some(true))],
    )));
    let diags = p.take();
    assert_eq!(diags.len(), 1);
    assert_eq!(diags[0].level, DiagnosticLevel::Error);
    assert!(diags[0].file.ends_with("lib.rs"));
    assert_eq!(diags[0].line, 42);
    assert_eq!(p.error_count(), 1);
}

#[test]
fn ignores_progress_lines() {
    let mut p = DiagnosticsParser::new();
    p.feed_message(CargoMessage { reason: Some("build-finished".into()), message: None });
    p.feed_message(CargoMessage { reason: None, message: Some(diag("error", "x", vec![])) });
    p.feed_message(CargoMessage {
        reason: Some("compiler-artifact".into()),
        message: Some(diag("error", "x", vec![])),
    });
    assert!(p.take().is_empty());
    assert_eq!(p.error_count(), 0);
}

#[test]
fn primary_span_and_levels() {
    let mut p = DiagnosticsParser::new();
    p.feed_message(compiler_message(diag(
        "warning",
        "w",
        vec![span("a.rs", 1, None), span("b.rs", 2, Some(false)), span("c.rs", 3, Some(true)), span("d.rs", 4, Some(true))],
    )));
    p.feed_message(compiler_message(diag("note", "n", vec![span("a.rs", 1, Some(false))])));
    p.feed_message(compiler_message(diag("fatal error", "f", vec![])));
    p.feed_message(compiler_message(diag("failure-note", "ignored", vec![])));
    p.feed_message(compiler_message(diag("error: internal compiler error", "ice", vec![])));
    let d = p.take();
    assert_eq!(d.len(), 4);
    assert_eq!((d[0].level, d[0].file.as_str(), d[0].line), (DiagnosticLevel::Warning, "c.rs", 3));
    assert_eq!((d[1].level, d[1].file.as_str(), d[1].line), (DiagnosticLevel::Note, "a.rs", 1));
    assert_eq!(d[2].level, DiagnosticLevel::Error);
    assert_eq!(d[3].message, "ice");
    assert_eq!(p.error_count(), 2);
    assert_eq!(p.warning_count(), 1);
    assert!(p.take().is_empty());
    assert_eq!(p.error_count(), 2);
    p.reset();
    assert_eq!(p.error_count(), 0);
    assert_eq!(p.warning_count(), 0);
    assert_eq!(DiagnosticLevel::Help.label(), "help");
}

#[test]
fn absent_fields_default() {
    let mut p = DiagnosticsParser::new();
    p.absorb(CargoDiag { level: Some("help".into()), message: None, rendered: None, spans: None });
    p.absorb(CargoDiag { level: None, message: Some("no level".into()), rendered: None, spans: None });
    let d = p.take();
    assert_eq!(d.len(), 1);
    assert_eq!((d[0].message.as_str(), d[0].file.as_str(), d[0].line, d[0].rendered.as_str()), ("", "", 0, ""));
}

#[test]
fn falls_back_to_first_span_with_a_file() {
    let mut p = DiagnosticsParser::new();
    p.feed_message(compiler_message(diag("warning", "m", vec![span("src/a.rs", 7, Some(false))])));
    let no_file = CargoSpan { file_name: None, line_start: Some(3), is_primary: None };
    let no_line = CargoSpan { file_name: Some("src/b.rs".into()), line_start: None, is_primary: None };
    p.feed_message(compiler_message(diag("warning", "m2", vec![no_file, no_line, span("src/c.rs", 9, None)])));
    let bare = CargoSpan { file_name: None, line_start: Some(5), is_primary: Some(false) };
    p.feed_message(compiler_message(diag("error", "m3", vec![bare])));
    let d = p.take();
    assert_eq!(d.len(), 3);
    assert_eq!((d[0].level, d[0].file.as_str(), d[0].line), (DiagnosticLevel::Warning, "src/a.rs", 7));
    assert_eq!((d[1].file.as_str(), d[1].line), ("src/b.rs", 0));
    assert_eq!((d[2].file.as_str(), d[2].line), ("", 0));
    assert_eq!(p.warning_count(), 2);
}
