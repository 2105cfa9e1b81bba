use flint::diagnostics::{gitops_error_to_diagnostic, lint_error_to_diagnostic};
use flint::fleet::GitOpsError;
use flint::lint_error::{LintError, Severity};
use flint::lsp::{DiagnosticSeverity, Position};

#[test]
fn test_lint_error_to_diagnostic() {
    let error = LintError {
        severity: Severity::Error,
        message: "Missing required field 'query'".to_string(),
        file: "test.yml".to_string(),
        line: Some(5),
        column: Some(3),
        context: Some("name".to_string()),
        help: Some("Policies must have a query field".to_string()),
        suggestion: Some("query: \"SELECT 1;\"".to_string()),
        rule_code: Some("required-fields".to_string()),
        fix_safety: None,
    };

    let source = "policies:\n  - name: test\n    platform: darwin\n";
    let diagnostic = lint_error_to_diagnostic(&error, source);

    assert_eq!(diagnostic.severity, Some(DiagnosticSeverity::Error));
    assert_eq!(diagnostic.source, Some("fleet-lint".to_string()));
    assert!(diagnostic.message.contains("Missing required field"));
    assert!(diagnostic.message.contains("Help:"));
    assert!(diagnostic.data.is_some());

    assert_eq!(diagnostic.code, Some("required-fields".to_string()));
    assert!(diagnostic.code_description.is_some());
    assert!(diagnostic
        .code_link
        .as_deref()
        .unwrap()
        .contains("fleetdm.com/docs/configuration/yaml-files"));
    let desc = diagnostic.code_description.unwrap();
    assert!(desc
        .as_str()
        .contains("fleetdm.com/docs/configuration/yaml-files"));
}

fn finding(line: Option<usize>, column: Option<usize>, context: Option<&str>) -> LintError {
    LintError {
        severity: Severity::Warning,
        message: "Key 'queries' is deprecated".to_string(),
        file: "a.yml".to_string(),
        line,
        column,
        context: context.map(|c| c.to_string()),
        help: None,
        suggestion: None,
        rule_code: None,
        fix_safety: None,
    }
}

#[test]
fn diagnostic_ranges_follow_location() {
    let source = "name: x\nqueries:\n  - q\n";
    let d = lint_error_to_diagnostic(&finding(Some(2), Some(1), Some("queries")), source);
    assert_eq!(d.range.start, Position { line: 1, character: 0 });
    assert_eq!(d.range.end, Position { line: 1, character: 7 });
    assert_eq!(d.severity, Some(DiagnosticSeverity::Warning));
    assert!(d.deprecated);
    assert_eq!(d.message, "Key 'queries' is deprecated");
    assert!(d.code.is_none() && d.code_description.is_none() && d.data.is_none());

    // A line without a column spans the whole line.
    let d = lint_error_to_diagnostic(&finding(Some(2), None, None), source);
    assert_eq!(d.range.start, Position { line: 1, character: 0 });
    assert_eq!(d.range.end, Position { line: 1, character: 8 });
}

#[test]
fn gitops_errors_sit_at_document_start() {
    let e = GitOpsError {
        message: "Error: unknown team".to_string(),
        hint: Some("Create the team first".to_string()),
        noise: false,
    };
    let d = gitops_error_to_diagnostic(&e);
    assert_eq!(d.message, "Error: unknown team\n\n→ Create the team first");
    assert_eq!(d.source, Some("fleet-gitops".to_string()));
    assert_eq!(d.range.start, Position { line: 0, character: 0 });
    assert_eq!(d.severity, Some(DiagnosticSeverity::Error));
}
