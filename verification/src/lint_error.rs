//! Lint findings: severity, message, location and help.
use vstd::prelude::*;

use crate::text::{opt_view, string_of, to_chars};

verus! {

/// How serious a finding is.
#[derive(Debug, Clone, Copy, PartialEq, Eq, Structural)]
pub enum Severity {
    Error,
    Warning,
    Info,
}

/// Whether an automatic fix keeps the meaning of the file.
#[derive(Debug, Clone, Copy, PartialEq, Eq, Structural)]
pub enum FixSafety {
    Safe,
    Unsafe,
}

/// One finding of a lint rule.
#[derive(Debug, Clone)]
pub struct LintError {
    pub severity: Severity,
    pub message: String,
    pub file: String,
    /// 1-based line.
    pub line: Option<usize>,
    /// 1-based column.
    pub column: Option<usize>,
    /// The text the finding is about.
    pub context: Option<String>,
    pub help: Option<String>,
    /// Replacement text offered as a fix.
    pub suggestion: Option<String>,
    pub rule_code: Option<String>,
    pub fix_safety: Option<FixSafety>,
}

/// What a [`LintError`] holds.
pub struct LintErrorView {
    pub severity: Severity,
    pub message: Seq<char>,
    pub file: Seq<char>,
    pub line: Option<usize>,
    pub column: Option<usize>,
    pub context: Option<Seq<char>>,
    pub help: Option<Seq<char>>,
    pub suggestion: Option<Seq<char>>,
    pub rule_code: Option<Seq<char>>,
    pub fix_safety: Option<FixSafety>,
}

impl View for LintError {
    type V = LintErrorView;

    open spec fn view(&self) -> LintErrorView {
        LintErrorView {
            severity: self.severity,
            message: self.message@,
            file: self.file@,
            line: self.line,
            column: self.column,
            context: opt_view(self.context),
            help: opt_view(self.help),
            suggestion: opt_view(self.suggestion),
            rule_code: opt_view(self.rule_code),
            fix_safety: self.fix_safety,
        }
    }
}

pub open spec fn lint_error_views(v: Seq<LintError>) -> Seq<LintErrorView> {
    v.map_values(|e: LintError| e@)
}

/// A warning with only a message and a file.
pub open spec fn warning_spec(message: Seq<char>, file: Seq<char>) -> LintErrorView {
    LintErrorView {
        severity: Severity::Warning,
        message,
        file,
        line: None,
        column: None,
        context: None,
        help: None,
        suggestion: None,
        rule_code: None,
        fix_safety: None,
    }
}

impl LintError {
    /// A warning about `file`.
    pub fn warning(message: &str, file: &str) -> (e: LintError)
        ensures
            e@ == warning_spec(message@, file@),
    {
        LintError {
            severity: Severity::Warning,
            message: string_of(&to_chars(message)),
            file: string_of(&to_chars(file)),
            line: None,
            column: None,
            context: None,
            help: None,
            suggestion: None,
            rule_code: None,
            fix_safety: None,
        }
    }

    /// The same finding about `context`.
    pub fn with_context(self, context: String) -> (e: LintError)
        ensures
            e@ == (LintErrorView { context: Some(context@), ..self@ }),
    {
        LintError { context: Some(context), ..self }
    }

    /// The same finding with help text.
    pub fn with_help(self, help: &str) -> (e: LintError)
        ensures
            e@ == (LintErrorView { help: Some(help@), ..self@ }),
    {
        LintError { help: Some(string_of(&to_chars(help))), ..self }
    }

    /// The same finding at 1-based `line` and `column`.
    pub fn with_location(self, line: usize, column: usize) -> (e: LintError)
        ensures
            e@ == (LintErrorView { line: Some(line), column: Some(column), ..self@ }),
    {
        LintError { line: Some(line), column: Some(column), ..self }
    }
}

} // verus!
