//! Editor-facing values: positions, ranges, diagnostics, hovers and links,
//! as plain data that the language server hands to the protocol layer.
use vstd::prelude::*;

use crate::text::{opt_view, string_of, to_chars};

verus! {

/// A zero-based line and character offset in a document.
#[derive(Debug, Clone, Copy, PartialEq, Eq, Structural)]
pub struct Position {
    pub line: u32,
    pub character: u32,
}

/// A span between two positions.
#[derive(Debug, Clone, Copy, PartialEq, Eq, Structural)]
pub struct Range {
    pub start: Position,
    pub end: Position,
}

/// How serious a diagnostic is.
#[derive(Debug, Clone, Copy, PartialEq, Eq, Structural)]
pub enum DiagnosticSeverity {
    Error,
    Warning,
    Information,
    Hint,
}

/// The `Url` type of the protocol layer.
#[verifier::external_type_specification]
#[verifier::external_body]
pub struct ExUrl(tower_lsp::lsp_types::Url);

/// Data attached to a diagnostic for code actions.
#[derive(Debug, Clone)]
pub struct DiagnosticData {
    pub suggestion: String,
    pub help: Option<String>,
}

/// A diagnostic shown in the editor.
#[derive(Debug)]
pub struct Diagnostic {
    pub range: Range,
    pub severity: Option<DiagnosticSeverity>,
    /// The rule code.
    pub code: Option<String>,
    /// Link to the documentation of the rule.
    pub code_description: Option<tower_lsp::lsp_types::Url>,
    /// The text of that link.
    pub code_link: Option<String>,
    /// Which tool produced the diagnostic.
    pub source: Option<String>,
    pub message: String,
    /// Tagged as deprecated (shown struck through).
    pub deprecated: bool,
    pub data: Option<DiagnosticData>,
}

/// Markdown documentation for a span of a document.
#[derive(Debug, Clone)]
pub struct Hover {
    /// Markdown text.
    pub contents: String,
    pub range: Option<Range>,
}

/// What a [`Diagnostic`] holds.
pub struct DiagnosticView {
    pub range: Range,
    pub severity: Option<DiagnosticSeverity>,
    pub code: Option<Seq<char>>,
    pub code_description: Option<tower_lsp::lsp_types::Url>,
    pub code_link: Option<Seq<char>>,
    pub source: Option<Seq<char>>,
    pub message: Seq<char>,
    pub deprecated: bool,
    /// Suggestion and help.
    pub data: Option<(Seq<char>, Option<Seq<char>>)>,
}

impl View for Diagnostic {
    type V = DiagnosticView;

    open spec fn view(&self) -> DiagnosticView {
        DiagnosticView {
            range: self.range,
            severity: self.severity,
            code: opt_view(self.code),
            code_description: self.code_description,
            code_link: opt_view(self.code_link),
            source: opt_view(self.source),
            message: self.message@,
            deprecated: self.deprecated,
            data: match self.data {
                Some(d) => Some((d.suggestion@, opt_view(d.help))),
                None => None,
            },
        }
    }
}

pub open spec fn diagnostic_views(v: Seq<Diagnostic>) -> Seq<DiagnosticView> {
    v.map_values(|d: Diagnostic| d@)
}

/// An error from this linter at `range`, with only a message.
pub open spec fn lint_error_at(range: Range, message: Seq<char>) -> DiagnosticView {
    DiagnosticView {
        range,
        severity: Some(DiagnosticSeverity::Error),
        code: None,
        code_description: None,
        code_link: None,
        source: Some("fleet-lint"@),
        message,
        deprecated: false,
        data: None,
    }
}

/// An error from this linter at `range`, with only a message.
pub fn lint_error_diagnostic(range: Range, message: &Vec<char>) -> (d: Diagnostic)
    ensures
        d@ == lint_error_at(range, message@),
{
    Diagnostic {
        range,
        severity: Some(DiagnosticSeverity::Error),
        code: None,
        code_description: None,
        code_link: None,
        source: Some(string_of(&to_chars("fleet-lint"))),
        message: string_of(message),
        deprecated: false,
        data: None,
    }
}

/// A place in another document.
#[derive(Debug)]
pub struct Location {
    pub uri: tower_lsp::lsp_types::Url,
    pub range: Range,
}

/// A clickable span that opens another document.
#[derive(Debug)]
pub struct DocumentLink {
    pub range: Range,
    pub target: tower_lsp::lsp_types::Url,
    pub tooltip: String,
}

/// What `Url::from_file_path` returns for the path written `p`.
pub uninterp spec fn file_url_of(p: Seq<char>) -> Option<tower_lsp::lsp_types::Url>;

/// The `file:` URL of an absolute path (`Url::from_file_path`): a function of
/// the path, which on Unix exists exactly when the path is absolute.
#[verifier::external_body]
pub(crate) fn file_url(path: &Vec<char>) -> (r: Option<tower_lsp::lsp_types::Url>)
    ensures
        r == file_url_of(path@),
        r is Some <==> crate::paths::has_root(path@),
{
    let s: String = path.iter().collect();
    tower_lsp::lsp_types::Url::from_file_path(s).ok()
}

/// What `Url::parse` returns for `s` (`None` when it fails).
pub uninterp spec fn parsed_url(s: Seq<char>) -> Option<tower_lsp::lsp_types::Url>;

/// `Url::parse`: the absolute URL written `s`, if it is one; a function of
/// `s` alone.
#[verifier::external_body]
pub(crate) fn parse_url(s: &str) -> (r: Option<tower_lsp::lsp_types::Url>)
    ensures
        r == parsed_url(s@),
{
    tower_lsp::lsp_types::Url::parse(s).ok()
}

/// The range on one line from `start` to `end`.
pub open spec fn line_range_spec(line: u32, start: u32, end: u32) -> Range {
    Range {
        start: Position { line, character: start },
        end: Position { line, character: end },
    }
}

pub fn line_range(line: u32, start: u32, end: u32) -> (r: Range)
    ensures
        r == line_range_spec(line, start, end),
{
    Range { start: Position { line, character: start }, end: Position { line, character: end } }
}

} // verus!
