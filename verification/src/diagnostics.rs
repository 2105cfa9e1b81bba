//! Conversion from lint findings and GitOps dry-run errors to editor diagnostics.
use vstd::prelude::*;

use crate::fleet::GitOpsError;
use crate::lint_error::{LintError, Severity};
use crate::lsp::{
    line_range, parse_url, parsed_url, Diagnostic, DiagnosticData, DiagnosticSeverity,
    DiagnosticView, Position, Range,
};
use crate::text::{
    contains_str, has_substr, lines_of, lines_spec, opt_view, push_str, string_of, to_chars,
};

verus! {

/// The anchor of the Fleet documentation page section for a rule code.
pub open spec fn anchor_for_code(code: Seq<char>) -> Option<Seq<char>> {
    if code == "required-fields"@ {
        Some("gitops"@)
    } else if code == "basic-validation"@ || code == "platform-compatibility"@ {
        Some("policies"@)
    } else if code == "query-syntax"@ {
        Some("reports"@)
    } else if code == "structural"@ || code == "structural-validation"@ || code
        == "misplaced-key"@ {
        Some("gitops"@)
    } else if code == "deprecation"@ || code == "deprecated-keys"@ {
        Some("gitops"@)
    } else if code == "duplicate-names"@ {
        Some("gitops"@)
    } else if code == "interval-validation"@ {
        Some("reports"@)
    } else if code == "security"@ {
        Some("policies"@)
    } else if code == "self-reference"@ {
        Some("gitops"@)
    } else if code == "label-targeting"@ {
        Some("policies"@)
    } else if code == "label-membership"@ {
        Some("labels"@)
    } else if code == "date-format"@ {
        Some("macos_updates"@)
    } else if code == "hash-format"@ {
        Some("packages"@)
    } else if code == "categories"@ {
        Some("self_service-labels-categories-and-setup_experience"@)
    } else if code == "file-extension"@ {
        Some("controls"@)
    } else if code == "secret-hygiene"@ {
        Some("policies"@)
    } else if code == "type-validation"@ {
        Some("policies"@)
    } else if code == "yaml-syntax"@ || code == "yaml-tabs"@ || code == "yaml-duplicate-key"@ {
        Some("gitops"@)
    } else {
        None
    }
}

/// The documentation link for a rule code.
pub open spec fn doc_link_spec(code: Seq<char>) -> Option<Seq<char>> {
    match anchor_for_code(code) {
        Some(a) => Some("https://fleetdm.com/docs/configuration/yaml-files#"@ + a),
        None => None,
    }
}

fn anchor_of(code: &str) -> (r: Option<&'static str>)
    ensures
        match r {
            Some(a) => anchor_for_code(code@) == Some(a@),
            None => anchor_for_code(code@) is None,
        },
{
    let c = to_chars(code);
    let eq = |s: &str| -> (b: bool)
        ensures
            b == (c@ == s@),
        { crate::text::eq_str(&c, s) };
    if eq("required-fields") {
        Some("gitops")
    } else if eq("basic-validation") || eq("platform-compatibility") {
        Some("policies")
    } else if eq("query-syntax") {
        Some("reports")
    } else if eq("structural") || eq("structural-validation") || eq("misplaced-key") {
        Some("gitops")
    } else if eq("deprecation") || eq("deprecated-keys") {
        Some("gitops")
    } else if eq("duplicate-names") {
        Some("gitops")
    } else if eq("interval-validation") {
        Some("reports")
    } else if eq("security") {
        Some("policies")
    } else if eq("self-reference") {
        Some("gitops")
    } else if eq("label-targeting") {
        Some("policies")
    } else if eq("label-membership") {
        Some("labels")
    } else if eq("date-format") {
        Some("macos_updates")
    } else if eq("hash-format") {
        Some("packages")
    } else if eq("categories") {
        Some("self_service-labels-categories-and-setup_experience")
    } else if eq("file-extension") {
        Some("controls")
    } else if eq("secret-hygiene") {
        Some("policies")
    } else if eq("type-validation") {
        Some("policies")
    } else if eq("yaml-syntax") || eq("yaml-tabs") || eq("yaml-duplicate-key") {
        Some("gitops")
    } else {
        None
    }
}

/// The documentation link for a rule code, as text.
pub fn doc_link_for_code(code: &str) -> (r: Option<String>)
    ensures
        opt_view(r) == doc_link_spec(code@),
{
    match anchor_of(code) {
        Some(anchor) => {
            let mut s = String::new();
            push_str(&mut s, "https://fleetdm.com/docs/configuration/yaml-files#");
            push_str(&mut s, anchor);
            Some(s)
        },
        None => None,
    }
}

/// The documentation URL of a rule code: the parse of its link text.
pub open spec fn doc_url_spec(code: Seq<char>) -> Option<tower_lsp::lsp_types::Url> {
    match doc_link_spec(code) {
        Some(link) => parsed_url(link),
        None => None,
    }
}

/// Map a rule code to its Fleet documentation URL.
pub fn doc_url_for_code(code: &str) -> (r: Option<tower_lsp::lsp_types::Url>)
    ensures
        r == doc_url_spec(code@),
{
    match doc_link_for_code(code) {
        Some(link) => parse_url(link.as_str()),
        None => None,
    }
}

/// The message of a finding followed by its help text.
pub open spec fn format_message_spec(message: Seq<char>, help: Option<Seq<char>>) -> Seq<char> {
    match help {
        Some(h) => message + "\n\nHelp: "@ + h,
        None => message,
    }
}

/// Format the diagnostic message with help text.
pub fn format_message(error: &LintError) -> (r: String)
    ensures
        r@ == format_message_spec(error.message@, opt_view(error.help)),
{
    let mut msg = string_of(&to_chars(error.message.as_str()));
    if let Some(help) = &error.help {
        push_str(&mut msg, "\n\nHelp: ");
        push_str(&mut msg, help.as_str());
    }
    msg
}

/// The protocol position of a 1-based line and column (0-based; values
/// beyond `u32::MAX` are clamped).
pub open spec fn lsp_position_spec(line: usize, col: usize) -> Position {
    Position {
        line: if line == 0 {
            0
        } else if line - 1 > u32::MAX {
            u32::MAX
        } else {
            (line - 1) as u32
        },
        character: if col == 0 {
            0
        } else if col - 1 > u32::MAX {
            u32::MAX
        } else {
            (col - 1) as u32
        },
    }
}

fn clamp_u32(x: usize) -> (r: u32)
    ensures
        r == if x > u32::MAX {
            u32::MAX
        } else {
            x as u32
        },
{
    if x > u32::MAX as usize {
        u32::MAX
    } else {
        x as u32
    }
}

/// The protocol position of a 1-based line and column.
pub fn to_lsp_position(line: usize, col: usize, source: &str) -> (p: Position)
    ensures
        p == lsp_position_spec(line, col),
{
    Position {
        line: clamp_u32(if line == 0 { 0 } else { line - 1 }),
        character: clamp_u32(if col == 0 { 0 } else { col - 1 }),
    }
}

/// The number of bytes of `s` (`str::len`).
pub open spec fn str_len(s: Seq<char>) -> int {
    vstd::utf8::encode_utf8(s).len() as usize as int
}

/// The range a finding covers: from its position for the length of its
/// context (one character without one), its whole line when it has no
/// column, and the start of the document when it has no line.
pub open spec fn error_range_spec(
    line: Option<usize>,
    column: Option<usize>,
    context: Option<Seq<char>>,
    source: Seq<char>,
) -> Range {
    match (line, column) {
        (Some(l), Some(c)) => {
            let width = match context {
                Some(t) => str_len(t),
                None => 1,
            };
            Range {
                start: lsp_position_spec(l, c),
                end: lsp_position_spec(l, (c + width) as usize),
            }
        },
        (Some(l), None) => {
            let idx = if l == 0 {
                0
            } else {
                l - 1
            };
            let content = if idx < lines_spec(source).len() {
                lines_spec(source)[idx as int]
            } else {
                seq![]
            };
            Range {
                start: Position { line: idx as u32, character: 0 },
                end: Position { line: idx as u32, character: str_len(content) as u32 },
            }
        },
        _ => crate::lsp::line_range_spec(0, 0, 0),
    }
}

/// The requirement that a finding's end column fits in a `usize`.
pub open spec fn error_end_fits(line: Option<usize>, column: Option<usize>, context: Option<Seq<char>>) -> bool {
    match (line, column) {
        (Some(_), Some(c)) => c + match context {
            Some(t) => str_len(t),
            None => 1,
        } <= usize::MAX,
        _ => true,
    }
}

/// Convert error location to an editor range.
pub fn error_to_range(error: &LintError, source: &str) -> (r: Range)
    requires
        error_end_fits(error.line, error.column, opt_view(error.context)),
    ensures
        r == error_range_spec(error.line, error.column, opt_view(error.context), source@),
{
    match (error.line, error.column) {
        (Some(line), Some(col)) => {
            let start = to_lsp_position(line, col, source);
            let width = match &error.context {
                Some(c) => c.as_str().len(),
                None => 1,
            };
            let end = to_lsp_position(line, col + width, source);
            Range { start, end }
        },
        (Some(line), None) => {
            let idx = if line == 0 {
                0
            } else {
                line - 1
            };
            let chars = to_chars(source);
            let lines = lines_of(&chars);
            let content = if idx < lines.len() {
                assert(lines@[idx as int]@ == lines_spec(source@)[idx as int]);
                string_of(&lines[idx])
            } else {
                String::new()
            };
            let len = content.as_str().len();
            Range {
                start: Position { line: idx as u32, character: 0 },
                end: Position { line: idx as u32, character: len as u32 },
            }
        },
        _ => line_range(0, 0, 0),
    }
}

/// The editor severity of a finding's severity.
pub open spec fn severity_spec(s: Severity) -> DiagnosticSeverity {
    match s {
        Severity::Error => DiagnosticSeverity::Error,
        Severity::Warning => DiagnosticSeverity::Warning,
        Severity::Info => DiagnosticSeverity::Information,
    }
}

/// A finding is shown at its own level: an error as an error, a warning as a
/// warning and an informational finding as information, never as a warning
/// or an error. Distinct levels stay distinct in the editor.
pub proof fn lemma_severity_levels(a: Severity, b: Severity)
    ensures
        severity_spec(Severity::Error) == DiagnosticSeverity::Error,
        severity_spec(Severity::Warning) == DiagnosticSeverity::Warning,
        severity_spec(Severity::Info) == DiagnosticSeverity::Information,
        severity_spec(Severity::Info) != DiagnosticSeverity::Warning,
        severity_spec(Severity::Info) != DiagnosticSeverity::Error,
        severity_spec(a) == severity_spec(b) ==> a == b,
        severity_spec(a) != DiagnosticSeverity::Hint,
{
}

/// Whether a finding is about a deprecation (shown struck through).
pub open spec fn is_deprecation_message(m: Seq<char>) -> bool {
    has_substr(m, "deprecated"@) || has_substr(m, "was removed"@)
}

fn copy_opt(o: &Option<String>) -> (r: Option<String>)
    ensures
        opt_view(r) == opt_view(*o),
{
    match o {
        Some(s) => Some(string_of(&to_chars(s.as_str()))),
        None => None,
    }
}

/// Convert a finding to a diagnostic: its range, severity, message with help,
/// rule code and documentation link, deprecation tag, and suggestion data.
pub fn lint_error_to_diagnostic(error: &LintError, source: &str) -> (d: Diagnostic)
    requires
        error_end_fits(error.line, error.column, opt_view(error.context)),
    ensures
        d.range == error_range_spec(error.line, error.column, opt_view(error.context), source@),
        d.severity == Some(severity_spec(error.severity)),
        d.message@ == format_message_spec(error.message@, opt_view(error.help)),
        opt_view(d.source) == Some("fleet-lint"@),
        opt_view(d.code) == opt_view(error.rule_code),
        opt_view(d.code_link) == match error.rule_code {
            Some(c) => doc_link_spec(c@),
            None => None,
        },
        d.code_description == match error.rule_code {
            Some(c) => doc_url_spec(c@),
            None => None,
        },
        d.deprecated == is_deprecation_message(error.message@),
        match error.suggestion {
            Some(s) => d.data matches Some(data) && data.suggestion@ == s@ && opt_view(data.help)
                == opt_view(error.help),
            None => d.data is None,
        },
{
    let range = error_to_range(error, source);
    let severity = match error.severity {
        Severity::Error => DiagnosticSeverity::Error,
        Severity::Warning => DiagnosticSeverity::Warning,
        Severity::Info => DiagnosticSeverity::Information,
    };
    let message = format_message(error);
    let data = match &error.suggestion {
        Some(s) => Some(
            DiagnosticData {
                suggestion: string_of(&to_chars(s.as_str())),
                help: copy_opt(&error.help),
            },
        ),
        None => None,
    };
    let m = to_chars(error.message.as_str());
    let deprecated = contains_str(&m, "deprecated") || contains_str(&m, "was removed");
    let code = copy_opt(&error.rule_code);
    let code_link = match &error.rule_code {
        Some(c) => doc_link_for_code(c.as_str()),
        None => None,
    };
    let code_description = match &code_link {
        Some(link) => parse_url(link.as_str()),
        None => None,
    };
    Diagnostic {
        range,
        severity: Some(severity),
        code,
        code_description,
        code_link,
        source: Some(string_of(&to_chars("fleet-lint"))),
        message,
        deprecated,
        data,
    }
}

/// The message of a GitOps dry-run error followed by its hint.
pub open spec fn gitops_message_spec(message: Seq<char>, hint: Option<Seq<char>>) -> Seq<char> {
    match hint {
        Some(h) => message + "\n\n→ "@ + h,
        None => message,
    }
}

/// Convert a GitOps dry-run error to a diagnostic. These errors come from the
/// server and are not tied to a line, so they sit at the start of the document.
pub fn gitops_error_to_diagnostic(error: &GitOpsError) -> (d: Diagnostic)
    ensures
        d@ == (DiagnosticView {
            range: crate::lsp::line_range_spec(0, 0, 0),
            severity: Some(DiagnosticSeverity::Error),
            code: None,
            code_description: None,
            code_link: None,
            source: Some("fleet-gitops"@),
            message: gitops_message_spec(error.message@, opt_view(error.hint)),
            deprecated: false,
            data: None,
        }),
{
    let mut message = string_of(&to_chars(error.message.as_str()));
    if let Some(hint) = &error.hint {
        push_str(&mut message, "\n\n→ ");
        push_str(&mut message, hint.as_str());
    }
    Diagnostic {
        range: line_range(0, 0, 0),
        severity: Some(DiagnosticSeverity::Error),
        code: None,
        code_description: None,
        code_link: None,
        source: Some(string_of(&to_chars("fleet-gitops"))),
        message,
        deprecated: false,
        data: None,
    }
}

} // verus!
