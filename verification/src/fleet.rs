//! Reading what `fleetctl` prints: GitOps dry-run reports, resource names,
//! and the shape of GitOps root files.
use vstd::prelude::*;

use crate::text::{
    contains_str, decimal, decimal_chars, has_prefix, has_substr, join_chars, join_spec,
    lines_of, lines_spec, opt_view, lowercase, ascii_lower, is_ascii_text, lemma_ascii_lower_idempotent, lowercase_chars, push_chars, push_str, slice_of,
    starts_with, starts_with_str, string_of, strip_both, strip_both_chars, to_chars,
    to_lowercase, trim, trim_chars, views,
};

verus! {

// ---------------------------------------------------------------------------
// Hints and known false positives
// ---------------------------------------------------------------------------

pub const HINT_FORBIDDEN: &'static str = "The API token lacks permission for this operation. Check that the token has the correct role (GitOps or Admin) and hasn't expired.";

pub const HINT_UNAUTHORIZED: &'static str = "Authentication failed. The API token may be invalid or expired. Regenerate it in Fleet → Settings → API tokens.";

pub const HINT_UNREACHABLE: &'static str = "Cannot reach the Fleet server. Check the URL in [fleet] and that the server is running.";

pub const HINT_TLS: &'static str = "TLS/certificate error. If using a self-signed cert, set `tls-skip-verify: true` in fleetctl config.";

pub const HINT_TIMEOUT: &'static str = "Request timed out. The Fleet server may be overloaded or unreachable.";

pub const HINT_DUPLICATE: &'static str = "A resource with this name already exists. Rename it or remove the duplicate definition.";

pub const HINT_UNKNOWN_TEAM: &'static str = "This team doesn't exist on the Fleet server. Create it first or check the spelling.";

pub const HINT_YAML: &'static str = "The YAML couldn't be parsed by the Fleet server. Check for syntax errors or unsupported fields.";

pub const HINT_ENV_VAR: &'static str = "A referenced environment variable is not set. Add it to [fleet.env] in .fleetlint.toml.";

/// The actionable hint for an error message whose lowercase form is `lower`.
pub open spec fn hint_spec(lower: Seq<char>) -> Option<Seq<char>> {
    if has_substr(lower, "403"@) || has_substr(lower, "forbidden"@) {
        Some(HINT_FORBIDDEN@)
    } else if has_substr(lower, "401"@) || has_substr(lower, "unauthorized"@) {
        Some(HINT_UNAUTHORIZED@)
    } else if has_substr(lower, "connection refused"@) || has_substr(lower, "no such host"@) {
        Some(HINT_UNREACHABLE@)
    } else if has_substr(lower, "tls"@) || has_substr(lower, "certificate"@) {
        Some(HINT_TLS@)
    } else if has_substr(lower, "timeout"@) {
        Some(HINT_TIMEOUT@)
    } else if has_substr(lower, "duplicate"@) {
        Some(HINT_DUPLICATE@)
    } else if has_substr(lower, "unknown team"@) || has_substr(lower, "team not found"@) {
        Some(HINT_UNKNOWN_TEAM@)
    } else if has_substr(lower, "yaml"@) && (has_substr(lower, "unmarshal"@) || has_substr(
        lower,
        "parse"@,
    )) {
        Some(HINT_YAML@)
    } else if has_substr(lower, "environment variable"@) || has_substr(lower, "env var"@) {
        Some(HINT_ENV_VAR@)
    } else {
        None
    }
}

/// Whether an error message whose lowercase form is `lower` is a known
/// `fleetctl` false positive.
pub open spec fn noise_spec(lower: Seq<char>) -> bool {
    ||| (has_substr(lower, "eula"@) && (has_substr(lower, "403"@) || has_substr(lower, "404"@)))
    ||| (has_substr(lower, "setup_experience"@) && has_substr(lower, "403"@))
}

fn some_string(s: &str) -> (r: Option<String>)
    ensures
        opt_view(r) == Some(s@),
{
    Some(String::from_str(s))
}

/// The hint for an error message already mapped to lowercase.
pub fn hint_for_lowercase(lower: &Vec<char>) -> (r: Option<String>)
    ensures
        opt_view(r) == hint_spec(lower@),
{
    if contains_str(lower, "403") || contains_str(lower, "forbidden") {
        some_string(HINT_FORBIDDEN)
    } else if contains_str(lower, "401") || contains_str(lower, "unauthorized") {
        some_string(HINT_UNAUTHORIZED)
    } else if contains_str(lower, "connection refused") || contains_str(lower, "no such host") {
        some_string(HINT_UNREACHABLE)
    } else if contains_str(lower, "tls") || contains_str(lower, "certificate") {
        some_string(HINT_TLS)
    } else if contains_str(lower, "timeout") {
        some_string(HINT_TIMEOUT)
    } else if contains_str(lower, "duplicate") {
        some_string(HINT_DUPLICATE)
    } else if contains_str(lower, "unknown team") || contains_str(lower, "team not found") {
        some_string(HINT_UNKNOWN_TEAM)
    } else if contains_str(lower, "yaml") && (contains_str(lower, "unmarshal") || contains_str(
        lower,
        "parse",
    )) {
        some_string(HINT_YAML)
    } else if contains_str(lower, "environment variable") || contains_str(lower, "env var") {
        some_string(HINT_ENV_VAR)
    } else {
        None
    }
}

/// Whether a message already mapped to lowercase is a known false positive.
pub fn noise_for_lowercase(lower: &Vec<char>) -> (r: bool)
    ensures
        r == noise_spec(lower@),
{
    (contains_str(lower, "eula") && (contains_str(lower, "403") || contains_str(lower, "404")))
        || (contains_str(lower, "setup_experience") && contains_str(lower, "403"))
}

/// Matches common `fleetctl` error patterns and returns an actionable hint.
pub fn hint_for_error(message: &str) -> (r: Option<String>)
    ensures
        opt_view(r) == hint_spec(lowercase(message@)),
        is_ascii_text(message@) ==> opt_view(r) == hint_spec(ascii_lower(message@)),
{
    let lower = to_chars(to_lowercase(message).as_str());
    hint_for_lowercase(&lower)
}

/// Whether `message` is a known `fleetctl` false positive (not a config error).
pub fn is_noise(message: &str) -> (r: bool)
    ensures
        r == noise_spec(lowercase(message@)),
        is_ascii_text(message@) ==> r == noise_spec(ascii_lower(message@)),
{
    let lower = to_chars(to_lowercase(message).as_str());
    noise_for_lowercase(&lower)
}

/// On ASCII text, the hint of a message is the hint of its lowercase form:
/// the lowercase form is ASCII again, and lowercasing it changes nothing.
pub proof fn lemma_hint_of_lowercase(message: Seq<char>)
    requires
        is_ascii_text(message),
    ensures
        is_ascii_text(ascii_lower(message)),
        hint_spec(ascii_lower(ascii_lower(message))) == hint_spec(ascii_lower(message)),
        noise_spec(ascii_lower(ascii_lower(message))) == noise_spec(ascii_lower(message)),
{
    lemma_ascii_lower_idempotent(message);
}

/// Each error pattern of a lowercased message, tried in order, picks its
/// hint: the first pattern the message contains decides. A message that
/// contains none of them gets no hint, and one that contains any of them
/// gets one.
pub proof fn lemma_hint_patterns(l: Seq<char>)
    ensures
        has_substr(l, "403"@) || has_substr(l, "forbidden"@) ==> hint_spec(l) == Some(
            HINT_FORBIDDEN@,
        ),
        !has_substr(l, "403"@) && !has_substr(l, "forbidden"@) && (has_substr(l, "401"@)
            || has_substr(l, "unauthorized"@)) ==> hint_spec(l) == Some(HINT_UNAUTHORIZED@),
        !has_substr(l, "403"@) && !has_substr(l, "forbidden"@) && !has_substr(l, "401"@)
            && !has_substr(l, "unauthorized"@) && (has_substr(l, "connection refused"@)
            || has_substr(l, "no such host"@)) ==> hint_spec(l) == Some(HINT_UNREACHABLE@),
        !has_substr(l, "403"@) && !has_substr(l, "forbidden"@) && !has_substr(l, "401"@)
            && !has_substr(l, "unauthorized"@) && !has_substr(l, "connection refused"@)
            && !has_substr(l, "no such host"@) && (has_substr(l, "tls"@) || has_substr(
            l,
            "certificate"@,
        )) ==> hint_spec(l) == Some(HINT_TLS@),
        !has_substr(l, "403"@) && !has_substr(l, "forbidden"@) && !has_substr(l, "401"@)
            && !has_substr(l, "unauthorized"@) && !has_substr(l, "connection refused"@)
            && !has_substr(l, "no such host"@) && !has_substr(l, "tls"@) && !has_substr(
            l,
            "certificate"@,
        ) && has_substr(l, "timeout"@) ==> hint_spec(l) == Some(HINT_TIMEOUT@),
        !has_substr(l, "403"@) && !has_substr(l, "forbidden"@) && !has_substr(l, "401"@)
            && !has_substr(l, "unauthorized"@) && !has_substr(l, "connection refused"@)
            && !has_substr(l, "no such host"@) && !has_substr(l, "tls"@) && !has_substr(
            l,
            "certificate"@,
        ) && !has_substr(l, "timeout"@) && has_substr(l, "duplicate"@) ==> hint_spec(l) == Some(
            HINT_DUPLICATE@,
        ),
        !has_substr(l, "403"@) && !has_substr(l, "forbidden"@) && !has_substr(l, "401"@)
            && !has_substr(l, "unauthorized"@) && !has_substr(l, "connection refused"@)
            && !has_substr(l, "no such host"@) && !has_substr(l, "tls"@) && !has_substr(
            l,
            "certificate"@,
        ) && !has_substr(l, "timeout"@) && !has_substr(l, "duplicate"@) && (has_substr(
            l,
            "unknown team"@,
        ) || has_substr(l, "team not found"@)) ==> hint_spec(l) == Some(HINT_UNKNOWN_TEAM@),
        !has_substr(l, "403"@) && !has_substr(l, "forbidden"@) && !has_substr(l, "401"@)
            && !has_substr(l, "unauthorized"@) && !has_substr(l, "connection refused"@)
            && !has_substr(l, "no such host"@) && !has_substr(l, "tls"@) && !has_substr(
            l,
            "certificate"@,
        ) && !has_substr(l, "timeout"@) && !has_substr(l, "duplicate"@) && !has_substr(
            l,
            "unknown team"@,
        ) && !has_substr(l, "team not found"@) && has_substr(l, "yaml"@) && (has_substr(
            l,
            "unmarshal"@,
        ) || has_substr(l, "parse"@)) ==> hint_spec(l) == Some(HINT_YAML@),
        !has_substr(l, "403"@) && !has_substr(l, "forbidden"@) && !has_substr(l, "401"@)
            && !has_substr(l, "unauthorized"@) && !has_substr(l, "connection refused"@)
            && !has_substr(l, "no such host"@) && !has_substr(l, "tls"@) && !has_substr(
            l,
            "certificate"@,
        ) && !has_substr(l, "timeout"@) && !has_substr(l, "duplicate"@) && !has_substr(
            l,
            "unknown team"@,
        ) && !has_substr(l, "team not found"@) && !(has_substr(l, "yaml"@) && (has_substr(
            l,
            "unmarshal"@,
        ) || has_substr(l, "parse"@))) && (has_substr(l, "environment variable"@)
            || has_substr(l, "env var"@)) ==> hint_spec(l) == Some(HINT_ENV_VAR@),
        hint_spec(l) is Some <==> (has_substr(l, "403"@) || has_substr(l, "forbidden"@)
            || has_substr(l, "401"@) || has_substr(l, "unauthorized"@) || has_substr(
            l,
            "connection refused"@,
        ) || has_substr(l, "no such host"@) || has_substr(l, "tls"@) || has_substr(
            l,
            "certificate"@,
        ) || has_substr(l, "timeout"@) || has_substr(l, "duplicate"@) || has_substr(
            l,
            "unknown team"@,
        ) || has_substr(l, "team not found"@) || (has_substr(l, "yaml"@) && (has_substr(
            l,
            "unmarshal"@,
        ) || has_substr(l, "parse"@))) || has_substr(l, "environment variable"@) || has_substr(
            l,
            "env var"@,
        )),
{
}

/// The known false positives of a lowercased message are exactly the EULA
/// requests refused with 403 or 404 and the setup experience requests
/// refused with 403.
pub proof fn lemma_noise_patterns(l: Seq<char>)
    ensures
        has_substr(l, "eula"@) && has_substr(l, "403"@) ==> noise_spec(l),
        has_substr(l, "eula"@) && has_substr(l, "404"@) ==> noise_spec(l),
        has_substr(l, "setup_experience"@) && has_substr(l, "403"@) ==> noise_spec(l),
        !has_substr(l, "eula"@) && !has_substr(l, "setup_experience"@) ==> !noise_spec(l),
        !has_substr(l, "403"@) && !has_substr(l, "404"@) ==> !noise_spec(l),
        has_substr(l, "setup_experience"@) && !has_substr(l, "eula"@) && !has_substr(l, "403"@)
            ==> !noise_spec(l),
{
}

// ---------------------------------------------------------------------------
// GitOps dry-run reports
// ---------------------------------------------------------------------------

/// A single error from gitops dry-run output.
#[derive(Debug, Clone)]
pub struct GitOpsError {
    pub message: String,
    /// Actionable hint explaining the likely cause and how to fix it.
    pub hint: Option<String>,
    /// Whether this is a known false-positive from fleetctl.
    pub noise: bool,
}

/// Result of a gitops dry-run validation.
#[derive(Debug)]
pub struct GitOpsReport {
    pub success: bool,
    pub errors: Vec<GitOpsError>,
    pub summary: String,
}

/// What a [`GitOpsError`] holds.
pub struct ErrorView {
    pub message: Seq<char>,
    pub hint: Option<Seq<char>>,
    pub noise: bool,
}

/// What a [`GitOpsReport`] holds.
pub struct ReportView {
    pub success: bool,
    pub errors: Seq<ErrorView>,
    pub summary: Seq<char>,
}

impl View for GitOpsError {
    type V = ErrorView;

    open spec fn view(&self) -> ErrorView {
        ErrorView { message: self.message@, hint: opt_view(self.hint), noise: self.noise }
    }
}

pub open spec fn error_views(v: Seq<GitOpsError>) -> Seq<ErrorView> {
    v.map_values(|e: GitOpsError| e@)
}

impl View for GitOpsReport {
    type V = ReportView;

    open spec fn view(&self) -> ReportView {
        ReportView { success: self.success, errors: error_views(self.errors@), summary: self.summary@ }
    }
}

impl Default for GitOpsReport {
    fn default() -> (r: Self)
        ensures
            !r.success,
            r.errors@.len() == 0,
            r.summary@.len() == 0,
    {
        GitOpsReport { success: false, errors: Vec::new(), summary: String::new() }
    }
}

/// The report entry for an error line (already trimmed).
pub open spec fn error_for(line: Seq<char>) -> ErrorView {
    ErrorView { message: line, hint: hint_spec(lowercase(line)), noise: noise_spec(lowercase(line)) }
}

/// A change summary line (`[+]`, `[-]` or `[~]`).
pub open spec fn is_change_line(l: Seq<char>) -> bool {
    has_prefix(l, "[+]"@) || has_prefix(l, "[-]"@) || has_prefix(l, "[~]"@)
}

/// An error line: mentions "error" in any case and is not a `[...]` summary line.
pub open spec fn is_error_line(l: Seq<char>) -> bool {
    has_substr(lowercase(l), "error"@) && !has_prefix(l, "["@)
}

/// Number of non-empty change lines among trimmed lines `ls`.
pub open spec fn count_changes(ls: Seq<Seq<char>>) -> nat
    decreases ls.len(),
{
    if ls.len() == 0 {
        0
    } else {
        count_changes(ls.drop_last()) + if ls.last().len() > 0 && is_change_line(ls.last()) {
            1nat
        } else {
            0nat
        }
    }
}

/// The errors reported by the non-empty error lines among trimmed lines `ls`.
pub open spec fn line_errors(ls: Seq<Seq<char>>) -> Seq<ErrorView>
    decreases ls.len(),
{
    if ls.len() == 0 {
        seq![]
    } else {
        let r = line_errors(ls.drop_last());
        if ls.last().len() > 0 && is_error_line(ls.last()) {
            r.push(error_for(ls.last()))
        } else {
            r
        }
    }
}

/// Number of known false positives among `es`.
pub open spec fn count_noise(es: Seq<ErrorView>) -> nat
    decreases es.len(),
{
    if es.len() == 0 {
        0
    } else {
        count_noise(es.drop_last()) + if es.last().noise {
            1nat
        } else {
            0nat
        }
    }
}

/// The trimmed lines of `output`.
pub open spec fn trimmed_lines(output: Seq<char>) -> Seq<Seq<char>> {
    lines_spec(output).map_values(|l: Seq<char>| trim(l))
}

/// The errors of a report: one per error line, or, when the run failed and no
/// line mentions an error, the whole (trimmed, non-empty) output.
pub open spec fn report_errors(output: Seq<char>, success: bool) -> Seq<ErrorView> {
    let e = line_errors(trimmed_lines(output));
    if !success && e.len() == 0 && trim(output).len() > 0 {
        seq![error_for(trim(output))]
    } else {
        e
    }
}

/// The report for `fleetctl gitops --dry-run` output and exit status.
pub open spec fn report_spec(output: Seq<char>, success: bool) -> ReportView {
    let errs = report_errors(output, success);
    let noise = count_noise(errs);
    let real_count = (errs.len() - noise) as nat;
    let changes = count_changes(trimmed_lines(output));
    let ok = success || (real_count == 0 && noise > 0);
    let summary = if ok && changes == 0 {
        if noise > 0 {
            "Passed ("@ + decimal(noise) + " known fleetctl issue(s) ignored)"@
        } else {
            "No changes detected"@
        }
    } else if ok {
        decimal(changes) + " change(s) would be applied"@
    } else {
        decimal(real_count) + " error(s)"@
    };
    ReportView { success: ok, errors: errs, summary }
}

proof fn lemma_count_noise_le(es: Seq<ErrorView>)
    ensures
        count_noise(es) <= es.len(),
    decreases es.len(),
{
    if es.len() > 0 {
        lemma_count_noise_le(es.drop_last());
    }
}

proof fn lemma_count_changes_le(ls: Seq<Seq<char>>)
    ensures
        count_changes(ls) <= ls.len(),
    decreases ls.len(),
{
    if ls.len() > 0 {
        lemma_count_changes_le(ls.drop_last());
    }
}

fn make_error(line: &Vec<char>) -> (e: GitOpsError)
    ensures
        e@ == error_for(line@),
{
    let lower = lowercase_chars(line);
    GitOpsError {
        noise: noise_for_lowercase(&lower),
        hint: hint_for_lowercase(&lower),
        message: string_of(line),
    }
}

impl GitOpsReport {
    /// Parses fleetctl gitops output into a report.
    pub fn from_output(output: &str, success: bool) -> (r: Self)
        ensures
            r@ == report_spec(output@, success),
    {
        let chars = to_chars(output);
        let lines = lines_of(&chars);
        let ghost ls = trimmed_lines(output@);
        let mut errors: Vec<GitOpsError> = Vec::new();
        let mut changes: usize = 0;
        let mut i: usize = 0;
        while i < lines.len()
            invariant
                i <= lines.len(),
                views(lines@) == lines_spec(output@),
                ls == trimmed_lines(output@),
                ls.len() == lines.len(),
                changes == count_changes(ls.take(i as int)),
                error_views(errors@) == line_errors(ls.take(i as int)),
            decreases lines.len() - i,
        {
            proof {
                assert(ls.take(i + 1).drop_last() =~= ls.take(i as int));
                assert(ls[i as int] == trim(lines@[i as int]@));
                lemma_count_changes_le(ls.take(i as int));
            }
            let t = trim_chars(&lines[i]);
            if t.len() > 0 {
                if starts_with_str(&t, "[+]") || starts_with_str(&t, "[-]") || starts_with_str(
                    &t,
                    "[~]",
                ) {
                    changes = changes + 1;
                }
                let lower = lowercase_chars(&t);
                if contains_str(&lower, "error") && !starts_with_str(&t, "[") {
                    let e = make_error(&t);
                    let ghost before = errors@;
                    errors.push(e);
                    assert(error_views(errors@) =~= error_views(before).push(e@));
                }
            }
            i += 1;
        }
        assert(ls.take(lines.len() as int) =~= ls);
        if !success && errors.len() == 0 {
            let t = trim_chars(&chars);
            if t.len() > 0 {
                let e = make_error(&t);
                errors.push(e);
                assert(error_views(errors@) =~= seq![e@]);
            }
        }
        let ghost errs = error_views(errors@);
        assert(errs == report_errors(output@, success));
        let mut noise: usize = 0;
        let mut k: usize = 0;
        while k < errors.len()
            invariant
                k <= errors.len(),
                errs == error_views(errors@),
                noise == count_noise(errs.take(k as int)),
            decreases errors.len() - k,
        {
            proof {
                assert(errs.take(k + 1).drop_last() =~= errs.take(k as int));
                lemma_count_noise_le(errs.take(k as int));
            }
            if errors[k].noise {
                noise = noise + 1;
            }
            k += 1;
        }
        assert(errs.take(errors.len() as int) =~= errs);
        proof {
            lemma_count_noise_le(errs);
        }
        let real_count = errors.len() - noise;
        let ok = success || (real_count == 0 && noise > 0);
        let mut summary = String::new();
        if ok && changes == 0 {
            if noise > 0 {
                push_str(&mut summary, "Passed (");
                push_chars(&mut summary, &decimal_chars(noise));
                push_str(&mut summary, " known fleetctl issue(s) ignored)");
            } else {
                push_str(&mut summary, "No changes detected");
            }
        } else if ok {
            push_chars(&mut summary, &decimal_chars(changes));
            push_str(&mut summary, " change(s) would be applied");
        } else {
            push_chars(&mut summary, &decimal_chars(real_count));
            push_str(&mut summary, " error(s)");
        }
        assert(summary@ =~= report_spec(output@, success).summary);
        GitOpsReport { success: ok, errors, summary }
    }
}

// ---------------------------------------------------------------------------
// Resource names and root files
// ---------------------------------------------------------------------------

/// The resource name a line declares with `name:`, without surrounding
/// whitespace and quotes, when non-empty.
pub open spec fn name_of_line(line: Seq<char>) -> Option<Seq<char>> {
    let t = trim(line);
    if has_prefix(t, "name:"@) {
        let n = strip_both(strip_both(trim(t.skip("name:"@.len() as int)), '"'), '\'');
        if n.len() > 0 {
            Some(n)
        } else {
            None
        }
    } else {
        None
    }
}

/// The names declared by `lines`, in order.
pub open spec fn names_in(lines: Seq<Seq<char>>) -> Seq<Seq<char>>
    decreases lines.len(),
{
    if lines.len() == 0 {
        seq![]
    } else {
        let r = names_in(lines.drop_last());
        match name_of_line(lines.last()) {
            Some(n) => r.push(n),
            None => r,
        }
    }
}

pub open spec fn string_views(v: Seq<String>) -> Seq<Seq<char>> {
    v.map_values(|s: String| s@)
}

/// Parses resource names from multi-document YAML output: the value of every
/// `name:` line.
pub fn parse_names_from_yaml(yaml: &str) -> (names: Vec<String>)
    ensures
        string_views(names@) == names_in(lines_spec(yaml@)),
{
    let chars = to_chars(yaml);
    let lines = lines_of(&chars);
    let prefix = to_chars("name:");
    let mut names: Vec<String> = Vec::new();
    let mut i: usize = 0;
    while i < lines.len()
        invariant
            i <= lines.len(),
            prefix@ == "name:"@,
            views(lines@) == lines_spec(yaml@),
            string_views(names@) == names_in(views(lines@).take(i as int)),
        decreases lines.len() - i,
    {
        proof {
            assert(views(lines@).take(i + 1).drop_last() =~= views(lines@).take(i as int));
            assert(views(lines@)[i as int] == lines@[i as int]@);
        }
        let t = trim_chars(&lines[i]);
        if starts_with(&t, &prefix) {
            let rest = slice_of(&t, prefix.len(), t.len());
            assert(rest@ == t@.skip("name:"@.len() as int));
            let n = strip_both_chars(&strip_both_chars(&trim_chars(&rest), '"'), '\'');
            if n.len() > 0 {
                let ghost before = names@;
                names.push(string_of(&n));
                assert(string_views(names@) =~= string_views(before).push(n@));
            }
        }
        i += 1;
    }
    assert(views(lines@).take(lines.len() as int) =~= views(lines@));
    names
}

pub open spec fn min_nat(a: nat, b: nat) -> nat {
    if a < b {
        a
    } else {
        b
    }
}

/// The first `n` lines of `content`, joined with newlines.
pub open spec fn head_lines(content: Seq<char>, n: nat) -> Seq<char> {
    join_spec(lines_spec(content).take(min_nat(n, lines_spec(content).len()) as int), "\n"@)
}

/// The first `n` lines of `content`, joined with newlines.
pub fn head_lines_of(content: &str, n: usize) -> (r: Vec<char>)
    ensures
        r@ == head_lines(content@, n as nat),
{
    let chars = to_chars(content);
    let lines = lines_of(&chars);
    let mut first: Vec<Vec<char>> = Vec::new();
    let mut i: usize = 0;
    while i < lines.len() && i < n
        invariant
            i <= lines.len(),
            i <= n,
            first@.len() == i,
            views(lines@).len() == lines@.len(),
            views(lines@) == lines_spec(content@),
            views(first@) == views(lines@).take(i as int),
        decreases lines.len() - i,
    {
        let ghost before = first@;
        let x = slice_of(&lines[i], 0, lines[i].len());
        let ghost li = lines@[i as int]@;
        assert(li.subrange(0, li.len() as int) =~= li);
        first.push(x);
        assert(first@ == before.push(x));
        assert(x@ == li);
        assert forall|k: int| 0 <= k < i + 1 implies #[trigger] views(first@)[k] == views(
            lines@,
        ).take(i + 1)[k] by {
            if k < i {
                assert(views(before)[k] == views(lines@).take(i as int)[k]);
            }
        }
        assert(views(first@) =~= views(lines@).take(i + 1));
        i += 1;
    }
    assert(views(lines@).len() == lines@.len());
    assert(i as nat == min_nat(n as nat, lines_spec(content@).len()));
    join_chars(&first, "\n")
}

/// Whether a file whose first five lines are `head` looks like a GitOps root:
/// it names something and declares policies, reports (or queries) or controls.
pub open spec fn looks_like_root_head(head: Seq<char>) -> bool {
    has_substr(head, "name:"@) && (has_substr(head, "policies:"@) || has_substr(
        head,
        "queries:"@,
    ) || has_substr(head, "reports:"@) || has_substr(head, "controls:"@))
}

/// Whether `content` looks like a GitOps root file (a fleet's config).
pub fn looks_like_gitops_root(content: &str) -> (r: bool)
    ensures
        r == looks_like_root_head(head_lines(content@, 5)),
{
    let head = head_lines_of(content, 5);
    contains_str(&head, "name:") && (contains_str(&head, "policies:") || contains_str(
        &head,
        "queries:",
    ) || contains_str(&head, "reports:") || contains_str(&head, "controls:"))
}

/// The file that makes a directory a GitOps root: `dir/default.yml`.
pub fn default_config_path(dir: &str) -> (r: String)
    ensures
        r@ == crate::paths::path_join(dir@, "default.yml"@),
{
    let p = crate::paths::join(&to_chars(dir), &to_chars("default.yml"));
    string_of(&p)
}

/// Whether `path` names a `.yml` file, the kind of file that can hold a
/// fleet's config.
pub fn is_yml_file(path: &str) -> (r: bool)
    ensures
        r == (crate::paths::extension_spec(path@) == Some("yml"@)),
{
    match crate::paths::extension(&to_chars(path)) {
        Some(e) => crate::text::eq_str(&e, "yml"),
        None => false,
    }
}

// ---------------------------------------------------------------------------
// Labels and resource caches
// ---------------------------------------------------------------------------

/// A Fleet label as the server describes it.
#[derive(Debug, Clone, Default)]
pub struct Label {
    pub name: Option<String>,
    pub description: Option<String>,
    pub query: Option<String>,
    pub platform: Option<String>,
    pub label_membership_type: Option<String>,
    pub hosts: Option<Vec<String>>,
}

/// The names of the labels that have one, in order.
pub open spec fn label_names_spec(labels: Seq<Label>) -> Seq<Seq<char>>
    decreases labels.len(),
{
    if labels.len() == 0 {
        seq![]
    } else {
        let r = label_names_spec(labels.drop_last());
        match labels.last().name {
            Some(n) => r.push(n@),
            None => r,
        }
    }
}

/// The names of the labels that have one, in order.
pub fn label_names(labels: &Vec<Label>) -> (names: Vec<String>)
    ensures
        string_views(names@) == label_names_spec(labels@),
{
    let mut names: Vec<String> = Vec::new();
    let mut i: usize = 0;
    while i < labels.len()
        invariant
            i <= labels.len(),
            string_views(names@) == label_names_spec(labels@.take(i as int)),
        decreases labels.len() - i,
    {
        assert(labels@.take(i + 1).drop_last() =~= labels@.take(i as int));
        match &labels[i].name {
            Some(n) => {
                let ghost before = names@;
                let copy = string_of(&to_chars(n.as_str()));
                names.push(copy);
                assert(string_views(names@) =~= string_views(before).push(n@));
            },
            None => {},
        }
        i += 1;
    }
    assert(labels@.take(labels.len() as int) =~= labels@);
    names
}

/// The `std::time::Instant` type.
#[verifier::external_type_specification]
#[verifier::external_body]
pub struct ExInstant(std::time::Instant);

/// `Instant::now`: the current time; nothing is stated of it.
#[verifier::external_body]
pub(crate) fn instant_now() -> std::time::Instant {
    std::time::Instant::now()
}

/// `Duration::from_secs`: a duration of `secs` whole seconds, that is
/// `secs` times 10^9 nanoseconds.
#[verifier::external_body]
pub(crate) fn duration_from_secs(secs: u64) -> (r: std::time::Duration)
    ensures
        duration_nanos(r) == secs * 1_000_000_000,
{
    std::time::Duration::from_secs(secs)
}

/// `Instant::elapsed`: the time since `t`; it depends on the clock, and
/// nothing is stated of it.
#[verifier::external_body]
pub(crate) fn instant_elapsed(t: &std::time::Instant) -> std::time::Duration {
    t.elapsed()
}

/// What `Duration::as_nanos` returns for `d`: the total number of
/// nanoseconds it holds.
pub uninterp spec fn duration_nanos(d: std::time::Duration) -> u128;

/// `Duration::as_nanos`: the total number of nanoseconds in `d`.
#[verifier::external_body]
pub(crate) fn duration_as_nanos(d: &std::time::Duration) -> (r: u128)
    ensures
        r == duration_nanos(*d),
{
    d.as_nanos()
}

/// A cache fetched `elapsed` nanoseconds ago is due for a refresh after
/// `interval` nanoseconds.
pub open spec fn stale_spec(elapsed: u128, interval: u128) -> bool {
    elapsed > interval
}

/// Whether a cache fetched `elapsed` nanoseconds ago is due for a refresh
/// after `interval` nanoseconds.
pub fn stale_after(elapsed: u128, interval: u128) -> (r: bool)
    ensures
        r == (elapsed > interval),
{
    elapsed > interval
}

/// Cached resource names from a Fleet instance for completions.
#[derive(Debug)]
pub struct ResourceCache {
    pub labels: Vec<String>,
    /// Full label structs from the Fleet server, used for block snippet completions.
    pub label_details: Vec<Label>,
    pub fleets: Vec<String>,
    pub reports: Vec<String>,
    pub last_fetched: std::time::Instant,
    pub refresh_interval: std::time::Duration,
}

impl ResourceCache {
    /// An empty cache fetched now, refreshed every five minutes.
    pub fn new_empty() -> (c: ResourceCache)
        ensures
            c.labels@.len() == 0,
            c.label_details@.len() == 0,
            c.fleets@.len() == 0,
            c.reports@.len() == 0,
            duration_nanos(c.refresh_interval) == 300_000_000_000,
    {
        ResourceCache {
            labels: Vec::new(),
            label_details: Vec::new(),
            fleets: Vec::new(),
            reports: Vec::new(),
            last_fetched: instant_now(),
            refresh_interval: duration_from_secs(300),
        }
    }

    /// A cache of the given resources, fetched now, refreshed every five minutes.
    pub fn fetched_now(label_details: Vec<Label>, fleets: Vec<String>, reports: Vec<String>) -> (c:
        ResourceCache)
        ensures
            string_views(c.labels@) == label_names_spec(label_details@),
            c.label_details@ == label_details@,
            c.fleets@ == fleets@,
            c.reports@ == reports@,
            duration_nanos(c.refresh_interval) == 300_000_000_000,
    {
        let labels = label_names(&label_details);
        ResourceCache {
            labels,
            label_details,
            fleets,
            reports,
            last_fetched: instant_now(),
            refresh_interval: duration_from_secs(300),
        }
    }

    /// Check if the cache is stale and needs refresh: more time than the
    /// refresh interval has passed since it was fetched (the clock decides).
    pub fn is_stale(&self) -> (r: bool)
        ensures
            exists|elapsed: u128| r == #[trigger] stale_spec(elapsed, duration_nanos(self.refresh_interval)),
    {
        let elapsed = instant_elapsed(&self.last_fetched);
        let e = duration_as_nanos(&elapsed);
        let r = stale_after(e, duration_as_nanos(&self.refresh_interval));
        assert(r == stale_spec(e, duration_nanos(self.refresh_interval)));
        r
    }
}

impl Default for ResourceCache {
    fn default() -> (c: Self)
        ensures
            c.labels@.len() == 0,
            c.label_details@.len() == 0,
            c.fleets@.len() == 0,
            c.reports@.len() == 0,
            duration_nanos(c.refresh_interval) == 300_000_000_000,
    {
        ResourceCache::new_empty()
    }
}

// ---------------------------------------------------------------------------
// fleetctl invocations
// ---------------------------------------------------------------------------

/// The `fleetctl` arguments that export server config into a GitOps repo.
pub open spec fn generate_gitops_args_spec(dir: Seq<char>, team: Option<Seq<char>>, force: bool, print: bool) -> Seq<Seq<char>> {
    let base = seq!["generate-gitops"@, "--dir"@, dir];
    let with_team = match team {
        Some(t) => base + seq!["--team"@, t],
        None => base,
    };
    let with_force = if force {
        with_team.push("--force"@)
    } else {
        with_team
    };
    if print {
        with_force.push("--print"@)
    } else {
        with_force
    }
}

/// The `fleetctl` arguments that export server config into a GitOps repo.
pub fn generate_gitops_args(dir: &str, team: Option<&str>, force: bool, print: bool) -> (args: Vec<String>)
    ensures
        string_views(args@) == generate_gitops_args_spec(dir@, crate::version_gate::opt_str_view(team), force, print),
{
    let mut args: Vec<String> = Vec::new();
    args.push(String::from_str("generate-gitops"));
    args.push(String::from_str("--dir"));
    args.push(String::from_str(dir));
    if let Some(team_name) = team {
        args.push(String::from_str("--team"));
        args.push(String::from_str(team_name));
    }
    if force {
        args.push(String::from_str("--force"));
    }
    if print {
        args.push(String::from_str("--print"));
    }
    assert(string_views(args@) =~= generate_gitops_args_spec(dir@, crate::version_gate::opt_str_view(team), force, print));
    args
}

/// The `fleetctl` configuration for a server at `url` with API token `token`.
pub open spec fn fleetctl_config_spec(url: Seq<char>, token: Seq<char>) -> Seq<char> {
    "contexts:\n  default:\n    address: "@ + url + "\n    token: "@ + token
        + "\n    tls-skip-verify: false\n"@
}

/// The `fleetctl` configuration for a server at `url` with API token
/// `token`: one default context, TLS verified.
pub fn fleetctl_config(url: &str, token: &str) -> (r: String)
    ensures
        r@ == fleetctl_config_spec(url@, token@),
{
    let mut s = String::from_str("contexts:\n  default:\n    address: ");
    push_str(&mut s, url);
    push_str(&mut s, "\n    token: ");
    push_str(&mut s, token);
    push_str(&mut s, "\n    tls-skip-verify: false\n");
    s
}

} // verus!
