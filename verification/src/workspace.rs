//! Workspace-level checks of `path:` references in Fleet GitOps YAML files:
//! malformed paths, missing files, go-to-definition targets and links, and
//! which files belong to a GitOps repository.
use vstd::prelude::*;

use crate::lsp::{
    diagnostic_views, file_url, file_url_of, line_range, line_range_spec, lint_error_at,
    lint_error_diagnostic, Diagnostic, DiagnosticView, DocumentLink, Location, Position, Range,
};
use crate::paths::{
    extension, extension_spec, file_name, file_name_or_empty, file_name_spec, join, parent,
    parent_spec, path_join,
};
use crate::text::{
    byte_len, byte_len_of, byte_len_prefix, contains_str, find, find_spec, has_prefix, has_substr, lemma_byte_len_concat, lemma_byte_len_take_mono, lemma_lines_bounds, lemma_skip_substr, lemma_strip_both_substr, lemma_strip_lead_substr, lemma_substr_trans, lemma_trim_substr, lines_of, lines_spec, occurs_at, opt_view, push_chars, slice_of, starts_with_str, string_of, strip_both, strip_both_chars, strip_lead, strip_lead_chars, to_chars, trim, trim_chars, views,
};

verus! {

// ---------------------------------------------------------------------------
// Reading `path:` lines
// ---------------------------------------------------------------------------

/// The value of a `path:` line (already trimmed): what follows `path:`,
/// without surrounding whitespace and quotes, when non-empty.
pub open spec fn path_value_spec(line: Seq<char>) -> Option<Seq<char>> {
    if has_prefix(line, "path:"@) {
        let v = strip_both(strip_both(trim(line.skip("path:"@.len() as int)), '"'), '\'');
        if v.len() > 0 {
            Some(v)
        } else {
            None
        }
    } else {
        None
    }
}

/// A line without surrounding whitespace and list dashes.
pub open spec fn reference_text(line: Seq<char>) -> Seq<char> {
    trim(strip_lead(trim(line), '-'))
}

/// The path a document line references, if it is a `path:` line.
pub open spec fn line_reference(line: Seq<char>) -> Option<Seq<char>> {
    path_value_spec(reference_text(line))
}

fn path_value_chars(line: &Vec<char>) -> (r: Option<Vec<char>>)
    ensures
        r matches Some(v) ==> path_value_spec(line@) == Some(v@),
        r is None ==> path_value_spec(line@) is None,
{
    let prefix = to_chars("path:");
    if !crate::text::starts_with(line, &prefix) {
        return None;
    }
    let rest = slice_of(line, prefix.len(), line.len());
    assert(rest@ == line@.skip("path:"@.len() as int));
    let v = strip_both_chars(&strip_both_chars(&trim_chars(&rest), '"'), '\'');
    if v.len() > 0 {
        Some(v)
    } else {
        None
    }
}

/// Extract path value from a line like "path: lib/policies.yml".
pub fn extract_path_value(line: &str) -> (r: Option<String>)
    ensures
        crate::text::opt_view(r) == path_value_spec(line@),
{
    match path_value_chars(&to_chars(line)) {
        Some(v) => Some(string_of(&v)),
        None => None,
    }
}

fn line_reference_chars(line: &Vec<char>) -> (r: Option<Vec<char>>)
    ensures
        r matches Some(v) ==> line_reference(line@) == Some(v@),
        r is None ==> line_reference(line@) is None,
{
    let t = trim_chars(&strip_lead_chars(&trim_chars(line), '-'));
    path_value_chars(&t)
}

// ---------------------------------------------------------------------------
// Malformed paths
// ---------------------------------------------------------------------------

/// The complaint about a malformed path value, if any: a shell command
/// prefix, an absolute path, or a climb of two or more directories.
pub open spec fn malformed_spec(p: Seq<char>) -> Option<Seq<char>> {
    if has_prefix(p, ". "@) {
        Some(
            "Path starts with `. ` (shell source command). Did you mean `"@ + trim(
                p.skip(". "@.len() as int),
            ) + "`?"@,
        )
    } else if has_prefix(p, "source "@) {
        Some(
            "Path starts with `source ` (shell command). Did you mean `"@ + trim(
                p.skip("source "@.len() as int),
            ) + "`?"@,
        )
    } else if has_prefix(p, "bash "@) {
        Some(shell_message("bash"@, trim(p.skip("bash "@.len() as int))))
    } else if has_prefix(p, "sh "@) {
        Some(shell_message("sh"@, trim(p.skip("sh "@.len() as int))))
    } else if has_prefix(p, "zsh "@) {
        Some(shell_message("zsh"@, trim(p.skip("zsh "@.len() as int))))
    } else if has_prefix(p, "/bin/bash "@) {
        Some(shell_message("/bin/bash"@, trim(p.skip("/bin/bash "@.len() as int))))
    } else if has_prefix(p, "/bin/sh "@) {
        Some(shell_message("/bin/sh"@, trim(p.skip("/bin/sh "@.len() as int))))
    } else if has_prefix(p, "/"@) {
        Some("Path is absolute. Use a relative path from the gitops repo root."@)
    } else if has_prefix(p, "../../"@) || has_substr(p, "/../../"@) {
        Some("Path traverses multiple levels up. Verify it stays within the repo root."@)
    } else {
        None
    }
}

/// The message for a path that starts with shell interpreter `shell`.
pub open spec fn shell_message(shell: Seq<char>, rest: Seq<char>) -> Seq<char> {
    "Path starts with `"@ + shell + "` (shell command). Use the path only: `"@ + rest + "`"@
}

fn rest_after(p: &Vec<char>, prefix: &str) -> (r: Vec<char>)
    requires
        has_prefix(p@, prefix@),
    ensures
        r@ == trim(p@.skip(prefix@.len() as int)),
{
    let pc = to_chars(prefix);
    let rest = slice_of(p, pc.len(), p.len());
    assert(rest@ =~= p@.skip(prefix@.len() as int));
    trim_chars(&rest)
}

fn message3(a: &str, b: &Vec<char>, c: &str) -> (r: Vec<char>)
    ensures
        r@ == a@ + b@ + c@,
{
    let mut s = String::new();
    crate::text::push_str(&mut s, a);
    push_chars(&mut s, b);
    crate::text::push_str(&mut s, c);
    to_chars(s.as_str())
}

fn prefixed(a: &str, b: &Vec<char>) -> (r: Vec<char>)
    ensures
        r@ == a@ + b@,
{
    let mut s = String::new();
    crate::text::push_str(&mut s, a);
    push_chars(&mut s, b);
    to_chars(s.as_str())
}

fn shell_message_chars(shell: &str, rest: &Vec<char>) -> (r: Vec<char>)
    ensures
        r@ == shell_message(shell@, rest@),
{
    let mut s = String::new();
    crate::text::push_str(&mut s, "Path starts with `");
    crate::text::push_str(&mut s, shell);
    crate::text::push_str(&mut s, "` (shell command). Use the path only: `");
    push_chars(&mut s, rest);
    crate::text::push_str(&mut s, "`");
    to_chars(s.as_str())
}

fn malformed_chars(p: &Vec<char>) -> (r: Option<Vec<char>>)
    ensures
        r matches Some(m) ==> malformed_spec(p@) == Some(m@),
        r is None ==> malformed_spec(p@) is None,
{
    if starts_with_str(p, ". ") {
        Some(
            message3(
                "Path starts with `. ` (shell source command). Did you mean `",
                &rest_after(p, ". "),
                "`?",
            ),
        )
    } else if starts_with_str(p, "source ") {
        Some(
            message3(
                "Path starts with `source ` (shell command). Did you mean `",
                &rest_after(p, "source "),
                "`?",
            ),
        )
    } else if starts_with_str(p, "bash ") {
        Some(shell_message_chars("bash", &rest_after(p, "bash ")))
    } else if starts_with_str(p, "sh ") {
        Some(shell_message_chars("sh", &rest_after(p, "sh ")))
    } else if starts_with_str(p, "zsh ") {
        Some(shell_message_chars("zsh", &rest_after(p, "zsh ")))
    } else if starts_with_str(p, "/bin/bash ") {
        Some(shell_message_chars("/bin/bash", &rest_after(p, "/bin/bash ")))
    } else if starts_with_str(p, "/bin/sh ") {
        Some(shell_message_chars("/bin/sh", &rest_after(p, "/bin/sh ")))
    } else if starts_with_str(p, "/") {
        Some(to_chars("Path is absolute. Use a relative path from the gitops repo root."))
    } else if starts_with_str(p, "../../") || contains_str(p, "/../../") {
        Some(to_chars("Path traverses multiple levels up. Verify it stays within the repo root."))
    } else {
        None
    }
}

/// Check if a path value is malformed and return an error message if so.
pub fn check_malformed_path(path: &str) -> (r: Option<String>)
    ensures
        crate::text::opt_view(r) == malformed_spec(path@),
{
    match malformed_chars(&to_chars(path)) {
        Some(m) => Some(string_of(&m)),
        None => None,
    }
}

// ---------------------------------------------------------------------------
// Positions of path values
// ---------------------------------------------------------------------------

/// Byte offset where `v` first occurs in `line`, or 0.
pub open spec fn value_start(line: Seq<char>, v: Seq<char>) -> nat {
    match find_spec(line, v) {
        Some(i) => byte_len(line.take(i)),
        None => 0,
    }
}

/// The range of path value `v` on line `idx` whose text is `line`.
pub open spec fn value_range(idx: nat, line: Seq<char>, v: Seq<char>) -> Range {
    line_range_spec(
        idx as u32,
        value_start(line, v) as u32,
        (value_start(line, v) + byte_len(v)) as u32,
    )
}

proof fn lemma_occurrence_bytes(line: Seq<char>, v: Seq<char>, i: int)
    requires
        occurs_at(line, v, i),
    ensures
        byte_len(line.take(i)) + byte_len(v) <= byte_len(line),
{
    assert(line.take(i + v.len()) =~= line.take(i) + v);
    lemma_byte_len_concat(line.take(i), v);
    lemma_byte_len_take_mono(line, i + v.len(), line.len() as int);
    assert(line.take(line.len() as int) =~= line);
}

fn value_range_of(idx: usize, line: &Vec<char>, v: &Vec<char>) -> (r: Range)
    requires
        idx <= u32::MAX,
        byte_len(line@) <= u32::MAX,
        has_substr(line@, v@),
    ensures
        r == value_range(idx as nat, line@, v@),
        value_start(line@, v@) + byte_len(v@) <= byte_len(line@),
{
    let start = match find(line, v) {
        Some(i) => {
            proof {
                lemma_occurrence_bytes(line@, v@, i as int);
            }
            byte_len_prefix(line, i)
        },
        None => 0,
    };
    let len = byte_len_of(v);
    line_range(idx as u32, start, start + len)
}

proof fn lemma_reference_in_line(line: Seq<char>)
    requires
        line_reference(line) is Some,
    ensures
        has_substr(line, line_reference(line)->0),
{
    let t = reference_text(line);
    let t1 = trim(line);
    let t2 = strip_lead(t1, '-');
    lemma_trim_substr(line);
    lemma_strip_lead_substr(t1, '-');
    lemma_substr_trans(line, t1, t2);
    lemma_trim_substr(t2);
    lemma_substr_trans(line, t2, t);
    let r = t.skip("path:"@.len() as int);
    lemma_skip_substr(t, "path:"@.len() as int);
    lemma_substr_trans(line, t, r);
    lemma_trim_substr(r);
    lemma_substr_trans(line, r, trim(r));
    lemma_strip_both_substr(trim(r), '"');
    lemma_substr_trans(line, trim(r), strip_both(trim(r), '"'));
    lemma_strip_both_substr(strip_both(trim(r), '"'), '\'');
    lemma_substr_trans(line, strip_both(trim(r), '"'), line_reference(line)->0);
}

// ---------------------------------------------------------------------------
// Validation
// ---------------------------------------------------------------------------

/// The directory `path:` values are resolved against: the workspace root when
/// known, else the directory of the file (`.` when it has none).
pub open spec fn base_dir_spec(file_path: Seq<char>, workspace_root: Option<Seq<char>>) -> Seq<
    char,
> {
    match workspace_root {
        Some(root) => root,
        None => match parent_spec(file_path) {
            Some(p) => p,
            None => "."@,
        },
    }
}

/// The diagnostic for line `idx` (text `line`) when the file it references
/// exists (`exists`) or not.
pub open spec fn reference_diagnostic(idx: nat, line: Seq<char>, exists: bool) -> Option<
    DiagnosticView,
> {
    match line_reference(line) {
        Some(v) => match malformed_spec(v) {
            Some(msg) => Some(lint_error_at(value_range(idx, line, v), msg)),
            None => if exists {
                None
            } else {
                Some(lint_error_at(value_range(idx, line, v), "Referenced file not found: "@ + v))
            },
        },
        None => None,
    }
}

/// The diagnostics of lines `lines[..k]`, given which referenced files exist.
pub open spec fn reference_diagnostics(lines: Seq<Seq<char>>, exists: Seq<bool>, k: nat) -> Seq<
    DiagnosticView,
>
    decreases k,
{
    if k == 0 {
        seq![]
    } else {
        let r = reference_diagnostics(lines, exists, (k - 1) as nat);
        match reference_diagnostic((k - 1) as nat, lines[k - 1], exists[k - 1]) {
            Some(d) => r.push(d),
            None => r,
        }
    }
}

/// The diagnostic for one document line, given whether the file it
/// references exists.
pub fn path_reference_diagnostic(line_idx: usize, line: &str, exists: bool) -> (r: Option<Diagnostic>)
    requires
        line_idx <= u32::MAX,
        byte_len(line@) <= u32::MAX,
    ensures
        match r {
            Some(d) => reference_diagnostic(line_idx as nat, line@, exists) == Some(d@),
            None => reference_diagnostic(line_idx as nat, line@, exists) is None,
        },
{
    reference_diagnostic_chars(line_idx, &to_chars(line), exists)
}

fn reference_diagnostic_chars(line_idx: usize, line: &Vec<char>, exists: bool) -> (r: Option<Diagnostic>)
    requires
        line_idx <= u32::MAX,
        byte_len(line@) <= u32::MAX,
    ensures
        match r {
            Some(d) => reference_diagnostic(line_idx as nat, line@, exists) == Some(d@),
            None => reference_diagnostic(line_idx as nat, line@, exists) is None,
        },
{
    match line_reference_chars(line) {
        Some(v) => {
            proof {
                lemma_reference_in_line(line@);
            }
            let range = value_range_of(line_idx, line, &v);
            match malformed_chars(&v) {
                Some(msg) => Some(lint_error_diagnostic(range, &msg)),
                None => {
                    if exists {
                        None
                    } else {
                        let msg = prefixed("Referenced file not found: ", &v);
                        Some(lint_error_diagnostic(range, &msg))
                    }
                },
            }
        },
        None => None,
    }
}

fn base_dir(file_path: &Vec<char>, workspace_root: Option<&str>) -> (r: Vec<char>)
    ensures
        r@ == base_dir_spec(file_path@, crate::version_gate::opt_str_view(workspace_root)),
{
    match workspace_root {
        Some(root) => to_chars(root),
        None => match parent(file_path) {
            Some(p) => p,
            None => to_chars("."),
        },
    }
}

/// The path that the `path:` reference of `line` names under `base`, if
/// the line has one.
pub open spec fn line_target(line: Seq<char>, base: Seq<char>) -> Option<Seq<char>> {
    match line_reference(line) {
        Some(v) => Some(path_join(base, v)),
        None => None,
    }
}

/// For each line of a document, the file its `path:` reference names: the
/// value resolved against the workspace root when known, else against the
/// file's directory (`.` when it has none). These are the files whose
/// existence decides [`validate_path_references`], [`extract_path_references`]
/// (with no workspace root) and [`get_path_definition`].
pub fn reference_targets(source: &str, file_path: &str, workspace_root: Option<&str>) -> (r: Vec<
    Option<String>,
>)
    ensures
        r@.len() == lines_spec(source@).len(),
        forall|k: int|
            0 <= k < r@.len() ==> opt_view(#[trigger] r@[k]) == line_target(
                lines_spec(source@)[k],
                base_dir_spec(file_path@, crate::version_gate::opt_str_view(workspace_root)),
            ),
{
    let chars = to_chars(source);
    let lines = lines_of(&chars);
    let file = to_chars(file_path);
    let base = base_dir(&file, workspace_root);
    let ghost b = base_dir_spec(file_path@, crate::version_gate::opt_str_view(workspace_root));
    let mut r: Vec<Option<String>> = Vec::new();
    let mut i: usize = 0;
    while i < lines.len()
        invariant
            i <= lines.len(),
            views(lines@) == lines_spec(source@),
            base@ == b,
            r@.len() == i,
            forall|k: int|
                0 <= k < i ==> opt_view(#[trigger] r@[k]) == line_target(lines_spec(source@)[k], b),
        decreases lines.len() - i,
    {
        let line = &lines[i];
        assert(line@ == lines_spec(source@)[i as int]);
        let t = match line_reference_chars(line) {
            Some(v) => Some(string_of(&join(&base, &v))),
            None => None,
        };
        r.push(t);
        i += 1;
    }
    r
}

/// Checks the `path:` references of a document: a malformed path gets an
/// error, and so does one whose file does not exist. `exists[k]` tells
/// whether the file that line `k` references (see [`reference_targets`])
/// exists.
pub fn validate_path_references(source: &str, exists: &Vec<bool>) -> (r: Vec<Diagnostic>)
    requires
        byte_len(source@) <= u32::MAX,
        exists@.len() == lines_spec(source@).len(),
    ensures
        diagnostic_views(r@) == reference_diagnostics(
            lines_spec(source@),
            exists@,
            lines_spec(source@).len(),
        ),
{
    let chars = to_chars(source);
    let lines = lines_of(&chars);
    let mut diagnostics: Vec<Diagnostic> = Vec::new();
    proof {
        lemma_lines_bounds(source@);
        crate::text::lemma_byte_len_bounds(source@);
    }
    let mut i: usize = 0;
    while i < lines.len()
        invariant
            i <= lines.len(),
            views(lines@) == lines_spec(source@),
            exists@.len() == lines@.len(),
            lines_spec(source@).len() <= source@.len(),
            byte_len(source@) <= u32::MAX,
            source@.len() <= byte_len(source@),
            forall|k: int|
                0 <= k < lines_spec(source@).len() ==> byte_len(#[trigger] lines_spec(source@)[k])
                    <= byte_len(source@),
            diagnostic_views(diagnostics@) == reference_diagnostics(
                lines_spec(source@),
                exists@,
                i as nat,
            ),
        decreases lines.len() - i,
    {
        proof {
            crate::text::lemma_byte_len_bounds(source@);
        }
        let line = &lines[i];
        assert(line@ == lines_spec(source@)[i as int]);
        let d = reference_diagnostic_chars(i, line, exists[i]);
        let ghost before = diagnostics@;
        match d {
            Some(d) => {
                diagnostics.push(d);
                assert(diagnostic_views(diagnostics@) =~= diagnostic_views(before).push(d@));
            },
            None => {},
        }
        i += 1;
    }
    diagnostics
}

// ---------------------------------------------------------------------------
// References, definitions and links
// ---------------------------------------------------------------------------

/// A reference from one file to another.
#[derive(Debug, Clone)]
pub struct PathReference {
    /// Source file containing the reference
    pub source_file: String,
    /// Line number in source file (0-indexed)
    pub line: usize,
    /// The path value as written in the file
    pub path_value: String,
    /// Resolved absolute path (if resolvable)
    pub resolved_path: Option<String>,
}

/// What a [`PathReference`] holds.
pub struct PathReferenceView {
    pub source_file: Seq<char>,
    pub line: nat,
    pub path_value: Seq<char>,
    pub resolved_path: Option<Seq<char>>,
}

impl View for PathReference {
    type V = PathReferenceView;

    open spec fn view(&self) -> PathReferenceView {
        PathReferenceView {
            source_file: self.source_file@,
            line: self.line as nat,
            path_value: self.path_value@,
            resolved_path: crate::text::opt_view(self.resolved_path),
        }
    }
}

pub open spec fn reference_views(v: Seq<PathReference>) -> Seq<PathReferenceView> {
    v.map_values(|r: PathReference| r@)
}

/// The references of lines `lines[..k]` of `file`, resolved against `base`
/// and made absolute against the working directory `cwd`, given which
/// referenced files exist.
pub open spec fn references_upto(
    lines: Seq<Seq<char>>,
    file: Seq<char>,
    base: Seq<char>,
    cwd: Seq<char>,
    exists: Seq<bool>,
    k: nat,
) -> Seq<PathReferenceView>
    decreases k,
{
    if k == 0 {
        seq![]
    } else {
        let r = references_upto(lines, file, base, cwd, exists, (k - 1) as nat);
        match line_reference(lines[k - 1]) {
            Some(v) => r.push(
                PathReferenceView {
                    source_file: file,
                    line: (k - 1) as nat,
                    path_value: v,
                    resolved_path: if exists[k - 1] {
                        Some(path_join(cwd, path_join(base, v)))
                    } else {
                        None
                    },
                },
            ),
            None => r,
        }
    }
}

/// A path joined onto an absolute directory is absolute.
proof fn lemma_join_rooted(dir: Seq<char>, p: Seq<char>)
    requires
        crate::paths::has_root(dir),
    ensures
        crate::paths::has_root(path_join(dir, p)),
{
    let r = path_join(dir, p);
    if !crate::paths::has_root(p) {
        if dir.last() != '/' {
            assert(r[0] == dir[0]);
        } else {
            assert(r[0] == dir[0]);
        }
    }
}

/// Extract all path references from a document: each `path:` value with its
/// line, and, when the file it names under the document's directory exists
/// (`exists[k]` for line `k`, see [`reference_targets`] with no workspace
/// root), that file's absolute path against the working directory `cwd`.
pub fn extract_path_references(source: &str, file_path: &str, cwd: &str, exists: &Vec<bool>) -> (r:
    Vec<PathReference>)
    requires
        crate::paths::has_root(cwd@),
        exists@.len() == lines_spec(source@).len(),
    ensures
        reference_views(r@) == references_upto(
            lines_spec(source@),
            file_path@,
            base_dir_spec(file_path@, None),
            cwd@,
            exists@,
            lines_spec(source@).len(),
        ),
        forall|i: int|
            0 <= i < r@.len() ==> ((#[trigger] r@[i]@).resolved_path matches Some(p)
                ==> crate::paths::has_root(p)),
{
    let chars = to_chars(source);
    let lines = lines_of(&chars);
    let file = to_chars(file_path);
    let base = base_dir(&file, None);
    let here = to_chars(cwd);
    let mut refs: Vec<PathReference> = Vec::new();
    let mut i: usize = 0;
    while i < lines.len()
        invariant
            i <= lines.len(),
            views(lines@) == lines_spec(source@),
            exists@.len() == lines@.len(),
            file@ == file_path@,
            here@ == cwd@,
            crate::paths::has_root(cwd@),
            base@ == base_dir_spec(file_path@, None),
            reference_views(refs@) == references_upto(
                lines_spec(source@),
                file_path@,
                base@,
                cwd@,
                exists@,
                i as nat,
            ),
            forall|j: int|
                0 <= j < refs@.len() ==> ((#[trigger] refs@[j]@).resolved_path matches Some(p)
                    ==> crate::paths::has_root(p)),
        decreases lines.len() - i,
    {
        let line = &lines[i];
        assert(line@ == lines_spec(source@)[i as int]);
        let ghost before = refs@;
        match line_reference_chars(line) {
            Some(v) => {
                let resolved = join(&base, &v);
                let absolute = join(&here, &resolved);
                proof {
                    lemma_join_rooted(cwd@, resolved@);
                }
                let item = PathReference {
                    source_file: string_of(&file),
                    line: i,
                    path_value: string_of(&v),
                    resolved_path: if exists[i] {
                        Some(string_of(&absolute))
                    } else {
                        None
                    },
                };
                refs.push(item);
                assert(reference_views(refs@) =~= reference_views(before).push(item@));
                assert forall|j: int|
                    0 <= j < refs@.len() implies ((#[trigger] refs@[j]@).resolved_path matches Some(p)
                        ==> crate::paths::has_root(p)) by {
                    if j < before.len() {
                        assert(refs@[j] == before[j]);
                    }
                }
            },
            None => {},
        }
        i += 1;
    }
    refs
}

/// The go-to-definition target at `position`, when the file it references
/// exists (`exists`): the cursor must be on the value of a `path:` line.
pub open spec fn definition_target(
    lines: Seq<Seq<char>>,
    position: Position,
    base: Seq<char>,
    exists: bool,
) -> Option<Seq<char>> {
    if position.line >= lines.len() {
        None
    } else {
        let line = lines[position.line as int];
        match line_reference(line) {
            Some(v) => {
                let range = value_range(position.line as nat, line, v);
                if position.character < range.start.character || position.character
                    > range.end.character {
                    None
                } else if exists {
                    Some(path_join(base, v))
                } else {
                    None
                }
            },
            None => None,
        }
    }
}

/// The location a definition target opens: the start of the file, at its
/// `file:` URL.
pub open spec fn location_of(t: Option<Seq<char>>) -> Option<Location> {
    match t {
        Some(p) => match file_url_of(p) {
            Some(u) => Some(Location { uri: u, range: line_range_spec(0, 0, 0) }),
            None => None,
        },
        None => None,
    }
}

/// Get go-to-definition location for path references: the start of the
/// referenced file, when the cursor is on a `path:` value whose file exists.
/// `exists` tells whether the file that the cursor's line references (see
/// [`reference_targets`]) exists.
pub fn get_path_definition(
    source: &str,
    position: Position,
    file_path: &str,
    workspace_root: Option<&str>,
    exists: bool,
) -> (r: Option<Location>)
    requires
        byte_len(source@) <= u32::MAX,
    ensures
        r == location_of(
            definition_target(
                lines_spec(source@),
                position,
                base_dir_spec(file_path@, crate::version_gate::opt_str_view(workspace_root)),
                exists,
            ),
        ),
{
    let chars = to_chars(source);
    let lines = lines_of(&chars);
    proof {
        lemma_lines_bounds(source@);
    }
    let file = to_chars(file_path);
    let base = base_dir(&file, workspace_root);
    let idx = position.line as usize;
    if idx >= lines.len() {
        assert(definition_target(lines_spec(source@), position, base@, true) is None);
        return None;
    }
    let line = &lines[idx];
    assert(line@ == lines_spec(source@)[idx as int]);
    let v = match line_reference_chars(line) {
        Some(v) => v,
        None => {
            assert(definition_target(lines_spec(source@), position, base@, true) is None);
            return None;
        },
    };
    proof {
        lemma_reference_in_line(line@);
        crate::text::lemma_byte_len_bounds(source@);
    }
    let range = value_range_of(idx, line, &v);
    if position.character < range.start.character || position.character > range.end.character {
        assert(definition_target(lines_spec(source@), position, base@, true) is None);
        return None;
    }
    let resolved = join(&base, &v);
    if !exists {
        assert(definition_target(lines_spec(source@), position, base@, false) is None);
        return None;
    }
    assert(definition_target(lines_spec(source@), position, base@, true) == Some(resolved@));
    match file_url(&resolved) {
        Some(uri) => Some(Location { uri, range: line_range(0, 0, 0) }),
        None => None,
    }
}

/// The link for each `path:` line of `lines[..k]`: the range of its value, the
/// path it resolves to under `base`, and its tooltip.
pub open spec fn link_targets(lines: Seq<Seq<char>>, base: Seq<char>, k: nat) -> Seq<
    (Range, Seq<char>, Seq<char>),
>
    decreases k,
{
    if k == 0 {
        seq![]
    } else {
        let r = link_targets(lines, base, (k - 1) as nat);
        match line_reference(lines[k - 1]) {
            Some(v) => r.push(
                (value_range((k - 1) as nat, lines[k - 1], v), path_join(base, v), "Open "@ + v),
            ),
            None => r,
        }
    }
}

pub open spec fn link_views(v: Seq<DocumentLink>) -> Seq<(Range, tower_lsp::lsp_types::Url, Seq<char>)> {
    v.map_values(|l: DocumentLink| (l.range, l.target, l.tooltip@))
}

/// The links of those targets whose path has a `file:` URL (on Unix, the
/// absolute ones), each opening that URL.
pub open spec fn absolute_links(t: Seq<(Range, Seq<char>, Seq<char>)>) -> Seq<
    (Range, tower_lsp::lsp_types::Url, Seq<char>),
>
    decreases t.len(),
{
    if t.len() == 0 {
        seq![]
    } else {
        let r = absolute_links(t.drop_last());
        match file_url_of(t.last().1) {
            Some(u) => r.push((t.last().0, u, t.last().2)),
            None => r,
        }
    }
}

/// Generate document links for all `path:` references in a document, making
/// the values clickable; each resolves against the workspace root when known,
/// else the file's directory. Paths that have no `file:` URL get no link.
pub fn document_links(source: &str, file_path: &str, workspace_root: Option<&str>) -> (r: Vec<
    DocumentLink,
>)
    requires
        byte_len(source@) <= u32::MAX,
    ensures
        link_views(r@) == absolute_links(
            link_targets(
                lines_spec(source@),
                base_dir_spec(file_path@, crate::version_gate::opt_str_view(workspace_root)),
                lines_spec(source@).len(),
            ),
        ),
{
    let chars = to_chars(source);
    let lines = lines_of(&chars);
    let file = to_chars(file_path);
    let base = base_dir(&file, workspace_root);
    let mut links: Vec<DocumentLink> = Vec::new();
    proof {
        lemma_lines_bounds(source@);
        crate::text::lemma_byte_len_bounds(source@);
    }
    let mut i: usize = 0;
    while i < lines.len()
        invariant
            i <= lines.len(),
            views(lines@) == lines_spec(source@),
            lines_spec(source@).len() <= source@.len(),
            byte_len(source@) <= u32::MAX,
            source@.len() <= byte_len(source@),
            forall|k: int|
                0 <= k < lines_spec(source@).len() ==> byte_len(#[trigger] lines_spec(source@)[k])
                    <= byte_len(source@),
            base@ == base_dir_spec(file_path@, crate::version_gate::opt_str_view(workspace_root)),
            link_views(links@) == absolute_links(link_targets(lines_spec(source@), base@, i as nat)),
        decreases lines.len() - i,
    {
        let line = &lines[i];
        assert(line@ == lines_spec(source@)[i as int]);
        let ghost before = links@;
        let ghost t0 = link_targets(lines_spec(source@), base@, i as nat);
        match line_reference_chars(line) {
            Some(v) => {
                proof {
                    lemma_reference_in_line(line@);
                }
                let range = value_range_of(i, line, &v);
                let resolved = join(&base, &v);
                let tooltip = prefixed("Open ", &v);
                let ghost item = (range, resolved@, tooltip@);
                assert(link_targets(lines_spec(source@), base@, (i + 1) as nat) == t0.push(item));
                assert(t0.push(item).drop_last() =~= t0);
                match file_url(&resolved) {
                    Some(target) => {
                        let link = DocumentLink { range, target, tooltip: string_of(&tooltip) };
                        links.push(link);
                        assert(link_views(links@) =~= link_views(before).push((range, target, tooltip@)));
                    },
                    None => {},
                }
            },
            None => {},
        }
        i += 1;
    }
    links
}

// ---------------------------------------------------------------------------
// Which files are Fleet GitOps files
// ---------------------------------------------------------------------------

/// The final name of `p`, or the empty name.
pub open spec fn name_or_empty(p: Seq<char>) -> Seq<char> {
    match file_name_spec(p) {
        Some(n) => n,
        None => seq![],
    }
}

/// The verdict the path alone gives on whether `path` is a Fleet GitOps YAML
/// file: `Some(false)` for non-YAML files, `Some(true)` for known names and
/// locations, `None` when the content has to decide.
pub open spec fn fleet_yaml_by_path_spec(path: Seq<char>) -> Option<bool> {
    match extension_spec(path) {
        None => Some(false),
        Some(ext) => if ext != "yml"@ && ext != "yaml"@ {
            Some(false)
        } else if (match file_name_spec(path) {
            Some(name) => name == "default.yml"@ || name == "team.yml"@ || has_substr(
                name,
                "policies"@,
            ) || has_substr(name, "queries"@) || has_substr(name, "labels"@),
            None => false,
        }) {
            Some(true)
        } else {
            match parent_spec(path) {
                None => None,
                Some(dir) => {
                    let dir_name = name_or_empty(dir);
                    if dir_name == "fleets"@ || dir_name == "teams"@ || dir_name == "lib"@
                        || dir_name == "labels"@ || dir_name == "platforms"@ {
                        Some(true)
                    } else {
                        match parent_spec(dir) {
                            None => None,
                            Some(gp) => {
                                let gp_name = name_or_empty(gp);
                                if gp_name == "fleets"@ || gp_name == "teams"@ || gp_name
                                    == "platforms"@ {
                                    Some(true)
                                } else if (gp_name == "labels"@ || gp_name == "lib"@) && (
                                match parent_spec(gp) {
                                    Some(ggp) => match parent_spec(ggp) {
                                        Some(g3) => name_or_empty(g3) == "platforms"@,
                                        None => false,
                                    },
                                    None => false,
                                }) {
                                    Some(true)
                                } else {
                                    None
                                }
                            },
                        }
                    }
                },
            }
        },
    }
}

/// A file without a `yml` or `yaml` extension is never a Fleet GitOps YAML
/// file, and one with such an extension is never ruled out by its path. A
/// YAML file directly inside a directory named `fleets`, `teams`, `lib`,
/// `labels` or `platforms`, or one level below a directory named `fleets`,
/// `teams` or `platforms`, is one by its path alone, as are the YAML files
/// named `default.yml` or `team.yml`.
pub proof fn lemma_fleet_yaml_locations(path: Seq<char>, dir: Seq<char>, gp: Seq<char>)
    ensures
        extension_spec(path) != Some("yml"@) && extension_spec(path) != Some("yaml"@)
            ==> fleet_yaml_by_path_spec(path) == Some(false),
        extension_spec(path) == Some("yml"@) || extension_spec(path) == Some("yaml"@)
            ==> fleet_yaml_by_path_spec(path) != Some(false),
        (extension_spec(path) == Some("yml"@) || extension_spec(path) == Some("yaml"@))
            && (file_name_spec(path) == Some("default.yml"@) || file_name_spec(path) == Some(
            "team.yml"@,
        )) ==> fleet_yaml_by_path_spec(path) == Some(true),
        (extension_spec(path) == Some("yml"@) || extension_spec(path) == Some("yaml"@))
            && parent_spec(path) == Some(dir) && (name_or_empty(dir) == "fleets"@ || name_or_empty(
            dir,
        ) == "teams"@ || name_or_empty(dir) == "lib"@ || name_or_empty(dir) == "labels"@
            || name_or_empty(dir) == "platforms"@) ==> fleet_yaml_by_path_spec(path) == Some(
            true,
        ),
        (extension_spec(path) == Some("yml"@) || extension_spec(path) == Some("yaml"@))
            && parent_spec(path) == Some(dir) && parent_spec(dir) == Some(gp) && (name_or_empty(gp)
            == "fleets"@ || name_or_empty(gp) == "teams"@ || name_or_empty(gp) == "platforms"@)
            ==> fleet_yaml_by_path_spec(path) == Some(true),
{
}

/// What the path alone says of whether `path` is a Fleet GitOps YAML file.
pub fn fleet_yaml_by_path(path: &str) -> (r: Option<bool>)
    ensures
        r == fleet_yaml_by_path_spec(path@),
{
    let p = to_chars(path);
    let ext = match extension(&p) {
        Some(e) => e,
        None => return Some(false),
    };
    if !crate::text::eq_str(&ext, "yml") && !crate::text::eq_str(&ext, "yaml") {
        return Some(false);
    }
    match file_name(&p) {
        Some(name) => {
            if crate::text::eq_str(&name, "default.yml") || crate::text::eq_str(&name, "team.yml")
                || contains_str(&name, "policies") || contains_str(&name, "queries")
                || contains_str(&name, "labels") {
                return Some(true);
            }
        },
        None => {},
    }
    let dir = match parent(&p) {
        Some(d) => d,
        None => return None,
    };
    let dir_name = file_name_or_empty(&dir);
    if crate::text::eq_str(&dir_name, "fleets") || crate::text::eq_str(&dir_name, "teams")
        || crate::text::eq_str(&dir_name, "lib") || crate::text::eq_str(&dir_name, "labels")
        || crate::text::eq_str(&dir_name, "platforms") {
        return Some(true);
    }
    let gp = match parent(&dir) {
        Some(g) => g,
        None => return None,
    };
    let gp_name = file_name_or_empty(&gp);
    if crate::text::eq_str(&gp_name, "fleets") || crate::text::eq_str(&gp_name, "teams")
        || crate::text::eq_str(&gp_name, "platforms") {
        return Some(true);
    }
    if crate::text::eq_str(&gp_name, "labels") || crate::text::eq_str(&gp_name, "lib") {
        match parent(&gp) {
            Some(ggp) => match parent(&ggp) {
                Some(g3) => {
                    if crate::text::eq_str(&file_name_or_empty(&g3), "platforms") {
                        return Some(true);
                    }
                },
                None => {},
            },
            None => {},
        }
    }
    None
}

/// Whether the first ten lines of `content` declare Fleet GitOps sections.
pub open spec fn fleet_content_spec(content: Seq<char>) -> bool {
    let head = crate::fleet::head_lines(content, 10);
    has_substr(head, "policies:"@) || has_substr(head, "queries:"@) || has_substr(
        head,
        "reports:"@,
    ) || has_substr(head, "labels:"@) || has_substr(head, "agent_options:"@) || has_substr(
        head,
        "controls:"@,
    )
}

/// Whether the first ten lines of `content` declare Fleet GitOps sections.
pub fn looks_like_fleet_content(content: &str) -> (r: bool)
    ensures
        r == fleet_content_spec(content@),
{
    let head = crate::fleet::head_lines_of(content, 10);
    contains_str(&head, "policies:") || contains_str(&head, "queries:") || contains_str(
        &head,
        "reports:",
    ) || contains_str(&head, "labels:") || contains_str(&head, "agent_options:")
        || contains_str(&head, "controls:")
}

} // verus!
