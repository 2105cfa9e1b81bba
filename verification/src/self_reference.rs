//! Self-reference detection rule.
//!
//! Detects `path:` references that resolve back to the file itself, which
//! would create infinite loops during Fleet GitOps processing.
use vstd::prelude::*;

use crate::lint_error::{lint_error_views, warning_spec, LintError, LintErrorView, Severity};
use crate::paths::{
    join, normalize_components, normalize_spec, parent, parent_spec, path_join,
    paths_equal, render_components, same_path,
};
use crate::text::{
    byte_len, byte_len_prefix_usize, find, find_spec, has_prefix, lines_of, lines_spec, opt_view, push_str, slice_of, starts_with_str, string_of, strip_lead, strip_lead_chars, strip_trail, strip_trail_chars, to_chars, trim, trim_chars, trim_start, trim_start_chars, views,
};

verus! {

// ---------------------------------------------------------------------------
// YAML documents
// ---------------------------------------------------------------------------

/// A YAML value, as far as the rule reads it.
#[derive(Debug)]
pub enum YamlNode {
    /// A mapping, its entries in document order.
    Mapping(Vec<(YamlNode, YamlNode)>),
    Sequence(Vec<YamlNode>),
    String(String),
    /// Any other scalar or tagged value.
    Other,
}

/// The `path` string of a mapping: the value of its `path` key when that
/// value is a string.
pub open spec fn mapping_path(entries: Seq<(YamlNode, YamlNode)>) -> Option<Seq<char>> {
    first_path_value(entries, 0)
}

/// The value under the first string key `path` at or after `k`, when it is a string.
pub open spec fn first_path_value(entries: Seq<(YamlNode, YamlNode)>, k: int) -> Option<Seq<char>>
    decreases entries.len() - k,
{
    if k < 0 || k >= entries.len() {
        None
    } else if entries[k].0 matches YamlNode::String(key) && key@ == "path"@ {
        match entries[k].1 {
            YamlNode::String(v) => Some(v@),
            _ => None,
        }
    } else {
        first_path_value(entries, k + 1)
    }
}

/// The `path` strings of `node` and everything below it, in document order
/// (a mapping's own `path` before those of its values).
pub open spec fn node_paths(node: YamlNode) -> Seq<Seq<char>>
    decreases node, 0nat,
{
    match node {
        YamlNode::Mapping(entries) => {
            let own = match mapping_path(entries@) {
                Some(v) => seq![v],
                None => seq![],
            };
            own + entry_paths(entries@, entries@.len())
        },
        YamlNode::Sequence(items) => item_paths(items@, items@.len()),
        _ => seq![],
    }
}

/// The `path` strings below the values of `entries[..k]`.
pub open spec fn entry_paths(entries: Seq<(YamlNode, YamlNode)>, k: nat) -> Seq<Seq<char>>
    decreases entries, k,
{
    if k == 0 || k > entries.len() {
        seq![]
    } else {
        entry_paths(entries, (k - 1) as nat) + node_paths(entries[k - 1].1)
    }
}

/// The `path` strings below `items[..k]`.
pub open spec fn item_paths(items: Seq<YamlNode>, k: nat) -> Seq<Seq<char>>
    decreases items, k,
{
    if k == 0 || k > items.len() {
        seq![]
    } else {
        item_paths(items, (k - 1) as nat) + node_paths(items[k - 1])
    }
}

fn mapping_path_of(entries: &Vec<(YamlNode, YamlNode)>) -> (r: Option<Vec<char>>)
    ensures
        r matches Some(v) ==> mapping_path(entries@) == Some(v@),
        r is None ==> mapping_path(entries@) is None,
{
    let mut k: usize = 0;
    while k < entries.len()
        invariant
            k <= entries.len(),
            mapping_path(entries@) == first_path_value(entries@, k as int),
        decreases entries.len() - k,
    {
        let is_path_key = match &entries[k].0 {
            YamlNode::String(key) => crate::text::str_eq(key.as_str(), "path"),
            _ => false,
        };
        if is_path_key {
            return match &entries[k].1 {
                YamlNode::String(v) => Some(to_chars(v.as_str())),
                _ => None,
            };
        }
        k += 1;
    }
    None
}

/// Collects the `path` strings of `node` in document order onto `out`.
pub fn collect_paths(node: &YamlNode, out: &mut Vec<String>)
    ensures
        views_of(final(out)@) == views_of(old(out)@) + node_paths(*node),
    decreases node, 0nat,
{
    match node {
        YamlNode::Mapping(entries) => {
            let ghost start = views_of(out@);
            match mapping_path_of(entries) {
                Some(v) => {
                    out.push(string_of(&v));
                },
                None => {},
            }
            let ghost own = views_of(out@);
            assert(own == start + match mapping_path(entries@) {
                Some(v) => seq![v],
                None => seq![],
            });
            let mut k: usize = 0;
            while k < entries.len()
                invariant
                    k <= entries.len(),
                    *node == YamlNode::Mapping(*entries),
                    views_of(out@) == own + entry_paths(entries@, k as nat),
                decreases entries.len() - k,
            {
                proof {
                    assert(decreases_to!(*node => (*node)->Mapping_0));
                    assert(decreases_to!(*entries => entries@));
                    assert(decreases_to!(entries@ => entries@[k as int]));
                    assert(decreases_to!(entries@[k as int] => entries@[k as int].1));
                    assert(decreases_to!(*node => entries@[k as int].1));
                }
                collect_paths(&entries[k].1, out);
                k += 1;
                assert(views_of(out@) =~= own + entry_paths(entries@, k as nat));
            }
            assert(views_of(out@) =~= start + node_paths(*node));
        },
        YamlNode::Sequence(items) => {
            let ghost start = views_of(out@);
            let mut k: usize = 0;
            while k < items.len()
                invariant
                    k <= items.len(),
                    *node == YamlNode::Sequence(*items),
                    views_of(out@) == start + item_paths(items@, k as nat),
                decreases items.len() - k,
            {
                proof {
                    assert(decreases_to!(*node => (*node)->Sequence_0));
                    assert(decreases_to!(*items => items@));
                    assert(decreases_to!(items@ => items@[k as int]));
                    assert(decreases_to!(*node => items@[k as int]));
                }
                collect_paths(&items[k], out);
                k += 1;
                assert(views_of(out@) =~= start + item_paths(items@, k as nat));
            }
        },
        _ => {
            assert(views_of(out@) =~= views_of(out@) + node_paths(*node));
        },
    }
}

pub open spec fn views_of(v: Seq<String>) -> Seq<Seq<char>> {
    v.map_values(|s: String| s@)
}

// ---------------------------------------------------------------------------
// Self references
// ---------------------------------------------------------------------------

/// Whether `path_value`, resolved against the directory of `file`, names
/// `file` itself. `canon_file` and `canon_resolved` are the canonical forms of
/// the two paths when the file system gives both; otherwise the paths are
/// compared after lexical normalization.
pub open spec fn self_reference_spec(
    file: Seq<char>,
    path_value: Seq<char>,
    canon_file: Option<Seq<char>>,
    canon_resolved: Option<Seq<char>>,
) -> bool {
    match parent_spec(file) {
        None => false,
        Some(base) => match (canon_file, canon_resolved) {
            (Some(cf), Some(cr)) => same_path(cf, cr),
            _ => same_path(normalize_spec(file), normalize_spec(path_join(base, path_value))),
        },
    }
}

fn normalized(p: &Vec<char>) -> (r: Vec<char>)
    ensures
        r@ == normalize_spec(p@),
{
    let cs = crate::paths::components(p);
    let n = normalize_components(&cs);
    render_components(&n)
}

/// The two paths whose canonical forms decide whether `path_value` refers
/// to `file`: the file itself and the value resolved against its directory;
/// none when the file has no directory.
pub fn self_reference_targets(file: &str, path_value: &str) -> (r: Option<(String, String)>)
    ensures
        match parent_spec(file@) {
            None => r is None,
            Some(b) => r matches Some((f, t)) && f@ == file@ && t@ == path_join(b, path_value@),
        },
{
    let f = to_chars(file);
    match parent(&f) {
        Some(base) => {
            let resolved = join(&base, &to_chars(path_value));
            Some((string_of(&f), string_of(&resolved)))
        },
        None => None,
    }
}

/// Check whether `path_value` (relative to `file`'s parent dir) resolves to
/// `file` itself, given what the file system answered for the two paths of
/// [`self_reference_targets`]: their canonical forms, when it has them. With
/// both, they are compared; otherwise the paths are compared after lexical
/// normalization.
pub fn is_self_reference(
    file: &str,
    path_value: &str,
    canon_file: Option<&str>,
    canon_resolved: Option<&str>,
) -> (r: bool)
    ensures
        r == self_reference_spec(
            file@,
            path_value@,
            crate::version_gate::opt_str_view(canon_file),
            crate::version_gate::opt_str_view(canon_resolved),
        ),
{
    let f = to_chars(file);
    let base = match parent(&f) {
        Some(b) => b,
        None => return false,
    };
    match (canon_file, canon_resolved) {
        (Some(cf), Some(cr)) => paths_equal(&to_chars(cf), &to_chars(cr)),
        _ => {
            let resolved = join(&base, &to_chars(path_value));
            paths_equal(&normalized(&f), &normalized(&resolved))
        },
    }
}

/// The text after `path:` or `- path:` on a line (leading whitespace ignored).
pub open spec fn after_path_key(line: Seq<char>) -> Option<Seq<char>> {
    let t = trim_start(line);
    if has_prefix(t, "path:"@) {
        Some(t.skip("path:"@.len() as int))
    } else if has_prefix(t, "- path:"@) {
        Some(t.skip("- path:"@.len() as int))
    } else {
        None
    }
}

/// A `path:` value with optional surrounding quotes removed.
pub open spec fn unquote(v: Seq<char>) -> Seq<char> {
    strip_trail(strip_lead(strip_trail(strip_lead(trim(v), '"'), '"'), '\''), '\'')
}

/// 1-based line and column of `path_value` on a line that is
/// `path: <value>` for it, if any such line exists.
pub open spec fn path_value_location(lines: Seq<Seq<char>>, path_value: Seq<char>, k: nat) -> (
    Option<nat>,
    Option<nat>,
)
    decreases lines.len() - k,
{
    if k >= lines.len() {
        (None, None)
    } else {
        let line = lines[k as int];
        match after_path_key(line) {
            Some(rest) => if unquote(rest) == path_value {
                match find_spec(line, path_value) {
                    Some(i) => (Some(k + 1), Some(byte_len(line.take(i)) + 1)),
                    None => match find_spec(line, ":"@) {
                        Some(c) => (Some(k + 1), Some(byte_len(line.take(c)) + 3)),
                        None => (Some(k + 1), Some(1)),
                    },
                }
            } else {
                path_value_location(lines, path_value, k + 1)
            },
            None => path_value_location(lines, path_value, k + 1),
        }
    }
}

/// Both key forms are path lines: a line whose text after its leading
/// whitespace is `path:` or `- path:` followed by `rest` has the value
/// text `rest`; a line that starts (after whitespace) with neither is no path
/// line.
pub proof fn lemma_path_key_forms(line: Seq<char>, rest: Seq<char>)
    ensures
        trim_start(line) == "path:"@ + rest ==> after_path_key(line) == Some(rest),
        trim_start(line) == "- path:"@ + rest ==> after_path_key(line) == Some(rest),
        !has_prefix(trim_start(line), "path:"@) && !has_prefix(trim_start(line), "- path:"@)
            ==> after_path_key(line) is None,
{
    reveal_strlit("path:");
    reveal_strlit("- path:");
    let t = trim_start(line);
    if t == "path:"@ + rest {
        assert(t.take(5) =~= "path:"@);
        assert(t.skip(5) =~= rest);
    }
    if t == "- path:"@ + rest {
        assert(t.take(7) =~= "- path:"@);
        assert(t.skip(7) =~= rest);
        assert(t[0] == '-');
        assert(t.take(5)[0] == '-');
        assert(t.take(5) != "path:"@);
    }
}

/// A value is located whenever some line is a path line for it: the located
/// line and column are both present, and the line is the first such line.
pub proof fn lemma_path_value_located(
    lines: Seq<Seq<char>>,
    path_value: Seq<char>,
    rest: Seq<char>,
    k: nat,
)
    requires
        k < lines.len(),
        after_path_key(lines[k as int]) == Some(rest),
        unquote(rest) == path_value,
    ensures
        path_value_location(lines, path_value, 0).0 is Some,
        path_value_location(lines, path_value, 0).1 is Some,
        (forall|j: int|
            0 <= j < k ==> match #[trigger] after_path_key(lines[j]) {
                Some(r) => unquote(r) != path_value,
                None => true,
            }) ==> path_value_location(lines, path_value, 0).0 == Some(k + 1),
{
    lemma_located_from(lines, path_value, rest, k, 0);
}

proof fn lemma_located_from(
    lines: Seq<Seq<char>>,
    path_value: Seq<char>,
    rest: Seq<char>,
    k: nat,
    m: nat,
)
    requires
        m <= k < lines.len(),
        after_path_key(lines[k as int]) == Some(rest),
        unquote(rest) == path_value,
    ensures
        path_value_location(lines, path_value, m).0 is Some,
        path_value_location(lines, path_value, m).1 is Some,
        (forall|j: int|
            m <= j < k ==> match #[trigger] after_path_key(lines[j]) {
                Some(r) => unquote(r) != path_value,
                None => true,
            }) ==> path_value_location(lines, path_value, m).0 == Some(k + 1),
    decreases k - m,
{
    if m < k {
        lemma_located_from(lines, path_value, rest, k, m + 1);
        if forall|j: int|
            m <= j < k ==> match #[trigger] after_path_key(lines[j]) {
                Some(r) => unquote(r) != path_value,
                None => true,
            } {
            assert(match after_path_key(lines[m as int]) {
                Some(r) => unquote(r) != path_value,
                None => true,
            });
        }
    }
}

fn after_path_key_chars(line: &Vec<char>) -> (r: Option<Vec<char>>)
    ensures
        r matches Some(v) ==> after_path_key(line@) == Some(v@),
        r is None ==> after_path_key(line@) is None,
{
    let t = trim_start_chars(line);
    if starts_with_str(&t, "path:") {
        let p = to_chars("path:");
        let rest = slice_of(&t, p.len(), t.len());
        assert(rest@ =~= t@.skip("path:"@.len() as int));
        Some(rest)
    } else if starts_with_str(&t, "- path:") {
        let p = to_chars("- path:");
        let rest = slice_of(&t, p.len(), t.len());
        assert(rest@ =~= t@.skip("- path:"@.len() as int));
        Some(rest)
    } else {
        None
    }
}

fn unquote_chars(v: &Vec<char>) -> (r: Vec<char>)
    ensures
        r@ == unquote(v@),
{
    let a = strip_lead_chars(&trim_chars(v), '"');
    let b = strip_trail_chars(&a, '"');
    let c = strip_lead_chars(&b, '\'');
    strip_trail_chars(&c, '\'')
}

/// Locate the line and column of a `path:` value in the source text.
/// Returns 1-based `(line, column)`; the column counts bytes.
pub fn find_path_value_line(source: &str, path_value: &str) -> (r: (Option<usize>, Option<usize>))
    requires
        byte_len(source@) + 3 <= usize::MAX,
    ensures
        r.0 matches Some(l) ==> path_value_location(lines_spec(source@), path_value@, 0).0 == Some(
            l as nat,
        ),
        r.0 is None ==> path_value_location(lines_spec(source@), path_value@, 0).0 is None,
        r.1 matches Some(c) ==> path_value_location(lines_spec(source@), path_value@, 0).1 == Some(
            c as nat,
        ),
        r.1 is None ==> path_value_location(lines_spec(source@), path_value@, 0).1 is None,
{
    let chars = to_chars(source);
    let lines = lines_of(&chars);
    let pv = to_chars(path_value);
    let colon = to_chars(":");
    proof {
        crate::text::lemma_lines_bounds(source@);
        crate::text::lemma_byte_len_bounds(source@);
    }
    let ghost ls = lines_spec(source@);
    let mut k: usize = 0;
    while k < lines.len()
        invariant
            k <= lines.len(),
            views(lines@) == ls,
            ls == lines_spec(source@),
            pv@ == path_value@,
            colon@ == ":"@,
            lines@.len() <= source@.len() <= byte_len(source@),
            byte_len(source@) + 3 <= usize::MAX,
            forall|j: int| 0 <= j < ls.len() ==> byte_len(#[trigger] ls[j]) <= byte_len(source@),
            path_value_location(ls, path_value@, 0) == path_value_location(ls, path_value@, k as nat),
        decreases lines.len() - k,
    {
        let line = &lines[k];
        assert(line@ == ls[k as int]);
        match after_path_key_chars(line) {
            Some(rest) => {
                let unquoted = unquote_chars(&rest);
                if crate::text::chars_eq(&unquoted, &pv) {
                    match find(line, &pv) {
                        Some(i) => {
                            proof {
                                crate::text::lemma_byte_len_take_mono(line@, i as int, line@.len() as int);
                                assert(line@.take(line@.len() as int) =~= line@);
                            }
                            let off = byte_len_prefix_usize(line, i);
                            return (Some(k + 1), Some(off + 1));
                        },
                        None => {},
                    }
                    match find(line, &colon) {
                        Some(c) => {
                            proof {
                                crate::text::lemma_byte_len_take_mono(line@, c as int, line@.len() as int);
                                assert(line@.take(line@.len() as int) =~= line@);
                            }
                            let off = byte_len_prefix_usize(line, c);
                            return (Some(k + 1), Some(off + 3));
                        },
                        None => {},
                    }
                    return (Some(k + 1), Some(1));
                }
            },
            None => {},
        }
        k += 1;
    }
    (None, None)
}

// ---------------------------------------------------------------------------
// The rule
// ---------------------------------------------------------------------------

/// The finding for a `path:` value that resolves to the file itself.
pub open spec fn self_reference_finding(
    file: Seq<char>,
    source: Seq<char>,
    path_value: Seq<char>,
) -> LintErrorView {
    let base = LintErrorView {
        context: Some("path: "@ + path_value),
        help: Some(
            "This path resolves to the current file. Change it to reference a different file."@,
        ),
        ..warning_spec("path references the file itself, creating a loop"@, file)
    };
    let loc = path_value_location(lines_spec(source), path_value, 0);
    match loc {
        (Some(l), Some(c)) => LintErrorView {
            line: Some(l as usize),
            column: Some(c as usize),
            ..base
        },
        _ => base,
    }
}

/// The findings for the `path` values `paths[..k]`, given which of them refer
/// to the file itself.
pub open spec fn self_reference_findings(
    file: Seq<char>,
    source: Seq<char>,
    paths: Seq<Seq<char>>,
    is_self: Seq<bool>,
    k: nat,
) -> Seq<LintErrorView>
    decreases k,
{
    if k == 0 {
        seq![]
    } else {
        let r = self_reference_findings(file, source, paths, is_self, (k - 1) as nat);
        if is_self[k - 1] {
            r.push(self_reference_finding(file, source, paths[k - 1]))
        } else {
            r
        }
    }
}

/// What the file system answered for path value `j`: the canonical forms of
/// the file and of the resolved value (none when an answer is missing).
pub open spec fn canon_at(canon: Seq<(Option<String>, Option<String>)>, j: int) -> (
    Option<Seq<char>>,
    Option<Seq<char>>,
) {
    if 0 <= j < canon.len() {
        (opt_view(canon[j].0), opt_view(canon[j].1))
    } else {
        (None, None)
    }
}

/// Which of `paths` refer to `file`, given the file system's answers.
pub open spec fn self_flags(
    file: Seq<char>,
    paths: Seq<Seq<char>>,
    canon: Seq<(Option<String>, Option<String>)>,
) -> Seq<bool> {
    Seq::new(
        paths.len(),
        |j: int| self_reference_spec(file, paths[j], canon_at(canon, j).0, canon_at(canon, j).1),
    )
}

/// Detects `path:` values that resolve back to the file itself, which causes
/// Fleet GitOps to loop or fail silently.
pub struct SelfReferenceRule;

impl SelfReferenceRule {
    pub fn name(&self) -> (r: &'static str)
        ensures
            r@ == "self-reference"@,
    {
        "self-reference"
    }

    pub fn description(&self) -> (r: &'static str)
        ensures
            r@ == "Detects path references that point to the file itself"@,
    {
        "Detects path references that point to the file itself"
    }

    pub fn category(&self) -> (r: &'static str)
        ensures
            r@ == "structural"@,
    {
        "structural"
    }

    pub fn default_severity(&self) -> (r: Severity)
        ensures
            r == Severity::Warning,
    {
        Severity::Warning
    }

    /// The findings for a parsed YAML document `root` of `file` with text
    /// `source`: one warning, located at the value, for each `path` string
    /// (in document order) that resolves to the file itself. `canon[j]` holds
    /// the canonical forms the file system gave for the two paths of
    /// [`self_reference_targets`] of the `j`-th path string (see
    /// [`path_values`]).
    pub fn check_document(
        &self,
        root: &YamlNode,
        file: &str,
        source: &str,
        canon: &Vec<(Option<String>, Option<String>)>,
    ) -> (r: Vec<LintError>)
        requires
            byte_len(source@) + 3 <= usize::MAX,
        ensures
            lint_error_views(r@) == self_reference_findings(
                file@,
                source@,
                node_paths(*root),
                self_flags(file@, node_paths(*root), canon@),
                node_paths(*root).len(),
            ),
    {
        let mut paths: Vec<String> = Vec::new();
        collect_paths(root, &mut paths);
        assert(views_of(paths@) =~= node_paths(*root));
        let ghost ps = node_paths(*root);
        let ghost flags = self_flags(file@, ps, canon@);
        let mut errors: Vec<LintError> = Vec::new();
        let mut k: usize = 0;
        while k < paths.len()
            invariant
                k <= paths.len(),
                views_of(paths@) == ps,
                ps == node_paths(*root),
                flags == self_flags(file@, ps, canon@),
                byte_len(source@) + 3 <= usize::MAX,
                lint_error_views(errors@) == self_reference_findings(file@, source@, ps, flags, k as nat),
            decreases paths.len() - k,
        {
            let pv = paths[k].as_str();
            assert(pv@ == ps[k as int]);
            let (cf, cr): (Option<&str>, Option<&str>) = if k < canon.len() {
                let c = &canon[k];
                (
                    match &c.0 {
                        Some(x) => Some(x.as_str()),
                        None => None,
                    },
                    match &c.1 {
                        Some(x) => Some(x.as_str()),
                        None => None,
                    },
                )
            } else {
                (None, None)
            };
            let hit = is_self_reference(file, pv, cf, cr);
            assert(hit == flags[k as int]);
            let ghost before = errors@;
            if hit {
                let err = self_reference_error(file, source, pv);
                errors.push(err);
                assert(lint_error_views(errors@) =~= lint_error_views(before).push(err@));
            }
            k += 1;
        }
        errors
    }

    /// Check the text `source` of `file`: no findings when it is not YAML,
    /// else those of [`Self::check_document`] for the parsed document, with
    /// `canon` the file system's answers for its path values.
    pub fn check(&self, file: &str, source: &str, canon: &Vec<(Option<String>, Option<String>)>) -> (r:
        Vec<LintError>)
        requires
            byte_len(source@) + 3 <= usize::MAX,
        ensures
            match yaml_tree(source@) {
                None => r@.len() == 0,
                Some(root) => lint_error_views(r@) == self_reference_findings(
                    file@,
                    source@,
                    node_paths(root),
                    self_flags(file@, node_paths(root), canon@),
                    node_paths(root).len(),
                ),
            },
    {
        match parse_yaml(source) {
            Some(root) => self.check_document(&root, file, source, canon),
            None => Vec::new(),
        }
    }
}

/// The `serde_yaml::Value` type.
#[verifier::external_type_specification]
#[verifier::external_body]
pub struct ExYamlValue(serde_yaml::Value);

/// What `serde_yaml::from_str` parses from `s` into a `serde_yaml::Value`,
/// read as a [`YamlNode`] (`None` when `s` is not YAML).
pub uninterp spec fn yaml_tree(s: Seq<char>) -> Option<YamlNode>;

/// The [`YamlNode`] reading of a parsed value: mappings, sequences and
/// strings keep their shape, other values are opaque. This is the
/// conversion half of [`parse_yaml`]; nothing is stated of it on its own.
#[verifier::external_body]
fn yaml_node_of(v: &serde_yaml::Value) -> YamlNode {
    match v {
        serde_yaml::Value::Mapping(m) => YamlNode::Mapping(
            m.iter().map(|(k, v)| (yaml_node_of(k), yaml_node_of(v))).collect(),
        ),
        serde_yaml::Value::Sequence(s) => YamlNode::Sequence(s.iter().map(yaml_node_of).collect()),
        serde_yaml::Value::String(s) => YamlNode::String(s.clone()),
        serde_yaml::Value::Null => YamlNode::Other,
        serde_yaml::Value::Bool(_) => YamlNode::Other,
        serde_yaml::Value::Number(_) => YamlNode::Other,
        serde_yaml::Value::Tagged(_) => YamlNode::Other,
    }
}

/// `serde_yaml::from_str` into a `serde_yaml::Value`, read as a
/// [`YamlNode`]; `None` when the text is not YAML. The parse is a function
/// of the text alone.
#[verifier::external_body]
fn parse_yaml(source: &str) -> (r: Option<YamlNode>)
    ensures
        r == yaml_tree(source@),
{
    match serde_yaml::from_str::<serde_yaml::Value>(source) {
        Ok(v) => Some(yaml_node_of(&v)),
        Err(_) => None,
    }
}

/// The `path` strings of the YAML document `source`, in document order (the
/// values whose canonical answers [`SelfReferenceRule::check`] takes), or
/// `None` when it is not YAML.
pub fn path_values(source: &str) -> (r: Option<Vec<String>>)
    ensures
        match yaml_tree(source@) {
            None => r is None,
            Some(root) => r matches Some(v) && views_of(v@) == node_paths(root),
        },
{
    match parse_yaml(source) {
        Some(root) => {
            let mut paths: Vec<String> = Vec::new();
            collect_paths(&root, &mut paths);
            assert(views_of(paths@) =~= node_paths(root));
            Some(paths)
        },
        None => None,
    }
}

/// The warning for `path_value`, which resolves to `file` itself.
pub fn self_reference_error(file: &str, source: &str, path_value: &str) -> (e: LintError)
    requires
        byte_len(source@) + 3 <= usize::MAX,
    ensures
        e@ == self_reference_finding(file@, source@, path_value@),
{
    let mut context = String::new();
    push_str(&mut context, "path: ");
    push_str(&mut context, path_value);
    let err = LintError::warning("path references the file itself, creating a loop", file)
        .with_context(context)
        .with_help(
        "This path resolves to the current file. Change it to reference a different file.",
    );
    let (line, col) = find_path_value_line(source, path_value);
    match (line, col) {
        (Some(l), Some(c)) => err.with_location(l, c),
        _ => err,
    }
}

} // verus!
