use flint::lint_error::{LintError, Severity};
use flint::paths::normalize_path;
use flint::self_reference::{path_values, self_reference_targets, SelfReferenceRule};
use tempfile::{Builder, TempDir};

/// Creates directory `name` (exactly that name) inside `parent`.
fn make_dir(parent: &std::path::Path, name: &str) -> std::path::PathBuf {
    Builder::new()
        .prefix(name)
        .rand_bytes(0)
        .tempdir_in(parent)
        .unwrap()
        .keep()
}

/// Creates an empty file `name` (exactly that name) inside `dir`.
fn make_file(dir: &std::path::Path, name: &str) {
    let (stem, ext) = name.split_at(name.rfind('.').unwrap());
    let file = Builder::new()
        .prefix(stem)
        .suffix(ext)
        .rand_bytes(0)
        .tempfile_in(dir)
        .unwrap();
    file.keep().unwrap();
}

/// The canonical form of `p`, when the disk has one.
fn canonical(p: &str) -> Option<String> {
    std::path::Path::new(p)
        .canonicalize()
        .ok()
        .and_then(|c| c.to_str().map(|s| s.to_string()))
}

/// What the disk answers for the path values of `source` in `file`.
fn answers(file: &str, source: &str) -> Vec<(Option<String>, Option<String>)> {
    path_values(source)
        .unwrap_or_default()
        .iter()
        .map(|v| match self_reference_targets(file, v) {
            Some((f, t)) => (canonical(&f), canonical(&t)),
            None => (None, None),
        })
        .collect()
}

fn check(file: &str, source: &str) -> Vec<LintError> {
    SelfReferenceRule.check(file, source, &answers(file, source))
}

/// Writes `yaml` as `dir/sub/name` (creating `sub`) and checks it.
fn check_with_file(dir: &std::path::Path, sub: Option<&str>, name: &str, yaml: &str) -> Vec<LintError> {
    let parent = match sub {
        Some(s) => make_dir(dir, s),
        None => dir.to_path_buf(),
    };
    make_file(&parent, name);
    let file_path = parent.join(name);
    check(file_path.to_str().unwrap(), yaml)
}

#[test]
fn test_self_reference_detected() {
    let tmp = TempDir::new().unwrap();
    let yaml = "policies:\n  - path: ./self.yml\n";
    let errors = check_with_file(tmp.path(), None, "self.yml", yaml);
    assert_eq!(errors.len(), 1);
    assert!(errors[0].message.contains("path references the file itself"));
    assert_eq!(errors[0].severity, Severity::Warning);
}

#[test]
fn test_relative_self_reference() {
    let tmp = TempDir::new().unwrap();
    let yaml = "policies:\n  - path: ../teams/t.yml\n";
    let errors = check_with_file(tmp.path(), Some("teams"), "t.yml", yaml);
    assert_eq!(errors.len(), 1);
}

#[test]
fn test_valid_reference_no_warning() {
    let tmp = TempDir::new().unwrap();
    let lib = make_dir(tmp.path(), "lib");
    make_file(&lib, "other.yml");

    let yaml = "policies:\n  - path: ../lib/other.yml\n";
    let errors = check_with_file(tmp.path(), Some("teams"), "t.yml", yaml);
    assert_eq!(errors.len(), 0);
}

#[test]
fn test_multiple_paths_one_self_ref() {
    let tmp = TempDir::new().unwrap();
    let lib = make_dir(tmp.path(), "lib");
    make_file(&lib, "other.yml");

    let yaml = "policies:\n  - path: ./self.yml\n  - path: ../lib/other.yml\n";
    let errors = check_with_file(tmp.path(), None, "self.yml", yaml);
    assert_eq!(errors.len(), 1);
}

#[test]
fn test_nested_path_detected() {
    let tmp = TempDir::new().unwrap();
    let yaml = r#"
controls:
  scripts:
    - name: "Install Santa"
      path: ./deploy.yml
"#;
    let errors = check_with_file(tmp.path(), None, "deploy.yml", yaml);
    assert_eq!(errors.len(), 1);
}

#[test]
fn test_no_path_keys() {
    let tmp = TempDir::new().unwrap();
    let yaml = "policies:\n  - name: test\n    query: SELECT 1;\n";
    let errors = check_with_file(tmp.path(), None, "test.yml", yaml);
    assert_eq!(errors.len(), 0);
}

#[test]
fn test_normalize_path() {
    assert_eq!(normalize_path("teams/../teams/../teams/b.yml"), "teams/b.yml");
    assert_eq!(normalize_path("a/./b/../c.yml"), "a/c.yml");
}

#[test]
fn finding_is_located_at_the_value() {
    let tmp = TempDir::new().unwrap();
    let yaml = "policies:\n  - name: x\n    path: \"./loop.yml\"\n";
    let errors = check_with_file(tmp.path(), None, "loop.yml", yaml);
    assert_eq!(errors.len(), 1);
    let e = &errors[0];
    assert_eq!(e.message, "path references the file itself, creating a loop");
    assert_eq!(e.context.as_deref(), Some("path: ./loop.yml"));
    assert_eq!(
        e.help.as_deref(),
        Some("This path resolves to the current file. Change it to reference a different file.")
    );
    assert_eq!(e.line, Some(3));
    assert_eq!(e.column, Some(12));
}

#[test]
fn missing_files_compare_lexically() {
    // Neither file exists: the paths are compared after normalization.
    let errors = check("/nonexistent-root/x/a.yml", "path: ../x/./a.yml\n");
    assert_eq!(errors.len(), 1);
    let rule = SelfReferenceRule;
    assert_eq!(rule.name(), "self-reference");
    assert_eq!(rule.category(), "structural");
    assert_eq!(rule.default_severity(), Severity::Warning);
}

#[test]
fn normalizing_twice_changes_nothing() {
    for p in [
        "teams/../teams/../teams/b.yml",
        "a/./b/../c.yml",
        "../../x/./y/..",
        "/../a//b/./",
        "./lib/../..",
        "",
        "/",
    ] {
        let once = normalize_path(p);
        assert_eq!(normalize_path(&once), once, "input {p:?}");
    }
    assert_eq!(normalize_path("/../a//b/./"), "/../a/b");
    assert_eq!(normalize_path("./lib/../.."), "..");
}

#[test]
fn targets_and_non_yaml() {
    assert_eq!(
        self_reference_targets("teams/t.yml", "../teams/t.yml"),
        Some(("teams/t.yml".to_string(), "teams/../teams/t.yml".to_string()))
    );
    assert_eq!(self_reference_targets("/", "x.yml"), None);
    assert!(path_values("a: [b").is_none());
    assert!(check("/x/a.yml", "a: [b").is_empty());
    assert_eq!(
        path_values("policies:\n  - path: a.yml\n  - x:\n      path: b.yml\n").unwrap(),
        vec!["a.yml".to_string(), "b.yml".to_string()]
    );
    // With canonical answers, they decide.
    let canon = vec![(Some("/r/a.yml".to_string()), Some("/r/a.yml".to_string()))];
    assert_eq!(SelfReferenceRule.check("/x/a.yml", "path: other.yml\n", &canon).len(), 1);
}
