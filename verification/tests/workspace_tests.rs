use flint::lsp::{DiagnosticSeverity, Position};
use flint::workspace::{
    check_malformed_path, document_links, extract_path_references, extract_path_value,
    fleet_yaml_by_path, get_path_definition, looks_like_fleet_content, path_reference_diagnostic,
    reference_targets, validate_path_references,
};
use tempfile::{Builder, TempDir};

/// Creates directory `name` (exactly that name) inside `parent`.
fn make_dir(parent: &std::path::Path, name: &str) -> std::path::PathBuf {
    Builder::new()
        .prefix(name)
        .rand_bytes(0)
        .tempdir_in(parent)
        .unwrap()
        .keep()
}

/// Creates an empty file `name` (exactly that name) inside `dir`.
fn make_file(dir: &std::path::Path, name: &str) {
    let (stem, ext) = name.split_at(name.rfind('.').unwrap());
    let file = Builder::new()
        .prefix(stem)
        .suffix(ext)
        .rand_bytes(0)
        .tempfile_in(dir)
        .unwrap();
    file.keep().unwrap();
}

/// What the disk says of the file each line references.
fn on_disk(source: &str, file: &str, root: Option<&str>) -> Vec<bool> {
    reference_targets(source, file, root)
        .iter()
        .map(|t| t.as_deref().map(|p| std::path::Path::new(p).exists()).unwrap_or(false))
        .collect()
}

/// What the disk says of the file that line `line` references.
fn on_disk_at(source: &str, file: &str, root: Option<&str>, line: usize) -> bool {
    on_disk(source, file, root).get(line).copied().unwrap_or(false)
}

#[test]
fn test_extract_path_value() {
    assert_eq!(
        extract_path_value("path: lib/policies.yml"),
        Some("lib/policies.yml".to_string())
    );
    assert_eq!(
        extract_path_value("path: \"lib/policies.yml\""),
        Some("lib/policies.yml".to_string())
    );
    assert_eq!(extract_path_value("path:"), None);
    assert_eq!(extract_path_value("name: test"), None);
}

#[test]
fn test_validate_path_references() {
    let temp_dir = TempDir::new().unwrap();

    // Create a referenced file
    let lib_dir = make_dir(temp_dir.path(), "lib");
    make_file(&lib_dir, "policies.yml");

    let source = r#"policies:
  - path: lib/policies.yml
  - path: lib/missing.yml
"#;

    let main_file = temp_dir.path().join("default.yml");

    let diagnostics = validate_path_references(
        source,
        &on_disk(
            source,
            main_file.to_str().unwrap(),
            Some(temp_dir.path().to_str().unwrap()),
        ),
    );

    // Should have 1 diagnostic for the missing file
    assert_eq!(diagnostics.len(), 1);
    assert!(diagnostics[0].message.contains("missing.yml"));
}

#[test]
fn test_check_malformed_path() {
    // Shell source prefix
    let msg = check_malformed_path(". ./lib/scripts/uninstall.sh");
    assert!(msg.is_some());
    assert!(msg.unwrap().contains("./lib/scripts/uninstall.sh"));

    // `source` prefix
    let msg = check_malformed_path("source ./lib/scripts/uninstall.sh");
    assert!(msg.is_some());
    assert!(msg.unwrap().contains("./lib/scripts/uninstall.sh"));

    // Shell interpreter prefix
    let msg = check_malformed_path("bash ./lib/scripts/uninstall.sh");
    assert!(msg.is_some());
    assert!(msg.unwrap().contains("./lib/scripts/uninstall.sh"));

    // Absolute path
    let msg = check_malformed_path("/usr/local/bin/script.sh");
    assert!(msg.is_some());
    assert!(msg.unwrap().contains("absolute"));

    // Path traversal
    let msg = check_malformed_path("../../etc/passwd");
    assert!(msg.is_some());
    assert!(msg.unwrap().contains("traverses"));

    // Valid relative path — no error
    assert!(check_malformed_path("lib/scripts/uninstall.sh").is_none());
    assert!(check_malformed_path("./lib/scripts/uninstall.sh").is_none());
}

#[test]
fn test_malformed_path_diagnostic() {
    let source = r#"controls:
  scripts:
    - path: . ./lib/macos/scripts/_uninstall-santa.sh
"#;
    let diagnostics = validate_path_references(source, &on_disk(source, "/fake/team.yml", None));
    assert_eq!(diagnostics.len(), 1);
    assert!(diagnostics[0].message.contains("shell source command"));
    assert!(diagnostics[0]
        .message
        .contains("./lib/macos/scripts/_uninstall-santa.sh"));
}

#[test]
fn test_extract_path_references() {
    let source = r#"policies:
  - path: lib/policies.yml
  - name: Local Policy
    query: SELECT 1
  - path: lib/more-policies.yml
"#;

    let refs = extract_path_references(
        source,
        "/fake/default.yml",
        "/",
        &on_disk(source, "/fake/default.yml", None),
    );

    assert_eq!(refs.len(), 2);
    assert_eq!(refs[0].path_value, "lib/policies.yml");
    assert_eq!(refs[0].line, 1);
    assert_eq!(refs[1].path_value, "lib/more-policies.yml");
    assert_eq!(refs[1].line, 4);
}

#[test]
fn malformed_messages_exact() {
    assert_eq!(
        check_malformed_path("sh  run.sh ").unwrap(),
        "Path starts with `sh` (shell command). Use the path only: `run.sh`"
    );
    assert_eq!(
        check_malformed_path("/bin/bash x.sh").unwrap(),
        "Path starts with `/bin/bash` (shell command). Use the path only: `x.sh`"
    );
    assert_eq!(
        check_malformed_path("lib/../../x").unwrap(),
        "Path traverses multiple levels up. Verify it stays within the repo root."
    );
    assert!(check_malformed_path("../lib/x.yml").is_none());
}

#[test]
fn diagnostic_ranges_are_byte_offsets() {
    let d = path_reference_diagnostic(2, "  - path: /abs/é.yml", true).unwrap();
    assert_eq!(d.severity, Some(DiagnosticSeverity::Error));
    assert_eq!(d.source.as_deref(), Some("fleet-lint"));
    assert_eq!((d.range.start.line, d.range.start.character), (2, 10));
    assert_eq!(d.range.end.character, 21);
    assert!(path_reference_diagnostic(0, "  - path: lib/x.yml", true).is_none());
    let missing = path_reference_diagnostic(0, "path: 'lib/x.yml'", false).unwrap();
    assert_eq!(missing.message, "Referenced file not found: lib/x.yml");
    assert!(path_reference_diagnostic(0, "name: x", false).is_none());
}

#[test]
fn definitions_and_links() {
    let temp_dir = TempDir::new().unwrap();
    let root = temp_dir.path();
    let lib = make_dir(root, "lib");
    make_file(&lib, "a.yml");
    let source = "policies:\n  - path: lib/a.yml\n  - path: lib/b.yml\n";
    let file = root.join("default.yml");
    let file = file.to_str().unwrap();
    let loc = get_path_definition(
        source,
        Position { line: 1, character: 12 },
        file,
        None,
        on_disk_at(source, file, None, 1),
    );
    assert!(loc.is_some());
    let loc = loc.unwrap();
    assert!(loc.uri.as_str().ends_with("/lib/a.yml"));
    assert_eq!(loc.range.start.line, 0);
    // Cursor on the key, not the value.
    assert!(get_path_definition(source, Position { line: 1, character: 4 }, file, None, true).is_none());
    // Missing file.
    assert!(get_path_definition(
        source,
        Position { line: 2, character: 12 },
        file,
        None,
        on_disk_at(source, file, None, 2),
    )
    .is_none());
    let links = document_links(source, file, None);
    assert_eq!(links.len(), 2);
    assert_eq!(links[0].tooltip, "Open lib/a.yml");
    assert_eq!(links[1].range.start.line, 2);
    // Relative paths have no file URL.
    assert!(document_links(source, "default.yml", None).is_empty());
    let refs = extract_path_references(source, file, "/", &on_disk(source, file, None));
    assert!(refs[0].resolved_path.as_deref().unwrap().ends_with("/lib/a.yml"));
    assert!(refs[1].resolved_path.is_none());
    assert_eq!(refs[0].source_file, file);
}

#[test]
fn fleet_files_by_path_and_content() {
    assert_eq!(fleet_yaml_by_path("x/default.yml"), Some(true));
    assert_eq!(fleet_yaml_by_path("x/notes.txt"), Some(false));
    assert_eq!(fleet_yaml_by_path("README"), Some(false));
    assert_eq!(fleet_yaml_by_path("repo/fleets/workstations.yml"), Some(true));
    assert_eq!(fleet_yaml_by_path("repo/fleets/eng/x.yaml"), Some(true));
    assert_eq!(fleet_yaml_by_path("repo/platforms/macos/lib/x.yml"), Some(true));
    assert_eq!(fleet_yaml_by_path("repo/other/macos/x.yml"), None);
    assert_eq!(fleet_yaml_by_path("a/b/c.yml"), None);
    assert_eq!(fleet_yaml_by_path(".yml"), Some(false));
    assert!(looks_like_fleet_content("agent_options:\n  config: {}"));
    assert!(!looks_like_fleet_content("foo: bar"));
}

#[test]
fn references_resolve_to_absolute_paths() {
    let source = "policies:\n  - path: lib/a.yml\n  - name: x\n";
    let targets = reference_targets(source, "teams/t.yml", None);
    assert_eq!(targets, vec![None, Some("teams/lib/a.yml".to_string()), None]);
    assert_eq!(
        reference_targets(source, "teams/t.yml", Some("/repo"))[1].as_deref(),
        Some("/repo/lib/a.yml")
    );
    let refs = extract_path_references(source, "teams/t.yml", "/work", &vec![false, true, false]);
    assert_eq!(refs.len(), 1);
    assert_eq!(refs[0].resolved_path.as_deref(), Some("/work/teams/lib/a.yml"));
    let refs = extract_path_references(source, "/abs/t.yml", "/work", &vec![false, true, false]);
    assert_eq!(refs[0].resolved_path.as_deref(), Some("/abs/lib/a.yml"));
    let refs = extract_path_references(source, "t.yml", "/work", &vec![false, false, false]);
    assert_eq!(refs[0].resolved_path, None);
    // The link of a path opens that file's URL.
    let links = document_links(source, "/abs/t.yml", None);
    assert_eq!(links[0].target.as_str(), "file:///abs/lib/a.yml");
}
