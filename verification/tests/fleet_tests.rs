use flint::fleet::{
    hint_for_error, is_noise, looks_like_gitops_root, parse_names_from_yaml, GitOpsReport,
};

#[test]
fn test_gitops_report_success() {
    let output = r#"[+] would create label "New Label"
[~] would update query "Existing Query"
"#;
    let report = GitOpsReport::from_output(output, true);
    assert!(report.success);
    assert!(report.errors.is_empty());
    assert!(report.summary.contains("2 change(s)"));
}

#[test]
fn test_gitops_report_with_errors() {
    let output = r#"Error: duplicate policy name "Disk Encryption"
Error: unknown team "nonexistent"
"#;
    let report = GitOpsReport::from_output(output, false);
    assert!(!report.success);
    assert_eq!(report.errors.len(), 2);
    assert!(report.errors[0].message.contains("duplicate policy"));
    assert!(report.errors[0].hint.as_ref().unwrap().contains("Rename"));
    assert!(report.errors[1].message.contains("unknown team"));
    assert!(report.errors[1]
        .hint
        .as_ref()
        .unwrap()
        .contains("doesn't exist"));
}

#[test]
fn test_gitops_error_hints() {
    // 401 unauthorized → expired token
    let output = "Error: 401 unauthorized";
    let report = GitOpsReport::from_output(output, false);
    assert!(report.errors[0].hint.as_ref().unwrap().contains("expired"));
    assert!(!report.errors[0].noise);

    // Connection refused
    let output = "Error: connection refused";
    let report = GitOpsReport::from_output(output, false);
    assert!(report.errors[0].hint.as_ref().unwrap().contains("reach"));

    // No hint for generic error
    let output = "Error: something unexpected happened";
    let report = GitOpsReport::from_output(output, false);
    assert!(report.errors[0].hint.is_none());
}

#[test]
fn test_gitops_noise_filtered() {
    // EULA 403 is noise — report should pass
    let output = "Error: error deleting EULA: getting eula metadata: GET /api/latest/fleet/setup_experience/eula/metadata received status 403 forbidden: forbidden";
    let report = GitOpsReport::from_output(output, false);
    assert!(report.success, "EULA 403 should be treated as noise");
    assert_eq!(report.errors.len(), 1);
    assert!(report.errors[0].noise);
    assert!(report.summary.contains("ignored"));

    // Real error mixed with noise — report should fail
    let output = "Error: error deleting EULA: received status 403 forbidden\nError: duplicate policy name \"test\"";
    let report = GitOpsReport::from_output(output, false);
    assert!(!report.success, "Real error should still fail");
    assert_eq!(report.errors.len(), 2);
    assert!(report.errors[0].noise);
    assert!(!report.errors[1].noise);
}

#[test]
fn test_gitops_report_empty_success() {
    let report = GitOpsReport::from_output("", true);
    assert!(report.success);
    assert!(report.errors.is_empty());
    assert_eq!(report.summary, "No changes detected");
}

#[test]
fn test_gitops_report_failure_no_error_keyword() {
    let output = "invalid YAML in file default.yml";
    let report = GitOpsReport::from_output(output, false);
    assert!(!report.success);
    assert_eq!(report.errors.len(), 1);
}

#[test]
fn test_parse_names_from_yaml() {
    let yaml = r#"---
apiVersion: v1
kind: label
spec:
  name: "Production"
---
apiVersion: v1
kind: label
spec:
  name: "Staging"
"#;
    let names = parse_names_from_yaml(yaml);
    assert_eq!(names, vec!["Production", "Staging"]);
}

#[test]
fn report_summaries_exact() {
    let report = GitOpsReport::from_output("Error: timeout\nError: tls handshake", false);
    assert_eq!(report.summary, "2 error(s)");
    let report = GitOpsReport::from_output(
        "Error: setup_experience 403\r\n[+] would create x\r\n",
        false,
    );
    assert!(report.success);
    assert_eq!(report.summary, "1 change(s) would be applied");
    let report = GitOpsReport::from_output("  \n\n", false);
    assert!(!report.success);
    assert!(report.errors.is_empty());
    assert_eq!(report.summary, "0 error(s)");
    let report = GitOpsReport::from_output("Error: eula 404 gone", false);
    assert_eq!(report.summary, "Passed (1 known fleetctl issue(s) ignored)");
    // A summary line that mentions an error is not an error line.
    let report = GitOpsReport::from_output("[-] error policy removed", true);
    assert!(report.errors.is_empty());
    assert_eq!(report.summary, "1 change(s) would be applied");
}

#[test]
fn hints_cover_each_pattern() {
    assert!(hint_for_error("HTTP 403 Forbidden").unwrap().contains("permission"));
    assert!(hint_for_error("no such host fleet.example").unwrap().contains("reach"));
    assert!(hint_for_error("x509: certificate signed by unknown authority").unwrap().contains("TLS"));
    assert!(hint_for_error("context deadline: Timeout").unwrap().contains("timed out"));
    assert!(hint_for_error("team not found").unwrap().contains("doesn't exist"));
    assert!(hint_for_error("yaml: unmarshal errors").unwrap().contains("YAML"));
    assert!(hint_for_error("YAML looks fine").is_none());
    assert!(hint_for_error("env var FLEET_URL missing").unwrap().contains("fleet.env"));
    assert!(hint_for_error("").is_none());
    assert!(is_noise("EULA returned 404"));
    assert!(!is_noise("EULA returned 500"));
    assert!(!is_noise("setup_experience 404"));
}

#[test]
fn names_strip_quotes_and_skip_empty() {
    let names = parse_names_from_yaml("name: 'Single'\n  name:   \n name: \"\"\nnames: x\nname:Plain");
    assert_eq!(names, vec!["Single", "Plain"]);
}

#[test]
fn gitops_root_detection() {
    assert!(looks_like_gitops_root("name: Global\npolicies:\n  - name: test"));
    assert!(!looks_like_gitops_root("software:\n  packages:\n    - path: foo.yml"));
    // Only the first five lines count.
    assert!(!looks_like_gitops_root("name: x\na\nb\nc\nd\npolicies:"));
    assert!(looks_like_gitops_root("name: x\na\nb\nc\ncontrols:"));
}

#[test]
fn test_resource_cache_staleness() {
    let mut cache = flint::fleet::ResourceCache::default();
    assert!(!cache.is_stale());

    // Simulate stale cache
    cache.last_fetched = std::time::Instant::now() - std::time::Duration::from_secs(600);
    assert!(cache.is_stale());
}

#[test]
fn gitops_root_search_names() {
    assert_eq!(flint::fleet::default_config_path("repo"), "repo/default.yml");
    assert_eq!(flint::fleet::default_config_path("repo/"), "repo/default.yml");
    assert_eq!(flint::fleet::default_config_path(""), "default.yml");
    assert!(flint::fleet::is_yml_file("fleets/workstations.yml"));
    assert!(!flint::fleet::is_yml_file("fleets/workstations.yaml"));
    assert!(!flint::fleet::is_yml_file("dir/.yml"));
    assert!(!flint::fleet::is_yml_file("dir/yml"));
}

#[test]
fn fleetctl_config_text() {
    assert_eq!(
        flint::fleet::fleetctl_config("https://fleet.example.com", "tok"),
        "contexts:\n  default:\n    address: https://fleet.example.com\n    token: tok\n    tls-skip-verify: false\n"
    );
}

#[test]
fn hints_ignore_ascii_case() {
    for m in ["Error: 401 UNAUTHORIZED", "EULA 403", "Duplicate Policy name", "all fine"] {
        let lower = m.to_lowercase();
        assert_eq!(hint_for_error(m), hint_for_error(&lower));
        assert_eq!(is_noise(m), is_noise(&lower));
    }
    let cache = flint::fleet::ResourceCache::fetched_now(Vec::new(), Vec::new(), Vec::new());
    assert_eq!(cache.refresh_interval, std::time::Duration::from_secs(300));
    let cache = flint::fleet::ResourceCache::default();
    assert_eq!(cache.refresh_interval.as_nanos(), 300_000_000_000);
}
