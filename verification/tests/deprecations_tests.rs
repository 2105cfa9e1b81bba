use flint::deprecations::{
    Deprecation, DeprecationKind, DeprecationPhase, DeprecationRegistry,
};
use flint::version::Version;

fn sample(error_in: Option<Version>) -> Deprecation {
    Deprecation {
        id: "test",
        kind: DeprecationKind::KeyRename {
            old_key: "old",
            new_key: "new",
            context_path: "",
        },
        deprecated_in: Version::new(5, 0, 0),
        error_in,
        removed_in: Some(Version::new(7, 0, 0)),
        description: "test",
        file_patterns: &[],
    }
}

#[test]
fn test_dormant_phase() {
    let dep = sample(Some(Version::new(6, 0, 0)));
    assert_eq!(
        dep.phase_for_version(&Version::new(4, 0, 0)),
        DeprecationPhase::Dormant
    );
    assert_eq!(
        dep.phase_for_version(&Version::new(4, 99, 99)),
        DeprecationPhase::Dormant
    );
}

#[test]
fn test_warning_phase() {
    let dep = sample(Some(Version::new(6, 0, 0)));
    assert_eq!(
        dep.phase_for_version(&Version::new(5, 0, 0)),
        DeprecationPhase::Warning
    );
    assert_eq!(
        dep.phase_for_version(&Version::new(5, 50, 0)),
        DeprecationPhase::Warning
    );
}

#[test]
fn test_error_phase() {
    let dep = sample(Some(Version::new(6, 0, 0)));
    assert_eq!(
        dep.phase_for_version(&Version::new(6, 0, 0)),
        DeprecationPhase::Error
    );
    assert_eq!(
        dep.phase_for_version(&Version::new(6, 50, 0)),
        DeprecationPhase::Error
    );
}

#[test]
fn test_removed_phase() {
    let dep = sample(Some(Version::new(6, 0, 0)));
    assert_eq!(
        dep.phase_for_version(&Version::new(7, 0, 0)),
        DeprecationPhase::Removed
    );
    assert_eq!(
        dep.phase_for_version(&Version::new(8, 0, 0)),
        DeprecationPhase::Removed
    );
}

#[test]
fn test_no_error_in_skips_to_removed() {
    let dep = sample(None);
    // Warning phase spans from 5.0.0 to 7.0.0 (no error phase)
    assert_eq!(
        dep.phase_for_version(&Version::new(6, 0, 0)),
        DeprecationPhase::Warning
    );
    assert_eq!(
        dep.phase_for_version(&Version::new(7, 0, 0)),
        DeprecationPhase::Removed
    );
}

#[test]
fn test_find_deprecated_key() {
    let registry = &DeprecationRegistry::builtin();

    // Should find team_settings at top level
    let dep = registry.find_deprecated_key("team_settings", "");
    assert!(dep.is_some());
    assert_eq!(dep.unwrap().id, "team-settings-to-settings");

    // Should find queries at top level
    let dep = registry.find_deprecated_key("queries", "");
    assert!(dep.is_some());
    assert_eq!(dep.unwrap().id, "queries-to-reports");

    // Should not find unknown keys
    assert!(registry.find_deprecated_key("foobar", "").is_none());

    // Should not match at wrong context path
    assert!(registry
        .find_deprecated_key("team_settings", "org_settings")
        .is_none());
}

#[test]
fn test_find_deprecated_directory() {
    let registry = &DeprecationRegistry::builtin();

    let dep = registry.find_deprecated_directory("teams");
    assert!(dep.is_some());
    assert_eq!(dep.unwrap().id, "teams-dir-to-fleets-dir");

    assert!(registry.find_deprecated_directory("foobar").is_none());
}

#[test]
fn test_active_deprecations_dormant() {
    let registry = &DeprecationRegistry::builtin();

    // Below the grace version, nothing should be active
    let active = registry.active_deprecations(&Version::new(4, 80, 0));
    assert!(
        active.is_empty(),
        "Expected no active deprecations at v4.80.0 (dormant), got {}",
        active.len()
    );
}

#[test]
fn test_active_deprecations_warning() {
    let registry = &DeprecationRegistry::builtin();

    // At v4.85.0 (between deprecated_in=4.80.1 and error_in=4.88.0), all should be active as warnings
    let active = registry.active_deprecations(&Version::new(4, 85, 0));
    assert_eq!(active.len(), 4);
    for dep in &active {
        assert_eq!(
            dep.phase_for_version(&Version::new(4, 85, 0)),
            DeprecationPhase::Warning
        );
    }
}

#[test]
fn test_active_deprecations_error() {
    let registry = &DeprecationRegistry::builtin();

    // At v4.88.0 (error_in version), all should be active as errors
    let active = registry.active_deprecations(&Version::new(4, 88, 0));
    assert_eq!(active.len(), 4);
    for dep in &active {
        assert_eq!(
            dep.phase_for_version(&Version::new(4, 88, 0)),
            DeprecationPhase::Error
        );
    }
}

#[test]
fn active_renames_by_kind() {
    let registry = DeprecationRegistry::builtin();
    let v = Version::new(4, 85, 0);
    let dirs = registry.active_directory_renames(&v);
    assert_eq!(dirs.len(), 1);
    assert_eq!(dirs[0].id, "teams-dir-to-fleets-dir");
    let files = registry.active_file_renames(&v);
    assert_eq!(files.len(), 1);
    assert_eq!(files[0].id, "no-team-to-unassigned");
    assert!(registry.active_directory_renames(&Version::new(4, 80, 0)).is_empty());
    assert_eq!(registry.entries().len(), 4);
}

#[test]
fn phase_never_moves_back() {
    let dep = sample(Some(Version::new(6, 0, 0)));
    let versions = [
        Version::new(4, 0, 0),
        Version::new(5, 0, 0),
        Version::new(5, 99, 1),
        Version::new(6, 0, 0),
        Version::new(6, 0, 1),
        Version::new(7, 0, 0),
        Version::new(9, 1, 2),
    ];
    let rank = |p: DeprecationPhase| match p {
        DeprecationPhase::Dormant => 0,
        DeprecationPhase::Warning => 1,
        DeprecationPhase::Error => 2,
        DeprecationPhase::Removed => 3,
    };
    for w in versions.windows(2) {
        assert!(rank(dep.phase_for_version(&w[0])) <= rank(dep.phase_for_version(&w[1])));
    }
}

#[test]
fn version_parse_and_order() {
    assert_eq!(Version::parse("4.80.1"), Some(Version::new(4, 80, 1)));
    assert_eq!(Version::parse("10.0.07"), Some(Version::new(10, 0, 7)));
    assert_eq!(Version::parse("4.80"), None);
    assert_eq!(Version::parse("4.80.1.2"), None);
    assert_eq!(Version::parse("4..1"), None);
    assert_eq!(Version::parse("v4.80.1"), None);
    assert_eq!(Version::parse("18446744073709551616.0.0"), None);
    assert_eq!(
        Version::parse("18446744073709551615.0.0"),
        Some(Version::new(u64::MAX, 0, 0))
    );
    assert!(Version::new(4, 88, 0).is_at_least(&Version::new(4, 80, 1)));
    assert!(!Version::new(4, 80, 0).is_at_least(&Version::new(4, 80, 1)));
    assert!(Version::new(5, 0, 0).is_at_least(&Version::new(4, 99, 99)));
}
