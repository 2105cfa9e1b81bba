use flint::version::Version;
use flint::version_gate::{VersionContext, VersionSource};

#[test]
fn test_dormant_context() {
    let ctx = VersionContext::dormant();
    assert_eq!(ctx.version, Version::new(0, 0, 0));
    assert_eq!(ctx.source, VersionSource::Default);
}

#[test]
fn test_from_config_version() {
    let ctx = VersionContext::from_config("4.80.1");
    assert_eq!(ctx.version, Version::new(4, 80, 1));
    assert_eq!(ctx.source, VersionSource::Config);
}

#[test]
fn test_from_config_latest() {
    let ctx = VersionContext::from_config("latest");
    assert_eq!(ctx.version, Version::new(4, 80, 1));
    assert_eq!(ctx.source, VersionSource::Default);
}

#[test]
fn test_from_config_invalid() {
    let ctx = VersionContext::from_config("not-a-version");
    // Falls back to latest
    assert_eq!(ctx.version, Version::new(4, 80, 1));
}

#[test]
fn test_resolve_with_config() {
    let ctx = VersionContext::resolve(Some("4.88.0"), false);
    assert_eq!(ctx.version, Version::new(4, 88, 0));
    assert_eq!(ctx.source, VersionSource::Config);
    assert!(!ctx.future_names);
}

#[test]
fn test_resolve_without_config() {
    let ctx = VersionContext::resolve(None, false);
    assert_eq!(ctx.version, Version::new(4, 80, 1));
    assert_eq!(ctx.source, VersionSource::Default);
}

#[test]
fn test_resolve_empty_config() {
    let ctx = VersionContext::resolve(Some(""), false);
    assert_eq!(ctx.version, Version::new(4, 80, 1));
}

#[test]
fn test_resolve_with_future_names() {
    let ctx = VersionContext::resolve(Some("4.80.0"), true);
    assert_eq!(ctx.version, Version::new(4, 80, 0));
    assert!(ctx.future_names);
}

#[test]
fn latest_context_is_default_source() {
    let ctx = VersionContext::latest();
    assert_eq!(ctx.source, VersionSource::Default);
    assert!(!ctx.future_names);
    let ctx = VersionContext::resolve(Some("latest"), true);
    assert_eq!(ctx.source, VersionSource::Default);
    assert!(ctx.future_names);
}

#[test]
fn dormant_context_activates_nothing() {
    let ctx = VersionContext::dormant();
    let registry = flint::deprecations::DeprecationRegistry::builtin();
    assert!(registry.active_deprecations(&ctx.version).is_empty());
    let latest = VersionContext::latest();
    for dep in registry.entries() {
        assert_eq!(
            dep.phase_for_version(&latest.version),
            flint::deprecations::DeprecationPhase::Warning
        );
    }
}
