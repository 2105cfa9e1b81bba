//! Version resolution for deprecation gating.
//!
//! The target Fleet version comes from the configuration when it names one,
//! and is otherwise the latest known version.
use vstd::prelude::*;

use crate::text::str_eq;
use crate::version::{parse_version, Version};

verus! {

/// How the version was determined.
#[derive(Debug, Clone, Copy, PartialEq, Eq, Structural)]
pub enum VersionSource {
    /// Explicitly set in `.fleetlint.toml`.
    Config,
    /// Auto-detected from YAML structure.
    Detected,
    /// Default (latest known version).
    Default,
}

/// Resolved version context used by the deprecation rule.
#[derive(Debug, Clone, Copy, PartialEq, Eq, Structural)]
pub struct VersionContext {
    /// The resolved target version.
    pub version: Version,
    /// Where the version came from.
    pub source: VersionSource,
    /// Whether to treat dormant deprecations as active (future naming opt-in).
    pub future_names: bool,
}

/// The latest known Fleet version.
pub open spec fn latest_version_spec() -> Version {
    Version { major: 4, minor: 80, patch: 1 }
}

/// The context of the latest known Fleet version.
pub open spec fn latest_spec() -> VersionContext {
    VersionContext { version: latest_version_spec(), source: VersionSource::Default, future_names: false }
}

/// The context a configured version string selects: `latest` and strings that
/// are not versions select the latest version.
pub open spec fn from_config_spec(s: Seq<char>) -> VersionContext {
    if s == "latest"@ {
        latest_spec()
    } else {
        match parse_version(s) {
            Some(v) => VersionContext { version: v, source: VersionSource::Config, future_names: false },
            None => latest_spec(),
        }
    }
}

/// The context resolved from an optional configured version and the
/// future-names opt-in.
pub open spec fn resolve_spec(config: Option<Seq<char>>, future_names: bool) -> VersionContext {
    let base = match config {
        Some(v) => if v.len() > 0 {
            from_config_spec(v)
        } else {
            latest_spec()
        },
        None => latest_spec(),
    };
    VersionContext { future_names, ..base }
}

pub open spec fn opt_str_view(o: Option<&str>) -> Option<Seq<char>> {
    match o {
        Some(s) => Some(s@),
        None => None,
    }
}

impl VersionContext {
    /// A context that never triggers deprecation warnings: version 0.0.0 keeps
    /// every deprecation dormant.
    pub fn dormant() -> (r: Self)
        ensures
            r == (VersionContext {
                version: Version { major: 0, minor: 0, patch: 0 },
                source: VersionSource::Default,
                future_names: false,
            }),
    {
        VersionContext {
            version: Version::new(0, 0, 0),
            source: VersionSource::Default,
            future_names: false,
        }
    }

    /// Resolve version context from a config string like `"4.80.0"` or `"latest"`.
    pub fn from_config(version_str: &str) -> (r: Self)
        ensures
            r == from_config_spec(version_str@),
    {
        if str_eq(version_str, "latest") {
            return Self::latest();
        }
        match Version::parse(version_str) {
            Some(v) => VersionContext { version: v, source: VersionSource::Config, future_names: false },
            None => Self::latest(),
        }
    }

    /// Create a context with the latest known Fleet version.
    pub fn latest() -> (r: Self)
        ensures
            r == latest_spec(),
    {
        VersionContext {
            version: Version::new(4, 80, 1),
            source: VersionSource::Default,
            future_names: false,
        }
    }

    /// Resolve version context from available sources: the configured value
    /// when present and non-empty, the latest version otherwise.
    pub fn resolve(config_version: Option<&str>, future_names: bool) -> (r: Self)
        ensures
            r == resolve_spec(opt_str_view(config_version), future_names),
    {
        let mut ctx = if let Some(v) = config_version {
            if !v.is_empty() {
                Self::from_config(v)
            } else {
                Self::latest()
            }
        } else {
            Self::latest()
        };
        ctx.future_names = future_names;
        ctx
    }
}

} // verus!
