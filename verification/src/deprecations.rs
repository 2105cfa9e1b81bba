//! Deprecation table and registry for Fleet GitOps key/directory renames.
//!
//! Each entry is gated by version:
//! - **Dormant**: version < `deprecated_in` — no diagnostics
//! - **Warning**: `deprecated_in` <= version < `error_in` — emit warning
//! - **Error**: `error_in` <= version < `removed_in` — emit error
//! - **Removed**: version >= `removed_in` — key is gone, falls through to unknown
use vstd::prelude::*;

use crate::text::str_eq;
use crate::version::{version_ge, Version};

verus! {

/// The kind of deprecation.
#[derive(Debug, Clone, Copy, PartialEq, Eq)]
pub enum DeprecationKind {
    /// A YAML key was renamed.
    KeyRename {
        old_key: &'static str,
        new_key: &'static str,
        /// Dot-separated parent path where this key appears (empty = top level).
        context_path: &'static str,
    },
    /// A directory was renamed.
    DirectoryRename { old_dir: &'static str, new_dir: &'static str },
    /// A file was renamed.
    FileRename { old_name: &'static str, new_name: &'static str },
}

/// Which phase a deprecation is in for a given target version.
#[derive(Debug, Clone, Copy, PartialEq, Eq, Structural)]
pub enum DeprecationPhase {
    /// Not yet active — no diagnostics emitted.
    Dormant,
    /// Active as a warning (grace period).
    Warning,
    /// Active as an error (grace period ended).
    Error,
    /// Fully removed — the old key/dir is no longer recognized at all.
    Removed,
}

/// A single deprecation entry.
#[derive(Debug, Clone, Copy)]
pub struct Deprecation {
    /// Unique identifier, e.g. `"team-settings-to-settings"`.
    pub id: &'static str,
    /// What changed.
    pub kind: DeprecationKind,
    /// Version when warnings start.
    pub deprecated_in: Version,
    /// Version when errors start (grace period end). `None` = no error phase.
    pub error_in: Option<Version>,
    /// Version when the old name is fully removed. `None` = never removed.
    pub removed_in: Option<Version>,
    /// Human-readable description of the change.
    pub description: &'static str,
    /// Glob patterns for files this deprecation applies to (empty = all files).
    pub file_patterns: &'static [&'static str],
}

/// The phase of deprecation `d` at version `t`: the latest threshold that `t`
/// has reached, checked from removal down to the first warning.
pub open spec fn phase_spec(d: Deprecation, t: Version) -> DeprecationPhase {
    if d.removed_in matches Some(r) && version_ge(t, r) {
        DeprecationPhase::Removed
    } else if d.error_in matches Some(e) && version_ge(t, e) {
        DeprecationPhase::Error
    } else if version_ge(t, d.deprecated_in) {
        DeprecationPhase::Warning
    } else {
        DeprecationPhase::Dormant
    }
}

/// Position of a phase in the life of a deprecation.
pub open spec fn phase_rank(p: DeprecationPhase) -> int {
    match p {
        DeprecationPhase::Dormant => 0,
        DeprecationPhase::Warning => 1,
        DeprecationPhase::Error => 2,
        DeprecationPhase::Removed => 3,
    }
}

/// The thresholds of `d` come in order: warning, then error, then removal.
pub open spec fn thresholds_ordered(d: Deprecation) -> bool {
    &&& (d.error_in matches Some(e) ==> version_ge(e, d.deprecated_in))
    &&& (d.removed_in matches Some(r) ==> version_ge(r, d.deprecated_in))
    &&& (d.error_in matches Some(e) && d.removed_in matches Some(r) ==> version_ge(r, e))
}

impl Deprecation {
    /// Determine which phase this deprecation is in for a given target version.
    pub fn phase_for_version(&self, target: &Version) -> (p: DeprecationPhase)
        ensures
            p == phase_spec(*self, *target),
    {
        if let Some(removed) = &self.removed_in {
            if target.is_at_least(removed) {
                return DeprecationPhase::Removed;
            }
        }
        if let Some(error) = &self.error_in {
            if target.is_at_least(error) {
                return DeprecationPhase::Error;
            }
        }
        if target.is_at_least(&self.deprecated_in) {
            return DeprecationPhase::Warning;
        }
        DeprecationPhase::Dormant
    }
}

/// A deprecation never moves back to an earlier phase as the target version grows.
pub proof fn lemma_phase_monotone(d: Deprecation, t1: Version, t2: Version)
    requires
        version_ge(t2, t1),
    ensures
        phase_rank(phase_spec(d, t1)) <= phase_rank(phase_spec(d, t2)),
{
}

/// With ordered thresholds, a deprecation is dormant exactly before `deprecated_in`,
/// removed exactly from `removed_in` on, and in its error phase exactly from
/// `error_in` until removal.
pub proof fn lemma_phase_intervals(d: Deprecation, t: Version)
    requires
        thresholds_ordered(d),
    ensures
        (phase_spec(d, t) == DeprecationPhase::Dormant) <==> !version_ge(t, d.deprecated_in),
        (phase_spec(d, t) == DeprecationPhase::Removed) <==> (d.removed_in matches Some(r)
            && version_ge(t, r)),
        (phase_spec(d, t) == DeprecationPhase::Error) <==> (d.error_in matches Some(e)
            && version_ge(t, e) && !(d.removed_in matches Some(r) && version_ge(t, r))),
{

}

/// Key `key` under parent path `context_path` is the old name renamed by `d`.
pub open spec fn renames_key(d: Deprecation, key: Seq<char>, context_path: Seq<char>) -> bool {
    d.kind matches DeprecationKind::KeyRename { old_key, context_path: cp, .. } && old_key@
        == key && cp@ == context_path
}

/// Directory `dir` is the old name renamed by `d`.
pub open spec fn renames_directory(d: Deprecation, dir: Seq<char>) -> bool {
    d.kind matches DeprecationKind::DirectoryRename { old_dir, .. } && old_dir@ == dir
}

pub open spec fn is_directory_rename(d: Deprecation) -> bool {
    d.kind is DirectoryRename
}

pub open spec fn is_file_rename(d: Deprecation) -> bool {
    d.kind is FileRename
}

/// The entries of `s` that are not dormant at `v`, in order.
pub open spec fn active_in(s: Seq<Deprecation>, v: Version) -> Seq<Deprecation>
    decreases s.len(),
{
    if s.len() == 0 {
        seq![]
    } else {
        let r = active_in(s.drop_last(), v);
        if phase_spec(s.last(), v) != DeprecationPhase::Dormant {
            r.push(s.last())
        } else {
            r
        }
    }
}

/// The directory renames of `s`, in order.
pub open spec fn directory_renames_in(s: Seq<Deprecation>) -> Seq<Deprecation>
    decreases s.len(),
{
    if s.len() == 0 {
        seq![]
    } else {
        let r = directory_renames_in(s.drop_last());
        if is_directory_rename(s.last()) {
            r.push(s.last())
        } else {
            r
        }
    }
}

/// The file renames of `s`, in order.
pub open spec fn file_renames_in(s: Seq<Deprecation>) -> Seq<Deprecation>
    decreases s.len(),
{
    if s.len() == 0 {
        seq![]
    } else {
        let r = file_renames_in(s.drop_last());
        if is_file_rename(s.last()) {
            r.push(s.last())
        } else {
            r
        }
    }
}

proof fn lemma_active_push(s: Seq<Deprecation>, d: Deprecation, v: Version)
    ensures
        active_in(s.push(d), v) == if phase_spec(d, v) != DeprecationPhase::Dormant {
            active_in(s, v).push(d)
        } else {
            active_in(s, v)
        },
{
    assert(s.push(d).drop_last() =~= s);
}

proof fn lemma_directory_renames_push(s: Seq<Deprecation>, d: Deprecation)
    ensures
        directory_renames_in(s.push(d)) == if is_directory_rename(d) {
            directory_renames_in(s).push(d)
        } else {
            directory_renames_in(s)
        },
{
    assert(s.push(d).drop_last() =~= s);
}

proof fn lemma_file_renames_push(s: Seq<Deprecation>, d: Deprecation)
    ensures
        file_renames_in(s.push(d)) == if is_file_rename(d) {
            file_renames_in(s).push(d)
        } else {
            file_renames_in(s)
        },
{
    assert(s.push(d).drop_last() =~= s);
}

pub open spec fn derefs(s: Seq<&Deprecation>) -> Seq<Deprecation> {
    s.map_values(|d: &Deprecation| *d)
}

/// Registry of all known deprecations.
pub struct DeprecationRegistry {
    entries: Vec<Deprecation>,
}

impl View for DeprecationRegistry {
    type V = Seq<Deprecation>;

    closed spec fn view(&self) -> Seq<Deprecation> {
        self.entries@
    }
}

/// Version when deprecation warnings start (grace period).
pub open spec fn deprecated_version_spec() -> Version {
    Version { major: 4, minor: 80, patch: 1 }
}

/// Version when deprecation errors start (grace period ended).
pub open spec fn mandatory_version_spec() -> Version {
    Version { major: 4, minor: 88, patch: 0 }
}

/// Version when deprecation warnings start (grace period).
pub fn deprecated_version() -> (v: Version)
    ensures
        v == deprecated_version_spec(),
{
    Version::new(4, 80, 1)
}

/// Version when deprecation errors start (grace period ended).
/// This is a projected version; Fleet has not announced an exact date.
pub fn mandatory_version() -> (v: Version)
    ensures
        v == mandatory_version_spec(),
{
    Version::new(4, 88, 0)
}

/// A built-in rename entry: warning from the grace version, error from the
/// mandatory version, never removed, no file restriction.
pub open spec fn builtin_entry_ok(d: Deprecation) -> bool {
    &&& d.deprecated_in == deprecated_version_spec()
    &&& d.error_in == Some(mandatory_version_spec())
    &&& d.removed_in is None
    &&& d.file_patterns@.len() == 0
}

fn push_entry(
    entries: &mut Vec<Deprecation>,
    id: &'static str,
    kind: DeprecationKind,
    description: &'static str,
)
    ensures
        final(entries)@.len() == old(entries)@.len() + 1,
        forall|i: int| 0 <= i < old(entries)@.len() ==> final(entries)@[i] == old(entries)@[i],
        final(entries)@.last().id == id,
        final(entries)@.last().kind == kind,
        final(entries)@.last().description == description,
        builtin_entry_ok(final(entries)@.last()),
{
    let empty: &'static [&'static str] = &[];
    entries.push(
        Deprecation {
            id,
            kind,
            deprecated_in: deprecated_version(),
            error_in: Some(mandatory_version()),
            removed_in: None,
            description,
            file_patterns: empty,
        },
    );
}

impl DeprecationRegistry {
    /// The registry of Fleet's renames: `teams/` to `fleets/`, `team_settings` to
    /// `settings`, `queries` to `reports`, and `no-team.yml` to `unassigned.yml`.
    pub fn builtin() -> (r: DeprecationRegistry)
        ensures
            r@.len() == 4,
            forall|i: int| 0 <= i < 4 ==> builtin_entry_ok(#[trigger] r@[i]),
            r@[0].id == "teams-dir-to-fleets-dir",
            r@[0].kind == (DeprecationKind::DirectoryRename { old_dir: "teams", new_dir: "fleets" }),
            r@[1].id == "team-settings-to-settings",
            r@[1].kind == (DeprecationKind::KeyRename {
                old_key: "team_settings",
                new_key: "settings",
                context_path: "",
            }),
            r@[2].id == "queries-to-reports",
            r@[2].kind == (DeprecationKind::KeyRename {
                old_key: "queries",
                new_key: "reports",
                context_path: "",
            }),
            r@[3].id == "no-team-to-unassigned",
            r@[3].kind == (DeprecationKind::FileRename {
                old_name: "no-team.yml",
                new_name: "unassigned.yml",
            }),
    {
        let mut entries: Vec<Deprecation> = Vec::new();
        push_entry(
            &mut entries,
            "teams-dir-to-fleets-dir",
            DeprecationKind::DirectoryRename { old_dir: "teams", new_dir: "fleets" },
            "The 'teams/' directory is being renamed to 'fleets/'",
        );
        push_entry(
            &mut entries,
            "team-settings-to-settings",
            DeprecationKind::KeyRename {
                old_key: "team_settings",
                new_key: "settings",
                context_path: "",
            },
            "The 'team_settings' key is being renamed to 'settings'",
        );
        push_entry(
            &mut entries,
            "queries-to-reports",
            DeprecationKind::KeyRename { old_key: "queries", new_key: "reports", context_path: "" },
            "The 'queries' key is being renamed to 'reports'",
        );
        push_entry(
            &mut entries,
            "no-team-to-unassigned",
            DeprecationKind::FileRename { old_name: "no-team.yml", new_name: "unassigned.yml" },
            "The 'no-team.yml' file is being renamed to 'unassigned.yml'",
        );
        DeprecationRegistry { entries }
    }

    /// Find a deprecated key by name and context path: the first entry that
    /// renames `key` under `context_path` (empty for top-level keys).
    pub fn find_deprecated_key(&self, key: &str, context_path: &str) -> (r: Option<&Deprecation>)
        ensures
            r matches Some(d) ==> exists|i: int|
                0 <= i < self@.len() && self@[i] == *d && renames_key(*d, key@, context_path@)
                    && forall|j: int| 0 <= j < i ==> !renames_key(self@[j], key@, context_path@),
            r is None ==> forall|i: int|
                0 <= i < self@.len() ==> !renames_key(#[trigger] self@[i], key@, context_path@),
    {
        let mut i: usize = 0;
        while i < self.entries.len()
            invariant
                i <= self.entries.len(),
                forall|j: int|
                    0 <= j < i ==> !renames_key(#[trigger] self.entries@[j], key@, context_path@),
            decreases self.entries.len() - i,
        {
            let d = &self.entries[i];
            match &d.kind {
                DeprecationKind::KeyRename { old_key, context_path: cp, .. } => {
                    if str_eq(old_key, key) && str_eq(cp, context_path) {
                        assert(self@[i as int] == *d && renames_key(*d, key@, context_path@));
                        return Some(d);
                    }
                },
                _ => {},
            }
            i += 1;
        }
        None
    }

    /// Find a deprecated directory by name: the first entry that renames `dir_name`.
    pub fn find_deprecated_directory(&self, dir_name: &str) -> (r: Option<&Deprecation>)
        ensures
            r matches Some(d) ==> exists|i: int|
                0 <= i < self@.len() && self@[i] == *d && renames_directory(*d, dir_name@)
                    && forall|j: int| 0 <= j < i ==> !renames_directory(self@[j], dir_name@),
            r is None ==> forall|i: int|
                0 <= i < self@.len() ==> !renames_directory(#[trigger] self@[i], dir_name@),
    {
        let mut i: usize = 0;
        while i < self.entries.len()
            invariant
                i <= self.entries.len(),
                forall|j: int|
                    0 <= j < i ==> !renames_directory(#[trigger] self.entries@[j], dir_name@),
            decreases self.entries.len() - i,
        {
            let d = &self.entries[i];
            match &d.kind {
                DeprecationKind::DirectoryRename { old_dir, .. } => {
                    if str_eq(old_dir, dir_name) {
                        assert(self@[i as int] == *d && renames_directory(*d, dir_name@));
                        return Some(d);
                    }
                },
                _ => {},
            }
            i += 1;
        }
        None
    }

    /// Return all deprecations that are non-dormant for a given version.
    pub fn active_deprecations(&self, version: &Version) -> (r: Vec<&Deprecation>)
        ensures
            derefs(r@) == active_in(self@, *version),
    {
        let mut r: Vec<&Deprecation> = Vec::new();
        let mut i: usize = 0;
        while i < self.entries.len()
            invariant
                i <= self.entries.len(),
                derefs(r@) == active_in(self.entries@.take(i as int), *version),
            decreases self.entries.len() - i,
        {
            assert(self.entries@.take(i + 1).drop_last() =~= self.entries@.take(i as int));
            let d = &self.entries[i];
            if d.phase_for_version(version) != DeprecationPhase::Dormant {
                let ghost before = r@;
                r.push(d);
                assert(derefs(r@) =~= derefs(before).push(*d));
            }
            i += 1;
        }
        assert(self.entries@.take(self.entries.len() as int) =~= self.entries@);
        r
    }

    /// Return all directory rename deprecations active for a given version.
    pub fn active_directory_renames(&self, version: &Version) -> (r: Vec<&Deprecation>)
        ensures
            derefs(r@) == active_in(directory_renames_in(self@), *version),
    {
        let mut r: Vec<&Deprecation> = Vec::new();
        let mut i: usize = 0;
        while i < self.entries.len()
            invariant
                i <= self.entries.len(),
                derefs(r@) == active_in(directory_renames_in(self.entries@.take(i as int)), *version),
            decreases self.entries.len() - i,
        {
            assert(self.entries@.take(i + 1) =~= self.entries@.take(i as int).push(self.entries@[i as int]));
            let d = &self.entries[i];
            proof {
                lemma_directory_renames_push(self.entries@.take(i as int), *d);
                lemma_active_push(directory_renames_in(self.entries@.take(i as int)), *d, *version);
            }
            let is_dir = match &d.kind {
                DeprecationKind::DirectoryRename { .. } => true,
                _ => false,
            };
            if is_dir && d.phase_for_version(version) != DeprecationPhase::Dormant {
                let ghost before = r@;
                r.push(d);
                assert(derefs(r@) =~= derefs(before).push(*d));
            }
            i += 1;
        }
        assert(self.entries@.take(self.entries.len() as int) =~= self.entries@);
        r
    }

    /// Return all file rename deprecations active for a given version.
    pub fn active_file_renames(&self, version: &Version) -> (r: Vec<&Deprecation>)
        ensures
            derefs(r@) == active_in(file_renames_in(self@), *version),
    {
        let mut r: Vec<&Deprecation> = Vec::new();
        let mut i: usize = 0;
        while i < self.entries.len()
            invariant
                i <= self.entries.len(),
                derefs(r@) == active_in(file_renames_in(self.entries@.take(i as int)), *version),
            decreases self.entries.len() - i,
        {
            assert(self.entries@.take(i + 1) =~= self.entries@.take(i as int).push(self.entries@[i as int]));
            let d = &self.entries[i];
            proof {
                lemma_file_renames_push(self.entries@.take(i as int), *d);
                lemma_active_push(file_renames_in(self.entries@.take(i as int)), *d, *version);
            }
            let is_file = match &d.kind {
                DeprecationKind::FileRename { .. } => true,
                _ => false,
            };
            if is_file && d.phase_for_version(version) != DeprecationPhase::Dormant {
                let ghost before = r@;
                r.push(d);
                assert(derefs(r@) =~= derefs(before).push(*d));
            }
            i += 1;
        }
        assert(self.entries@.take(self.entries.len() as int) =~= self.entries@);
        r
    }

    /// Get all entries in the registry.
    pub fn entries(&self) -> (r: &[Deprecation])
        ensures
            r@ == self@,
    {
        self.entries.as_slice()
    }
}

/// Filtering by activity and by kind commute: the active directory renames are
/// the directory renames among the active deprecations.
pub proof fn lemma_active_directory_renames_commute(s: Seq<Deprecation>, v: Version)
    ensures
        active_in(directory_renames_in(s), v) == directory_renames_in(active_in(s, v)),
    decreases s.len(),
{
    if s.len() > 0 {
        let p = s.drop_last();
        let d = s.last();
        assert(s =~= p.push(d));
        lemma_active_directory_renames_commute(p, v);
        lemma_directory_renames_push(p, d);
        lemma_active_push(p, d, v);
        lemma_active_push(directory_renames_in(p), d, v);
        lemma_directory_renames_push(active_in(p, v), d);
    }
}

/// Filtering by activity and by kind commute for file renames as well.
pub proof fn lemma_active_file_renames_commute(s: Seq<Deprecation>, v: Version)
    ensures
        active_in(file_renames_in(s), v) == file_renames_in(active_in(s, v)),
    decreases s.len(),
{
    if s.len() > 0 {
        let p = s.drop_last();
        let d = s.last();
        assert(s =~= p.push(d));
        lemma_active_file_renames_commute(p, v);
        lemma_file_renames_push(p, d);
        lemma_active_push(p, d, v);
        lemma_active_push(file_renames_in(p), d, v);
        lemma_file_renames_push(active_in(p, v), d);
    }
}

/// Every active deprecation is one of the registry's entries and is not dormant;
/// every entry that is not dormant is listed.
pub proof fn lemma_active_in_members(s: Seq<Deprecation>, v: Version, d: Deprecation)
    ensures
        active_in(s, v).contains(d) <==> (s.contains(d) && phase_spec(d, v)
            != DeprecationPhase::Dormant),
    decreases s.len(),
{
    if s.len() > 0 {
        lemma_active_in_members(s.drop_last(), v, d);
        assert(s =~= s.drop_last().push(s.last()));
        if s.contains(d) && !s.drop_last().contains(d) {
            assert(d == s.last()) by {
                let k = choose|k: int| 0 <= k < s.len() && s[k] == d;
                if k < s.len() - 1 {
                    assert(s.drop_last()[k] == d);
                }
            }
        }
        if s.drop_last().contains(d) {
            let k = choose|k: int| 0 <= k < s.drop_last().len() && s.drop_last()[k] == d;
            assert(s[k] == d);
        }
        let r = active_in(s.drop_last(), v);
        if r.contains(d) {
            let k = choose|k: int| 0 <= k < r.len() && r[k] == d;
            if phase_spec(s.last(), v) != DeprecationPhase::Dormant {
                assert(r.push(s.last())[k] == d);
            }
        }
        if phase_spec(s.last(), v) != DeprecationPhase::Dormant {
            assert(r.push(s.last())[r.len() as int] == s.last());
            if active_in(s, v).contains(d) {
                let k = choose|k: int| 0 <= k < r.len() + 1 && r.push(s.last())[k] == d;
                if k < r.len() {
                    assert(r[k] == d);
                }
            }
        }
    }
}

/// The version of a dormant context: 0.0.0.
pub open spec fn zero_version() -> Version {
    Version { major: 0, minor: 0, patch: 0 }
}

/// A dormant context never triggers a deprecation: at version 0.0.0, every
/// deprecation with ordered thresholds that starts above 0.0.0 is dormant,
/// so none of a list of them is active.
pub proof fn lemma_dormant_version_quiet(s: Seq<Deprecation>)
    requires
        forall|i: int|
            0 <= i < s.len() ==> thresholds_ordered(#[trigger] s[i]) && s[i].deprecated_in
                != zero_version(),
    ensures
        forall|i: int| 0 <= i < s.len() ==> phase_spec(#[trigger] s[i], zero_version())
            == DeprecationPhase::Dormant,
        active_in(s, zero_version()).len() == 0,
    decreases s.len(),
{
    assert forall|i: int| 0 <= i < s.len() implies phase_spec(#[trigger] s[i], zero_version())
        == DeprecationPhase::Dormant by {
        lemma_phase_intervals(s[i], zero_version());
    }
    if s.len() > 0 {
        lemma_dormant_version_quiet(s.drop_last());
        assert(phase_spec(s[s.len() - 1], zero_version()) == DeprecationPhase::Dormant);
    }
}

/// The built-in renames warn from 4.80.1 (the latest known version) until
/// 4.88.0, and are errors from 4.88.0 on; they are never removed.
pub proof fn lemma_builtin_phases(d: Deprecation, t: Version)
    requires
        builtin_entry_ok(d),
    ensures
        (phase_spec(d, t) == DeprecationPhase::Dormant) <==> !version_ge(
            t,
            deprecated_version_spec(),
        ),
        (phase_spec(d, t) == DeprecationPhase::Warning) <==> (version_ge(
            t,
            deprecated_version_spec(),
        ) && !version_ge(t, mandatory_version_spec())),
        (phase_spec(d, t) == DeprecationPhase::Error) <==> version_ge(t, mandatory_version_spec()),
        phase_spec(d, t) != DeprecationPhase::Removed,
{
}

} // verus!
