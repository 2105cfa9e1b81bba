use vstd::prelude::*;
use crate::text::{
    ascii_lower, is_ascii_text, contains_str, eq_str, has_substr, occurs_at, join_spec, matches_at, opt_view, lowercase, push_char, push_chars, push_str, split_chars, split_spec, str_eq, string_of, to_chars,
    to_lowercase, views,
};

verus! {

// ---------------------------------------------------------------------------
// Standard operating procedures
// ---------------------------------------------------------------------------

/// The linting procedure: setup, checks, fixes and configuration.
pub const SOP_LINT: &'static str = r#"# SOP: Linting Fleet GitOps YAML

## Setup
```
1. flint init                                  # create .fleetlint.toml (auto-detects repo structure)
2. flint init --no-interactive                 # non-interactive mode with defaults
```

## Lint files
```
1. flint check <path>                          # lint single file or directory
2. flint check <path> --format json            # structured JSON output
```

## Auto-fix
```
1. flint check <path> --fix                    # apply safe fixes only
2. flint check <path> --fix --unsafe-fixes     # also apply risky fixes
```

## Inspect rules
```
1. flint list-rules                            # table of all rules
2. flint list-rules --format json              # rules as JSON with metadata
```

## Configuration (.fleetlint.toml)
```toml
[rules]
disabled = ["secret-hygiene"]        # disable specific rules
warn = ["interval-validation"]       # downgrade errors to warnings

[thresholds]
min_interval = 60                    # minimum query interval (seconds)
max_interval = 86400                 # maximum query interval

[files]
include = ["**/*.yml", "**/*.yaml"]
exclude = ["node_modules", "target"]

[deprecations]
fleet_version = "4.85.0"            # target version for deprecation checks
future_names = true                  # opt-in to new naming (reports, settings, fleets)
```

## Inline suppressions
```yaml
queries:  # flint: ignore [deprecated-keys]
```

## Key flags
- `--format json` — structured output for programmatic consumption
- `--fix` — auto-apply safe fixes (key renames, typo corrections)
- `--unsafe-fixes` — also apply fixes that may change semantics (requires --fix)
"#;

/// The migration procedure: report, directory and file renames, key renames.
pub const SOP_MIGRATE: &'static str = r#"# SOP: Fleet GitOps Migration

Migrate a Fleet GitOps repo to a target version using `flint migrate`.

## Step 1: Generate migration report
```
flint migrate <path> --target-version <version>
```
Output is JSON with:
- `summary` — counts: files_scanned, directory_renames, file_renames, key_renames, safe_fixes
- `directory_renames[]` — `{ old, new, files_affected }`
- `file_renames[]` — `{ old, new }`
- `file_changes[]` — `{ path, move_to?, key_renames[] }` where each key_rename has `{ line, old_key, new_key, safety }`

## Step 2: Apply directory renames (first)
```
mv <path>/teams/ <path>/fleets/
```

## Step 3: Apply file renames
- Root level: `mv <path>/no-team.yml <path>/unassigned.yml`
- Inside moved dirs: `mv <path>/fleets/no-team.yml <path>/fleets/unassigned.yml`

## Step 4: Apply key renames
For each file in `file_changes`:
- Use `move_to` path if set (directory was moved in Step 2)
- Apply renames bottom-up (highest line number first) to preserve offsets
- Replace `old_key:` with `new_key:` at the specified line

## Step 5: Update cross-file path references
```
grep -rn "teams/" <path>/**/*.yml      # find stale path: references
grep -rn "no-team.yml" <path>/**/*.yml
```
Replace: teams/ -> fleets/, no-team.yml -> unassigned.yml

## Step 6: Verify
```
flint check <path>                     # confirm zero deprecation warnings
```

## Current renames (warnings since v4.80.1)
- Directory: `teams/` -> `fleets/`
- File: `no-team.yml` -> `unassigned.yml`
- Key: `team_settings` -> `settings`
- Key: `queries` -> `reports`
"#;

/// The editor setup procedure for the language server.
pub const SOP_LSP: &'static str = r#"# SOP: Editor Setup (LSP)

All editors use `flint lsp` as a language server subprocess.

## VS Code
Install the `fleetdm.flint` extension from the marketplace.

## Neovim
```lua
require('flint').setup()
```
Or add to lua/flint.lua (see editors/neovim/).

## Zed
Install the flint extension from the Zed extension gallery.

## Sublime Text
1. Install Package Control
2. Install LSP package
3. Install Flint LSP package (see editors/sublime/)

## JetBrains (IntelliJ, etc.)
Install the Flint plugin (see editors/jetbrains/).

## What the LSP provides
- Real-time diagnostics (linting on every keystroke)
- Hover documentation (field descriptions, platform info)
- Autocompletion (keys, platforms, osquery tables, SQL keywords)
- Code actions (quick-fixes for deprecated keys, typos)
- Go-to-definition (path references)
- Document symbols and folding
- Semantic syntax highlighting

## Configuration
The LSP reads `.fleetlint.toml` for:
- Rule configuration (disabled rules, warning overrides)
- Fleet server connection (URL, token for live validation)
- Deprecation settings (target version, future_names opt-in)
"#;

/// The procedure named by `tool`, once lowercased.
pub open spec fn sop_for(tool: Seq<char>) -> Option<Seq<char>> {
    if tool == "lint"@ || tool == "check"@ {
        Some(SOP_LINT@)
    } else if tool == "migrate"@ || tool == "migration"@ {
        Some(SOP_MIGRATE@)
    } else if tool == "lsp"@ || tool == "editor"@ || tool == "editors"@ {
        Some(SOP_LSP@)
    } else {
        None
    }
}

/// Choosing a procedure ignores case on ASCII names: two names equal up to
/// the case of their letters select the same procedure, or none.
pub proof fn lemma_sop_ignores_ascii_case(a: Seq<char>, b: Seq<char>)
    requires
        ascii_lower(a) == ascii_lower(b),
    ensures
        sop_for(ascii_lower(a)) == sop_for(ascii_lower(b)),
{
}

/// Each of the seven names, in any ASCII case, selects its procedure: `lint`
/// and `check` the linting one, `migrate` and `migration` the migration one,
/// `lsp`, `editor` and `editors` the editor setup one; every other name
/// selects none.
pub proof fn lemma_sop_names(tool: Seq<char>)
    ensures
        ascii_lower(tool) == "lint"@ || ascii_lower(tool) == "check"@ ==> sop_for(ascii_lower(tool))
            == Some(SOP_LINT@),
        ascii_lower(tool) == "migrate"@ || ascii_lower(tool) == "migration"@ ==> sop_for(
            ascii_lower(tool),
        ) == Some(SOP_MIGRATE@),
        ascii_lower(tool) == "lsp"@ || ascii_lower(tool) == "editor"@ || ascii_lower(tool)
            == "editors"@ ==> sop_for(ascii_lower(tool)) == Some(SOP_LSP@),
        ascii_lower(tool) != "lint"@ && ascii_lower(tool) != "check"@ && ascii_lower(tool)
            != "migrate"@ && ascii_lower(tool) != "migration"@ && ascii_lower(tool) != "lsp"@
            && ascii_lower(tool) != "editor"@ && ascii_lower(tool) != "editors"@ ==> sop_for(
            ascii_lower(tool),
        ) is None,
{
    reveal_strlit("lint");
    reveal_strlit("check");
    reveal_strlit("migrate");
    reveal_strlit("migration");
    reveal_strlit("lsp");
    reveal_strlit("editor");
    reveal_strlit("editors");
    let names = seq!["lint"@, "check"@, "migrate"@, "migration"@, "lsp"@, "editor"@, "editors"@];
    assert forall|i: int, j: int| 0 <= i < j < 7 implies names[i] != names[j] by {
        assert(names[i].len() != names[j].len() || names[i][0] != names[j][0]);
    }
}

/// Why a reference could not be produced.
pub enum HelpError {
    /// No procedure has the requested name.
    UnknownSop { tool: String },
    /// A part of a dotted command path names no subcommand; `available`
    /// lists the subcommands that could have been named there.
    UnknownCommand { part: String, available: Vec<String> },
}

/// The standard operating procedure for `tool` (matched without regard to
/// case): `lint`/`check`, `migrate`/`migration`, or `lsp`/`editor`/`editors`.
pub fn generate_sop(tool: &str) -> (r: Result<&'static str, HelpError>)
    ensures
        match r {
            Ok(s) => sop_for(lowercase(tool@)) == Some(s@),
            Err(e) => sop_for(lowercase(tool@)) is None && (e matches HelpError::UnknownSop { tool: t }
                && t@ == tool@),
        },
        is_ascii_text(tool@) ==> match r {
            Ok(s) => sop_for(ascii_lower(tool@)) == Some(s@),
            Err(_) => sop_for(ascii_lower(tool@)) is None,
        },
{
    let l = to_lowercase(tool);
    let t = l.as_str();
    if str_eq(t, "lint") || str_eq(t, "check") {
        Ok(SOP_LINT)
    } else if str_eq(t, "migrate") || str_eq(t, "migration") {
        Ok(SOP_MIGRATE)
    } else if str_eq(t, "lsp") || str_eq(t, "editor") || str_eq(t, "editors") {
        Ok(SOP_LSP)
    } else {
        Err(HelpError::UnknownSop { tool: tool.to_string() })
    }
}

// ---------------------------------------------------------------------------
// The command-line interface as data
// ---------------------------------------------------------------------------

/// One argument of a command: a flag, an option or a positional value.
pub struct CliArg {
    pub id: String,
    pub long: Option<String>,
    pub short: Option<char>,
    pub help: Option<String>,
    pub required: bool,
    pub hidden: bool,
    pub global: bool,
    /// Whether the argument's action takes values (a flag set to true
    /// takes none).
    pub takes_values: bool,
    pub default_values: Vec<String>,
    pub possible_values: Vec<String>,
}

/// A command with its arguments and subcommands.
pub struct CliCommand {
    pub name: String,
    pub about: Option<String>,
    pub long_about: Option<String>,
    pub version: Option<String>,
    pub hidden: bool,
    pub args: Vec<CliArg>,
    pub subcommands: Vec<CliCommand>,
}

/// An argument is positional when it has neither a long nor a short name.
pub open spec fn is_positional(a: CliArg) -> bool {
    a.long is None && a.short is None
}

impl CliArg {
    /// Whether the argument is positional.
    pub fn positional(&self) -> (r: bool)
        ensures
            r == is_positional(*self),
    {
        self.long.is_none() && self.short.is_none()
    }
}

/// An argument that the references list: not hidden, not `help` or `version`.
pub open spec fn listed_arg(a: CliArg) -> bool {
    !a.hidden && a.id@ != "help"@ && a.id@ != "version"@
}

/// A listed argument that is not global.
pub open spec fn local_arg(a: CliArg) -> bool {
    listed_arg(a) && !a.global
}

/// A subcommand that the references list: not hidden and not `help`.
pub open spec fn listed_sub(c: CliCommand) -> bool {
    !c.hidden && c.name@ != "help"@
}

/// The text of an optional string, empty when absent.
pub open spec fn text_of(o: Option<String>) -> Seq<char> {
    match o {
        Some(s) => s@,
        None => seq![],
    }
}

fn push_opt(buf: &mut String, o: &Option<String>)
    ensures
        final(buf)@ == old(buf)@ + text_of(*o),
{
    match o {
        Some(s) => push_str(buf, s.as_str()),
        None => {
            assert(buf@ =~= buf@ + text_of(*o));
        },
    }
}

fn is_listed_arg(a: &CliArg) -> (r: bool)
    ensures
        r == listed_arg(*a),
{
    !a.hidden && !str_eq(a.id.as_str(), "help") && !str_eq(a.id.as_str(), "version")
}

fn is_listed_sub(c: &CliCommand) -> (r: bool)
    ensures
        r == listed_sub(*c),
{
    !c.hidden && !str_eq(c.name.as_str(), "help")
}

// ---------------------------------------------------------------------------
// Index mode
// ---------------------------------------------------------------------------

/// The guide that opens the index, for a program called `name`.
pub open spec fn index_header(name: Seq<char>) -> Seq<char> {
    "# "@ + name + " — Fleet GitOps YAML linter and language server\n\n## Agent guide\n\n"@
        + name + " is a CLI tool for linting, validating, and migrating Fleet GitOps YAML configurations.\n\n**Discovery workflow:**\n1. Read the command index below to find relevant commands\n2. Run `"@
        + name + " help-ai --command <name>` for full flags and usage of a specific command\n3. Run `"@
        + name + " help-ai --sop <tool>` for step-by-step workflows (lint, migrate, lsp)\n4. Run `"@
        + name + " help-ai --full` for the complete reference (large output)\n\n**JSON schema (for structured parsing):**\n- `"@
        + name + " help-json` — full CLI schema as JSON\n- `"@
        + name + " help-json <name>` — scoped subtree, globals stripped\n\n**Common patterns:**\n- `--format json` on check and list-rules for structured output\n- `--fix` auto-applies safe fixes, `--unsafe-fixes` for risky ones\n- `"@
        + name + " migrate` outputs JSON report — does NOT apply changes\n- `.fleetlint.toml` configures rules, thresholds, and Fleet connection\n\n**When to use which SOP (match user intent to the right SOP):**\n- lint, validate, check, fix YAML files → `--sop lint`\n- migrate, upgrade, rename teams/queries/team_settings → `--sop migrate`\n- editor setup, VS Code, Neovim, Zed, Sublime, JetBrains → `--sop lsp`\n\n**SOPs:** Run `"@
        + name + " help-ai --sop <tool>` for step-by-step workflows:\n- `--sop lint` — linting workflow (init → check → fix → json output)\n- `--sop migrate` — version migration (report → rename → verify)\n- `--sop lsp` — editor setup guide for all supported editors\n\n## Command index\n\n"@
}

/// The leading part of an argument's index line, when it has one: its long
/// flag, or its id in angle brackets when it is positional.
pub open spec fn index_flag(a: CliArg) -> Option<Seq<char>> {
    match a.long {
        Some(l) => Some("  --"@ + l@),
        None => if is_positional(a) {
            Some("  <"@ + a.id@ + ">"@)
        } else {
            None
        },
    }
}

/// The index line of an argument (empty when it is not listed).
pub open spec fn index_arg_line(a: CliArg) -> Seq<char> {
    if !listed_arg(a) {
        seq![]
    } else {
        match index_flag(a) {
            Some(f) => f + (if a.required {
                " (required)"@
            } else {
                seq![]
            }) + " — "@ + text_of(a.help) + "\n"@,
            None => seq![],
        }
    }
}

/// The index lines of `args[..k]`.
pub open spec fn index_arg_lines(args: Seq<CliArg>, k: int) -> Seq<char>
    decreases k,
{
    if k <= 0 || k > args.len() {
        seq![]
    } else {
        index_arg_lines(args, k - 1) + index_arg_line(args[k - 1])
    }
}

/// The index entry of a subcommand of the program `name`.
pub open spec fn index_entry(name: Seq<char>, sub: CliCommand) -> Seq<char> {
    if !listed_sub(sub) {
        seq![]
    } else {
        "### "@ + name + " "@ + sub.name@ + "\n"@ + text_of(sub.about) + "\n"@ + index_arg_lines(
            sub.args@,
            sub.args@.len() as int,
        ) + "\n"@
    }
}

/// The index entries of `subs[..k]`.
pub open spec fn index_entries(name: Seq<char>, subs: Seq<CliCommand>, k: int) -> Seq<char>
    decreases k,
{
    if k <= 0 || k > subs.len() {
        seq![]
    } else {
        index_entries(name, subs, k - 1) + index_entry(name, subs[k - 1])
    }
}

/// The agent guide and command index of `cmd`.
pub open spec fn index_text(cmd: CliCommand) -> Seq<char> {
    index_header(cmd.name@) + index_entries(cmd.name@, cmd.subcommands@, cmd.subcommands@.len() as int)
}

fn push_index_arg(buf: &mut String, a: &CliArg)
    ensures
        final(buf)@ == old(buf)@ + index_arg_line(*a),
{
    let ghost start = buf@;
    if !is_listed_arg(a) {
        assert(buf@ =~= start + index_arg_line(*a));
        return;
    }
    match &a.long {
        Some(l) => {
            push_str(buf, "  --");
            push_str(buf, l.as_str());
        },
        None => {
            if a.short.is_some() {
                assert(buf@ =~= start + index_arg_line(*a));
                return;
            }
            push_str(buf, "  <");
            push_str(buf, a.id.as_str());
            push_str(buf, ">");
        },
    }
    if a.required {
        push_str(buf, " (required)");
    }
    push_str(buf, " — ");
    push_opt(buf, &a.help);
    push_str(buf, "\n");
    assert(buf@ =~= start + index_arg_line(*a));
}

fn push_index_entry(buf: &mut String, name: &str, sub: &CliCommand)
    ensures
        final(buf)@ == old(buf)@ + index_entry(name@, *sub),
{
    let ghost start = buf@;
    if !is_listed_sub(sub) {
        assert(buf@ =~= start + index_entry(name@, *sub));
        return;
    }
    push_str(buf, "### ");
    push_str(buf, name);
    push_str(buf, " ");
    push_str(buf, sub.name.as_str());
    push_str(buf, "\n");
    push_opt(buf, &sub.about);
    push_str(buf, "\n");
    let ghost mid = buf@;
    let mut i: usize = 0;
    while i < sub.args.len()
        invariant
            i <= sub.args.len(),
            buf@ == mid + index_arg_lines(sub.args@, i as int),
        decreases sub.args.len() - i,
    {
        push_index_arg(buf, &sub.args[i]);
        i += 1;
        assert(buf@ =~= mid + index_arg_lines(sub.args@, i as int));
    }
    push_str(buf, "\n");
    assert(buf@ =~= start + index_entry(name@, *sub));
}

/// The agent guide and command index (the default help mode): how to
/// discover commands, then each listed subcommand with its listed arguments.
pub fn generate_index(cmd: &CliCommand) -> (r: String)
    ensures
        r@ == index_text(*cmd),
{
    let name = cmd.name.as_str();
    let mut buf = "# ".to_string();
    push_str(&mut buf, name);
    push_str(&mut buf, " — Fleet GitOps YAML linter and language server\n\n## Agent guide\n\n");
    push_str(&mut buf, name);
    push_str(&mut buf, " is a CLI tool for linting, validating, and migrating Fleet GitOps YAML configurations.\n\n**Discovery workflow:**\n1. Read the command index below to find relevant commands\n2. Run `");
    push_str(&mut buf, name);
    push_str(&mut buf, " help-ai --command <name>` for full flags and usage of a specific command\n3. Run `");
    push_str(&mut buf, name);
    push_str(&mut buf, " help-ai --sop <tool>` for step-by-step workflows (lint, migrate, lsp)\n4. Run `");
    push_str(&mut buf, name);
    push_str(&mut buf, " help-ai --full` for the complete reference (large output)\n\n**JSON schema (for structured parsing):**\n- `");
    push_str(&mut buf, name);
    push_str(&mut buf, " help-json` — full CLI schema as JSON\n- `");
    push_str(&mut buf, name);
    push_str(&mut buf, " help-json <name>` — scoped subtree, globals stripped\n\n**Common patterns:**\n- `--format json` on check and list-rules for structured output\n- `--fix` auto-applies safe fixes, `--unsafe-fixes` for risky ones\n- `");
    push_str(&mut buf, name);
    push_str(&mut buf, " migrate` outputs JSON report — does NOT apply changes\n- `.fleetlint.toml` configures rules, thresholds, and Fleet connection\n\n**When to use which SOP (match user intent to the right SOP):**\n- lint, validate, check, fix YAML files → `--sop lint`\n- migrate, upgrade, rename teams/queries/team_settings → `--sop migrate`\n- editor setup, VS Code, Neovim, Zed, Sublime, JetBrains → `--sop lsp`\n\n**SOPs:** Run `");
    push_str(&mut buf, name);
    push_str(&mut buf, " help-ai --sop <tool>` for step-by-step workflows:\n- `--sop lint` — linting workflow (init → check → fix → json output)\n- `--sop migrate` — version migration (report → rename → verify)\n- `--sop lsp` — editor setup guide for all supported editors\n\n## Command index\n\n");
    assert(buf@ == index_header(cmd.name@));
    let ghost head = buf@;
    let mut i: usize = 0;
    while i < cmd.subcommands.len()
        invariant
            i <= cmd.subcommands.len(),
            name@ == cmd.name@,
            buf@ == head + index_entries(cmd.name@, cmd.subcommands@, i as int),
        decreases cmd.subcommands.len() - i,
    {
        push_index_entry(&mut buf, name, &cmd.subcommands[i]);
        i += 1;
        assert(buf@ =~= head + index_entries(cmd.name@, cmd.subcommands@, i as int));
    }
    buf
}

// ---------------------------------------------------------------------------
// Lists of strings
// ---------------------------------------------------------------------------

/// The characters of each string.
pub open spec fn names(v: Seq<String>) -> Seq<Seq<char>> {
    v.map_values(|s: String| s@)
}

fn push_joined(buf: &mut String, items: &Vec<String>, sep: &str)
    ensures
        final(buf)@ == old(buf)@ + join_spec(names(items@), sep@),
{
    let ghost start = buf@;
    let mut i: usize = 0;
    while i < items.len()
        invariant
            i <= items.len(),
            buf@ == start + join_spec(names(items@).take(i as int), sep@),
        decreases items.len() - i,
    {
        if i > 0 {
            push_str(buf, sep);
        }
        push_str(buf, items[i].as_str());
        assert(names(items@).take(i + 1).drop_last() =~= names(items@).take(i as int));
        assert(names(items@)[i as int] == items@[i as int]@);
        i += 1;
        assert(buf@ =~= start + join_spec(names(items@).take(i as int), sep@));
    }
    assert(names(items@).take(items.len() as int) =~= names(items@));
}

/// A copy of `s`.
fn own(s: &str) -> (r: String)
    ensures
        r@ == s@,
{
    s.to_string()
}

impl HelpError {
    /// The message that explains the error.
    pub open spec fn message_spec(&self) -> Seq<char> {
        match self {
            HelpError::UnknownSop { tool } => "Unknown SOP: '"@ + tool@ + "'. Available: lint, migrate, lsp"@,
            HelpError::UnknownCommand { part, available } => "Unknown command '"@ + part@
                + "'. Available: "@ + join_spec(names(available@), ", "@),
        }
    }

    /// The message that explains the error.
    pub fn message(&self) -> (r: String)
        ensures
            r@ == self.message_spec(),
    {
        match self {
            HelpError::UnknownSop { tool } => {
                let mut m = own("Unknown SOP: '");
                push_str(&mut m, tool.as_str());
                push_str(&mut m, "'. Available: lint, migrate, lsp");
                m
            },
            HelpError::UnknownCommand { part, available } => {
                let mut m = own("Unknown command '");
                push_str(&mut m, part.as_str());
                push_str(&mut m, "'. Available: ");
                push_joined(&mut m, available, ", ");
                m
            },
        }
    }
}

// ---------------------------------------------------------------------------
// Dotted command paths
// ---------------------------------------------------------------------------

/// The index of the first of `subs[..k]` named `part`.
pub open spec fn find_sub(subs: Seq<CliCommand>, part: Seq<char>, k: int) -> Option<int>
    decreases k,
{
    if k <= 0 || k > subs.len() {
        None
    } else {
        match find_sub(subs, part, k - 1) {
            Some(i) => Some(i),
            None => if subs[k - 1].name@ == part {
                Some(k - 1)
            } else {
                None
            },
        }
    }
}

/// The names of the listed subcommands among `subs[..k]`.
pub open spec fn available(subs: Seq<CliCommand>, k: int) -> Seq<Seq<char>>
    decreases k,
{
    if k <= 0 || k > subs.len() {
        seq![]
    } else if listed_sub(subs[k - 1]) {
        available(subs, k - 1).push(subs[k - 1].name@)
    } else {
        available(subs, k - 1)
    }
}

/// The command reached from `cmd` by following `parts`, or the first part
/// that names no subcommand together with the names that were available.
pub open spec fn resolve(cmd: CliCommand, parts: Seq<Seq<char>>) -> Result<
    CliCommand,
    (Seq<char>, Seq<Seq<char>>),
>
    decreases parts.len(),
{
    if parts.len() == 0 {
        Ok(cmd)
    } else {
        match resolve(cmd, parts.drop_last()) {
            Err(e) => Err(e),
            Ok(c) => {
                let subs = c.subcommands@;
                match find_sub(subs, parts.last(), subs.len() as int) {
                    Some(i) => Ok(subs[i]),
                    None => Err((parts.last(), available(subs, subs.len() as int))),
                }
            },
        }
    }
}

/// The parts of a dotted path.
pub open spec fn path_parts(dotted: Seq<char>) -> Seq<Seq<char>> {
    split_spec(dotted, '.')
}

/// `name` followed by each part, separated by spaces.
pub open spec fn spaced(name: Seq<char>, parts: Seq<Seq<char>>) -> Seq<char>
    decreases parts.len(),
{
    if parts.len() == 0 {
        name
    } else {
        spaced(name, parts.drop_last()) + " "@ + parts.last()
    }
}

/// Whether `e` reports that `part` names no subcommand, listing `avail`.
pub open spec fn reports_unknown(e: HelpError, part: Seq<char>, avail: Seq<Seq<char>>) -> bool {
    e matches HelpError::UnknownCommand { part: p, available: a } && p@ == part && names(a@)
        == avail
}

/// Once a prefix of the path fails to resolve, the whole path fails the
/// same way.
proof fn lemma_resolve_error_stays(cmd: CliCommand, ps: Seq<Seq<char>>, j: int)
    requires
        0 <= j <= ps.len(),
        resolve(cmd, ps.take(j)) is Err,
    ensures
        resolve(cmd, ps) == resolve(cmd, ps.take(j)),
    decreases ps.len() - j,
{
    if j == ps.len() {
        assert(ps.take(j) =~= ps);
    } else {
        assert(ps.take(j + 1).drop_last() =~= ps.take(j));
        lemma_resolve_error_stays(cmd, ps, j + 1);
    }
}

fn find_subcommand(subs: &Vec<CliCommand>, part: &Vec<char>) -> (r: Option<usize>)
    ensures
        match r {
            Some(i) => i < subs.len() && find_sub(subs@, part@, subs.len() as int) == Some(i as int),
            None => find_sub(subs@, part@, subs.len() as int) is None,
        },
{
    let mut k: usize = 0;
    while k < subs.len()
        invariant
            k <= subs.len(),
            find_sub(subs@, part@, k as int) is None,
        decreases subs.len() - k,
    {
        if eq_str(part, subs[k].name.as_str()) {
            assert(find_sub(subs@, part@, k + 1) == Some(k as int));
            let mut j: usize = k + 1;
            while j < subs.len()
                invariant
                    k < j <= subs.len(),
                    find_sub(subs@, part@, j as int) == Some(k as int),
                decreases subs.len() - j,
            {
                j += 1;
            }
            return Some(k);
        }
        k += 1;
    }
    None
}

fn available_names(subs: &Vec<CliCommand>) -> (r: Vec<String>)
    ensures
        names(r@) == available(subs@, subs.len() as int),
{
    let mut r: Vec<String> = Vec::new();
    let mut k: usize = 0;
    while k < subs.len()
        invariant
            k <= subs.len(),
            names(r@) == available(subs@, k as int),
        decreases subs.len() - k,
    {
        if is_listed_sub(&subs[k]) {
            let n = subs[k].name.clone();
            r.push(n);
            assert(names(r@) =~= available(subs@, k + 1));
        }
        k += 1;
    }
    r
}

/// The command that `dotted_path` names below `cmd`, each dot-separated part
/// being the name of a subcommand of the previous one.
pub fn resolve_command<'a>(cmd: &'a CliCommand, dotted_path: &str) -> (r: Result<
    &'a CliCommand,
    HelpError,
>)
    ensures
        match resolve(*cmd, path_parts(dotted_path@)) {
            Ok(c) => r matches Ok(found) && *found == c,
            Err((part, avail)) => r matches Err(e) && reports_unknown(e, part, avail),
        },
{
    let parts = split_chars(&to_chars(dotted_path), '.');
    let ghost ps = path_parts(dotted_path@);
    let mut current: &CliCommand = cmd;
    let mut k: usize = 0;
    while k < parts.len()
        invariant
            k <= parts.len(),
            views(parts@) == ps,
            ps == path_parts(dotted_path@),
            resolve(*cmd, ps.take(k as int)) == Ok::<CliCommand, (Seq<char>, Seq<Seq<char>>)>(
                *current,
            ),
        decreases parts.len() - k,
    {
        assert(ps.take(k + 1).drop_last() =~= ps.take(k as int));
        assert(ps.take(k + 1).last() == parts@[k as int]@);
        match find_subcommand(&current.subcommands, &parts[k]) {
            Some(i) => {
                current = &current.subcommands[i];
            },
            None => {
                let avail = available_names(&current.subcommands);
                let part = string_of(&parts[k]);
                proof {
                    lemma_resolve_error_stays(*cmd, ps, k + 1);
                }
                return Err(HelpError::UnknownCommand { part, available: avail });
            },
        }
        k += 1;
    }
    assert(ps.take(parts.len() as int) =~= ps);
    Ok(current)
}

// ---------------------------------------------------------------------------
// Command detail mode
// ---------------------------------------------------------------------------

/// The leading part of an argument's detail line, when it has one.
pub open spec fn detail_head(a: CliArg) -> Option<Seq<char>> {
    if is_positional(a) {
        Some("- `<"@ + a.id@ + ">`"@)
    } else {
        match a.long {
            Some(l) => Some(
                "- `--"@ + l@ + "`"@ + match a.short {
                    Some(c) => " / `-"@ + seq![c] + "`"@,
                    None => seq![],
                },
            ),
            None => match a.short {
                Some(c) => Some("- `-"@ + seq![c] + "`"@),
                None => None,
            },
        }
    }
}

/// The detail lines of an argument: its names, whether it is required, its
/// help, its default values and the values it accepts.
pub open spec fn arg_detail(a: CliArg) -> Seq<char> {
    match detail_head(a) {
        None => seq![],
        Some(h) => h + detail_tail(a),
    }
}

/// The detail lines of the local arguments among `args[..k]`.
pub open spec fn detail_lines(args: Seq<CliArg>, k: int) -> Seq<char>
    decreases k,
{
    if k <= 0 || k > args.len() {
        seq![]
    } else {
        detail_lines(args, k - 1) + if local_arg(args[k - 1]) {
            arg_detail(args[k - 1])
        } else {
            seq![]
        }
    }
}

/// Whether some argument is local.
pub open spec fn has_local(args: Seq<CliArg>) -> bool {
    exists|i: int| 0 <= i < args.len() && local_arg(#[trigger] args[i])
}

/// Whether some subcommand is listed.
pub open spec fn has_listed(subs: Seq<CliCommand>) -> bool {
    exists|i: int| 0 <= i < subs.len() && listed_sub(#[trigger] subs[i])
}

/// The line that names a listed subcommand of the command `path`.
pub open spec fn sub_line(path: Seq<char>, s: CliCommand) -> Seq<char> {
    if listed_sub(s) {
        "- `"@ + path + " "@ + s.name@ + "` — "@ + text_of(s.about) + "\n"@
    } else {
        seq![]
    }
}

/// The lines of the listed subcommands among `subs[..k]`.
pub open spec fn sub_lines(path: Seq<char>, subs: Seq<CliCommand>, k: int) -> Seq<char>
    decreases k,
{
    if k <= 0 || k > subs.len() {
        seq![]
    } else {
        sub_lines(path, subs, k - 1) + sub_line(path, subs[k - 1])
    }
}

/// The heading of the detail page of `c`, reached by `path`: the path,
/// the about text and the long about text.
pub open spec fn command_heading(path: Seq<char>, c: CliCommand) -> Seq<char> {
    "# "@ + path + "\n\n"@ + text_of(c.about) + "\n\n"@ + match c.long_about {
        Some(la) => la@ + "\n\n"@,
        None => seq![],
    }
}

/// The arguments section of a detail page.
pub open spec fn arguments_section(args: Seq<CliArg>) -> Seq<char> {
    if has_local(args) {
        "## Arguments\n\n"@ + detail_lines(args, args.len() as int)
    } else {
        seq![]
    }
}

/// The subcommands section of the detail page of the command `path`.
pub open spec fn subcommands_section(path: Seq<char>, subs: Seq<CliCommand>) -> Seq<char> {
    if has_listed(subs) {
        "## Subcommands\n\n"@ + sub_lines(path, subs, subs.len() as int) + "\n"@
    } else {
        seq![]
    }
}

/// The detail page of the command `c`, reached by `path`.
pub open spec fn command_text(path: Seq<char>, c: CliCommand) -> Seq<char> {
    command_heading(path, c) + arguments_section(c.args@) + subcommands_section(
        path,
        c.subcommands@,
    )
}

fn push_detail_head(buf: &mut String, a: &CliArg) -> (r: bool)
    ensures
        match detail_head(*a) {
            Some(h) => r && final(buf)@ == old(buf)@ + h,
            None => !r && final(buf)@ == old(buf)@,
        },
{
    let ghost start = buf@;
    if a.positional() {
        push_str(buf, "- `<");
        push_str(buf, a.id.as_str());
        push_str(buf, ">`");
    } else {
        match &a.long {
            Some(l) => {
                push_str(buf, "- `--");
                push_str(buf, l.as_str());
                push_str(buf, "`");
                match a.short {
                    Some(c) => {
                        push_str(buf, " / `-");
                        push_char(buf, c);
                        push_str(buf, "`");
                    },
                    None => {},
                }
            },
            None => match a.short {
                Some(c) => {
                    push_str(buf, "- `-");
                    push_char(buf, c);
                    push_str(buf, "`");
                },
                None => {
                    return false;
                },
            },
        }
    }
    assert(buf@ =~= start + detail_head(*a)->Some_0);
    true
}

/// The rest of the first detail line of an argument.
pub open spec fn detail_line_end(a: CliArg) -> Seq<char> {
    (if a.required {
        " **(required)**"@
    } else {
        seq![]
    }) + " — "@ + text_of(a.help) + "\n"@
}

/// The lines that list an argument's default values and accepted values.
pub open spec fn detail_values(a: CliArg) -> Seq<char> {
    (if a.default_values@.len() > 0 {
        "  Default: `"@ + join_spec(names(a.default_values@), ", "@) + "`\n"@
    } else {
        seq![]
    }) + (if a.takes_values && a.possible_values@.len() > 0 {
        "  Values: "@ + join_spec(names(a.possible_values@), ", "@) + "\n"@
    } else {
        seq![]
    })
}

/// The lines that follow the head of an argument's detail.
pub open spec fn detail_tail(a: CliArg) -> Seq<char> {
    detail_line_end(a) + detail_values(a)
}

fn push_detail_line_end(buf: &mut String, a: &CliArg)
    ensures
        final(buf)@ == old(buf)@ + detail_line_end(*a),
{
    let ghost start = buf@;
    if a.required {
        push_str(buf, " **(required)**");
    }
    push_str(buf, " — ");
    push_opt(buf, &a.help);
    push_str(buf, "\n");
    assert(buf@ =~= start + detail_line_end(*a));
}

fn push_detail_values(buf: &mut String, a: &CliArg)
    ensures
        final(buf)@ == old(buf)@ + detail_values(*a),
{
    let ghost start = buf@;
    if a.default_values.len() > 0 {
        push_str(buf, "  Default: `");
        push_joined(buf, &a.default_values, ", ");
        push_str(buf, "`\n");
    }
    if a.takes_values && a.possible_values.len() > 0 {
        push_str(buf, "  Values: ");
        push_joined(buf, &a.possible_values, ", ");
        push_str(buf, "\n");
    }
    assert(buf@ =~= start + detail_values(*a));
}

fn push_detail_tail(buf: &mut String, a: &CliArg)
    ensures
        final(buf)@ == old(buf)@ + detail_tail(*a),
{
    let ghost start = buf@;
    push_detail_line_end(buf, a);
    push_detail_values(buf, a);
    assert(buf@ =~= start + detail_tail(*a));
}

fn push_arg_detail(buf: &mut String, a: &CliArg)
    ensures
        final(buf)@ == old(buf)@ + arg_detail(*a),
{
    let ghost start = buf@;
    if push_detail_head(buf, a) {
        push_detail_tail(buf, a);
        assert(buf@ =~= start + arg_detail(*a));
    } else {
        assert(buf@ =~= start + arg_detail(*a));
    }
}

fn push_detail_lines(buf: &mut String, args: &Vec<CliArg>)
    ensures
        final(buf)@ == old(buf)@ + detail_lines(args@, args.len() as int),
{
    let ghost start = buf@;
    let mut i: usize = 0;
    while i < args.len()
        invariant
            i <= args.len(),
            buf@ == start + detail_lines(args@, i as int),
        decreases args.len() - i,
    {
        if is_listed_arg(&args[i]) && !args[i].global {
            push_arg_detail(buf, &args[i]);
        }
        i += 1;
        assert(buf@ =~= start + detail_lines(args@, i as int));
    }
}

fn any_local(args: &Vec<CliArg>) -> (r: bool)
    ensures
        r == has_local(args@),
{
    let mut i: usize = 0;
    while i < args.len()
        invariant
            i <= args.len(),
            forall|j: int| 0 <= j < i ==> !local_arg(#[trigger] args@[j]),
        decreases args.len() - i,
    {
        if is_listed_arg(&args[i]) && !args[i].global {
            return true;
        }
        i += 1;
    }
    false
}

fn any_listed(subs: &Vec<CliCommand>) -> (r: bool)
    ensures
        r == has_listed(subs@),
{
    let mut i: usize = 0;
    while i < subs.len()
        invariant
            i <= subs.len(),
            forall|j: int| 0 <= j < i ==> !listed_sub(#[trigger] subs@[j]),
        decreases subs.len() - i,
    {
        if is_listed_sub(&subs[i]) {
            return true;
        }
        i += 1;
    }
    false
}

fn push_command_heading(buf: &mut String, path: &str, c: &CliCommand)
    ensures
        final(buf)@ == old(buf)@ + command_heading(path@, *c),
{
    let ghost start = buf@;
    push_str(buf, "# ");
    push_str(buf, path);
    push_str(buf, "\n\n");
    push_opt(buf, &c.about);
    push_str(buf, "\n\n");
    match &c.long_about {
        Some(la) => {
            push_str(buf, la.as_str());
            push_str(buf, "\n\n");
        },
        None => {},
    }
    assert(buf@ =~= start + command_heading(path@, *c));
}

fn push_arguments_section(buf: &mut String, args: &Vec<CliArg>)
    ensures
        final(buf)@ == old(buf)@ + arguments_section(args@),
{
    let ghost start = buf@;
    if any_local(args) {
        push_str(buf, "## Arguments\n\n");
        push_detail_lines(buf, args);
    }
    assert(buf@ =~= start + arguments_section(args@));
}

fn push_subcommands_section(buf: &mut String, path: &str, subs: &Vec<CliCommand>)
    ensures
        final(buf)@ == old(buf)@ + subcommands_section(path@, subs@),
{
    let ghost start = buf@;
    if any_listed(subs) {
        push_str(buf, "## Subcommands\n\n");
        let ghost mid = buf@;
        let mut i: usize = 0;
        while i < subs.len()
            invariant
                i <= subs.len(),
                buf@ == mid + sub_lines(path@, subs@, i as int),
            decreases subs.len() - i,
        {
            let s = &subs[i];
            if is_listed_sub(s) {
                push_str(buf, "- `");
                push_str(buf, path);
                push_str(buf, " ");
                push_str(buf, s.name.as_str());
                push_str(buf, "` — ");
                push_opt(buf, &s.about);
                push_str(buf, "\n");
            }
            i += 1;
            assert(buf@ =~= mid + sub_lines(path@, subs@, i as int));
        }
        push_str(buf, "\n");
    }
    assert(buf@ =~= start + subcommands_section(path@, subs@));
}

fn push_command_text(buf: &mut String, path: &str, c: &CliCommand)
    ensures
        final(buf)@ == old(buf)@ + command_text(path@, *c),
{
    let ghost start = buf@;
    push_command_heading(buf, path, c);
    push_arguments_section(buf, &c.args);
    push_subcommands_section(buf, path, &c.subcommands);
    assert(buf@ =~= start + command_text(path@, *c));
}

/// The detail page of the command that `dotted_path` names: its about and
/// long about texts, its local arguments and its listed subcommands.
pub fn generate_command(cmd: &CliCommand, dotted_path: &str) -> (r: Result<String, HelpError>)
    ensures
        match resolve(*cmd, path_parts(dotted_path@)) {
            Ok(c) => r matches Ok(text) && text@ == command_text(
                spaced(cmd.name@, path_parts(dotted_path@)),
                c,
            ),
            Err((part, avail)) => r matches Err(e) && reports_unknown(e, part, avail),
        },
{
    let found = match resolve_command(cmd, dotted_path) {
        Ok(c) => c,
        Err(e) => {
            return Err(e);
        },
    };
    let parts = split_chars(&to_chars(dotted_path), '.');
    let mut path = cmd.name.clone();
    let mut k: usize = 0;
    while k < parts.len()
        invariant
            k <= parts.len(),
            views(parts@) == path_parts(dotted_path@),
            path@ == spaced(cmd.name@, views(parts@).take(k as int)),
        decreases parts.len() - k,
    {
        assert(views(parts@).take(k + 1).drop_last() =~= views(parts@).take(k as int));
        push_str(&mut path, " ");
        push_chars(&mut path, &parts[k]);
        k += 1;
    }
    assert(views(parts@).take(parts.len() as int) =~= views(parts@));
    let mut buf = String::new();
    push_command_text(&mut buf, path.as_str(), found);
    assert(buf@ =~= command_text(spaced(cmd.name@, path_parts(dotted_path@)), *found));
    Ok(buf)
}

// ---------------------------------------------------------------------------
// Full mode
// ---------------------------------------------------------------------------

/// The section of `cmd` and of its listed subcommands, below `parent`.
pub open spec fn full_section(cmd: CliCommand, parent: Seq<char>) -> Seq<char>
    decreases cmd, 0int,
{
    let full = parent + " "@ + cmd.name@;
    let args = cmd.args@;
    "## "@ + full + "\n"@ + text_of(cmd.about) + "\n\n"@ + (if has_local(args) {
        detail_lines(args, args.len() as int) + "\n"@
    } else {
        seq![]
    }) + full_sections(cmd.subcommands@, full, cmd.subcommands@.len() as int)
}

/// The sections of the listed commands among `subs[..k]`, below `parent`.
pub open spec fn full_sections(subs: Seq<CliCommand>, parent: Seq<char>, k: int) -> Seq<char>
    decreases subs, k,
{
    if k <= 0 || k > subs.len() {
        seq![]
    } else {
        full_sections(subs, parent, k - 1) + if listed_sub(subs[k - 1]) {
            full_section(subs[k - 1], parent)
        } else {
            seq![]
        }
    }
}

/// The complete reference of `cmd`.
pub open spec fn full_text(cmd: CliCommand) -> Seq<char> {
    "# "@ + cmd.name@ + " — complete CLI reference\n\n"@ + full_sections(
        cmd.subcommands@,
        cmd.name@,
        cmd.subcommands@.len() as int,
    )
}

fn push_full_section(buf: &mut String, cmd: &CliCommand, parent: &str)
    ensures
        final(buf)@ == old(buf)@ + full_section(*cmd, parent@),
    decreases cmd, 0int,
{
    let ghost start = buf@;
    let mut full = own(parent);
    push_str(&mut full, " ");
    push_str(&mut full, cmd.name.as_str());
    push_str(buf, "## ");
    push_str(buf, full.as_str());
    push_str(buf, "\n");
    push_opt(buf, &cmd.about);
    push_str(buf, "\n\n");
    if any_local(&cmd.args) {
        push_detail_lines(buf, &cmd.args);
        push_str(buf, "\n");
    }
    let ghost mid = buf@;
    let mut i: usize = 0;
    while i < cmd.subcommands.len()
        invariant
            i <= cmd.subcommands.len(),
            full@ == parent@ + " "@ + cmd.name@,
            buf@ == mid + full_sections(cmd.subcommands@, full@, i as int),
        decreases cmd.subcommands.len() - i,
    {
        if is_listed_sub(&cmd.subcommands[i]) {
            proof {
                assert(decreases_to!(*cmd => cmd.subcommands));
                assert(decreases_to!(cmd.subcommands => cmd.subcommands@));
                assert(decreases_to!(cmd.subcommands@ => cmd.subcommands@[i as int]));
                assert(decreases_to!(*cmd => cmd.subcommands@[i as int]));
            }
            push_full_section(buf, &cmd.subcommands[i], full.as_str());
        }
        i += 1;
        assert(buf@ =~= mid + full_sections(cmd.subcommands@, full@, i as int));
    }
    assert(buf@ =~= start + full_section(*cmd, parent@));
}

/// The complete reference: every listed command at every depth, with its
/// local arguments.
pub fn generate_full(cmd: &CliCommand) -> (r: String)
    ensures
        r@ == full_text(*cmd),
{
    let mut buf = own("# ");
    push_str(&mut buf, cmd.name.as_str());
    push_str(&mut buf, " — complete CLI reference\n\n");
    let ghost head = buf@;
    let mut i: usize = 0;
    while i < cmd.subcommands.len()
        invariant
            i <= cmd.subcommands.len(),
            buf@ == head + full_sections(cmd.subcommands@, cmd.name@, i as int),
        decreases cmd.subcommands.len() - i,
    {
        if is_listed_sub(&cmd.subcommands[i]) {
            push_full_section(&mut buf, &cmd.subcommands[i], cmd.name.as_str());
        }
        i += 1;
        assert(buf@ =~= head + full_sections(cmd.subcommands@, cmd.name@, i as int));
    }
    buf
}

// ---------------------------------------------------------------------------
// JSON mode
// ---------------------------------------------------------------------------

/// A JSON value as the specifications see it.
pub ghost enum JsonModel {
    Null,
    Bool(bool),
    Str(Seq<char>),
    Array(Seq<JsonModel>),
    Object(Seq<(Seq<char>, JsonModel)>),
}

/// A JSON value; the members of an object keep the order in which they
/// were added.
pub enum JsonValue {
    Null,
    Bool(bool),
    Str(String),
    Array(Vec<JsonValue>),
    Object(Vec<(String, JsonValue)>),
}

/// The model of a JSON value.
pub open spec fn json_model(v: JsonValue) -> JsonModel
    decreases v,
{
    match v {
        JsonValue::Null => JsonModel::Null,
        JsonValue::Bool(b) => JsonModel::Bool(b),
        JsonValue::Str(s) => JsonModel::Str(s@),
        JsonValue::Array(items) => JsonModel::Array(
            Seq::new(
                items@.len(),
                |i: int|
                    if 0 <= i < items@.len() {
                        json_model(items@[i])
                    } else {
                        JsonModel::Null
                    },
            ),
        ),
        JsonValue::Object(fields) => JsonModel::Object(
            Seq::new(
                fields@.len(),
                |i: int|
                    if 0 <= i < fields@.len() {
                        (fields@[i].0@, json_model(fields@[i].1))
                    } else {
                        (seq![], JsonModel::Null)
                    },
            ),
        ),
    }
}

impl View for JsonValue {
    type V = JsonModel;

    open spec fn view(&self) -> JsonModel {
        json_model(*self)
    }
}

/// The models of the members of an object.
pub open spec fn members(fields: Seq<(String, JsonValue)>) -> Seq<(Seq<char>, JsonModel)> {
    Seq::new(fields.len(), |i: int| (fields[i].0@, json_model(fields[i].1)))
}

/// The models of the items of an array.
pub open spec fn items(values: Seq<JsonValue>) -> Seq<JsonModel> {
    Seq::new(values.len(), |i: int| json_model(values[i]))
}

proof fn lemma_object_model(fields: Vec<(String, JsonValue)>)
    ensures
        json_model(JsonValue::Object(fields)) == JsonModel::Object(members(fields@)),
{
    assert(json_model(JsonValue::Object(fields))->Object_0 =~= members(fields@));
}

proof fn lemma_array_model(values: Vec<JsonValue>)
    ensures
        json_model(JsonValue::Array(values)) == JsonModel::Array(items(values@)),
{
    assert(json_model(JsonValue::Array(values))->Array_0 =~= items(values@));
}

/// The member `key: value` when `value` is present.
pub open spec fn member_if(key: Seq<char>, value: Option<JsonModel>) -> Seq<(Seq<char>, JsonModel)> {
    match value {
        Some(v) => seq![(key, v)],
        None => seq![],
    }
}

/// Strings as JSON strings.
pub open spec fn json_strings(s: Seq<Seq<char>>) -> Seq<JsonModel> {
    s.map_values(|x: Seq<char>| JsonModel::Str(x))
}

/// The schema of one argument.
pub open spec fn arg_json(a: CliArg) -> JsonModel {
    JsonModel::Object(
        seq![
            ("name"@, JsonModel::Str(a.id@)),
            ("required"@, JsonModel::Bool(a.required)),
            ("positional"@, JsonModel::Bool(is_positional(a))),
        ] + member_if(
            "long"@,
            match a.long {
                Some(l) => Some(JsonModel::Str("--"@ + l@)),
                None => None,
            },
        ) + member_if(
            "short"@,
            match a.short {
                Some(c) => Some(JsonModel::Str("-"@ + seq![c])),
                None => None,
            },
        ) + member_if(
            "help"@,
            match a.help {
                Some(h) => Some(JsonModel::Str(h@)),
                None => None,
            },
        ) + member_if(
            "default"@,
            if a.default_values@.len() > 0 {
                Some(JsonModel::Str(join_spec(names(a.default_values@), ", "@)))
            } else {
                None
            },
        ) + member_if(
            "possible_values"@,
            if a.takes_values && a.possible_values@.len() > 0 {
                Some(JsonModel::Array(json_strings(names(a.possible_values@))))
            } else {
                None
            },
        ) + member_if(
            "global"@,
            if a.global {
                Some(JsonModel::Bool(true))
            } else {
                None
            },
        ),
    )
}

/// Whether the schema shows an argument: a listed one, and with
/// `with_globals` unset a local one.
pub open spec fn schema_arg(a: CliArg, with_globals: bool) -> bool {
    listed_arg(a) && (with_globals || !a.global)
}

/// The schemas of the shown arguments among `args[..k]`.
pub open spec fn json_args(args: Seq<CliArg>, with_globals: bool, k: int) -> Seq<JsonModel>
    decreases k,
{
    if k <= 0 || k > args.len() {
        seq![]
    } else if schema_arg(args[k - 1], with_globals) {
        json_args(args, with_globals, k - 1).push(arg_json(args[k - 1]))
    } else {
        json_args(args, with_globals, k - 1)
    }
}

/// The schema of `cmd` and of its listed subcommands; with `with_globals`
/// unset, global arguments and the version are left out.
pub open spec fn command_json(cmd: CliCommand, with_globals: bool) -> JsonModel
    decreases cmd, 0int,
{
    let args = json_args(cmd.args@, with_globals, cmd.args@.len() as int);
    let subs = json_subs(cmd.subcommands@, with_globals, cmd.subcommands@.len() as int);
    JsonModel::Object(
        seq![
            ("name"@, JsonModel::Str(cmd.name@)),
            ("about"@, match cmd.about {
                Some(a) => JsonModel::Str(a@),
                None => JsonModel::Null,
            }),
        ] + member_if(
            "version"@,
            match cmd.version {
                Some(v) => if with_globals {
                    Some(JsonModel::Str(v@))
                } else {
                    None
                },
                None => None,
            },
        ) + member_if(
            "args"@,
            if args.len() > 0 {
                Some(JsonModel::Array(args))
            } else {
                None
            },
        ) + member_if(
            "subcommands"@,
            if subs.len() > 0 {
                Some(JsonModel::Array(subs))
            } else {
                None
            },
        ),
    )
}

/// The schemas of the listed commands among `subs[..k]`.
pub open spec fn json_subs(subs: Seq<CliCommand>, with_globals: bool, k: int) -> Seq<JsonModel>
    decreases subs, k,
{
    if k <= 0 || k > subs.len() {
        seq![]
    } else if listed_sub(subs[k - 1]) {
        json_subs(subs, with_globals, k - 1).push(command_json(subs[k - 1], with_globals))
    } else {
        json_subs(subs, with_globals, k - 1)
    }
}

/// No object anywhere inside `m` has a member named `key`.
pub open spec fn lacks_key(m: JsonModel, key: Seq<char>) -> bool
    decreases m, 0int,
{
    match m {
        JsonModel::Object(fs) => members_lack(fs, key, fs.len() as int),
        JsonModel::Array(xs) => items_lack(xs, key, xs.len() as int),
        _ => true,
    }
}

/// None of `fs[..k]` is named `key`, and no object inside their values has
/// such a member.
pub open spec fn members_lack(fs: Seq<(Seq<char>, JsonModel)>, key: Seq<char>, k: int) -> bool
    decreases fs, k,
{
    if k <= 0 || k > fs.len() {
        true
    } else {
        members_lack(fs, key, k - 1) && fs[k - 1].0 != key && lacks_key(fs[k - 1].1, key)
    }
}

/// No object inside `xs[..k]` has a member named `key`.
pub open spec fn items_lack(xs: Seq<JsonModel>, key: Seq<char>, k: int) -> bool
    decreases xs, k,
{
    if k <= 0 || k > xs.len() {
        true
    } else {
        items_lack(xs, key, k - 1) && lacks_key(xs[k - 1], key)
    }
}

proof fn lemma_members_lack_all(fs: Seq<(Seq<char>, JsonModel)>, key: Seq<char>, k: int)
    requires
        0 <= k <= fs.len(),
    ensures
        members_lack(fs, key, k) <==> forall|i: int|
            0 <= i < k ==> #[trigger] fs[i].0 != key && lacks_key(fs[i].1, key),
    decreases k,
{
    if k > 0 {
        lemma_members_lack_all(fs, key, k - 1);
    }
}

proof fn lemma_items_lack_all(xs: Seq<JsonModel>, key: Seq<char>, k: int)
    requires
        0 <= k <= xs.len(),
    ensures
        items_lack(xs, key, k) <==> forall|i: int| 0 <= i < k ==> lacks_key(#[trigger] xs[i], key),
    decreases k,
{
    if k > 0 {
        lemma_items_lack_all(xs, key, k - 1);
    }
}

/// The member names a schema uses besides `global` and `version`.
proof fn lemma_member_names_differ()
    ensures
        "name"@ != "global"@,
        "about"@ != "global"@,
        "args"@ != "global"@,
        "subcommands"@ != "global"@,
        "required"@ != "global"@,
        "positional"@ != "global"@,
        "long"@ != "global"@,
        "short"@ != "global"@,
        "help"@ != "global"@,
        "default"@ != "global"@,
        "possible_values"@ != "global"@,
        "name"@ != "version"@,
        "about"@ != "version"@,
        "args"@ != "version"@,
        "subcommands"@ != "version"@,
        "required"@ != "version"@,
        "positional"@ != "version"@,
        "long"@ != "version"@,
        "short"@ != "version"@,
        "help"@ != "version"@,
        "default"@ != "version"@,
        "possible_values"@ != "version"@,
        "global"@ != "version"@,
{
    reveal_strlit("name");
    reveal_strlit("about");
    reveal_strlit("args");
    reveal_strlit("subcommands");
    reveal_strlit("required");
    reveal_strlit("positional");
    reveal_strlit("long");
    reveal_strlit("short");
    reveal_strlit("help");
    reveal_strlit("default");
    reveal_strlit("possible_values");
    reveal_strlit("global");
    reveal_strlit("version");
    assert("name"@[0] != "global"@[0]);
    assert("about"@[0] != "global"@[0]);
    assert("args"@[0] != "global"@[0]);
    assert("subcommands"@[0] != "global"@[0]);
    assert("required"@[0] != "global"@[0]);
    assert("positional"@[0] != "global"@[0]);
    assert("long"@[0] != "global"@[0]);
    assert("short"@[0] != "global"@[0]);
    assert("help"@[0] != "global"@[0]);
    assert("default"@[0] != "global"@[0]);
    assert("possible_values"@[0] != "global"@[0]);
    assert("name"@[0] != "version"@[0]);
    assert("about"@[0] != "version"@[0]);
    assert("args"@[0] != "version"@[0]);
    assert("subcommands"@[0] != "version"@[0]);
    assert("required"@[0] != "version"@[0]);
    assert("positional"@[0] != "version"@[0]);
    assert("long"@[0] != "version"@[0]);
    assert("short"@[0] != "version"@[0]);
    assert("help"@[0] != "version"@[0]);
    assert("default"@[0] != "version"@[0]);
    assert("possible_values"@[0] != "version"@[0]);
    assert("global"@[0] != "version"@[0]);
}

proof fn lemma_local_arg_schema_lacks(a: CliArg, key: Seq<char>)
    requires
        !a.global,
        key == "global"@ || key == "version"@,
    ensures
        lacks_key(arg_json(a), key),
{
    lemma_member_names_differ();
    let fs = arg_json(a)->Object_0;
    let vals = json_strings(names(a.possible_values@));
    lemma_items_lack_all(vals, key, vals.len() as int);
    lemma_members_lack_all(fs, key, fs.len() as int);
}

proof fn lemma_args_schema_lacks(args: Seq<CliArg>, key: Seq<char>, k: int)
    requires
        key == "global"@ || key == "version"@,
    ensures
        forall|i: int|
            0 <= i < json_args(args, false, k).len() ==> lacks_key(
                #[trigger] json_args(args, false, k)[i],
                key,
            ),
    decreases k,
{
    if 0 < k <= args.len() {
        lemma_args_schema_lacks(args, key, k - 1);
        let prev = json_args(args, false, k - 1);
        if schema_arg(args[k - 1], false) {
            lemma_local_arg_schema_lacks(args[k - 1], key);
            assert forall|i: int| 0 <= i < json_args(args, false, k).len() implies lacks_key(
                #[trigger] json_args(args, false, k)[i],
                key,
            ) by {
                if i < prev.len() {
                    assert(json_args(args, false, k)[i] == prev[i]);
                }
            }
        }
    }
}

proof fn lemma_command_schema_lacks(cmd: CliCommand, key: Seq<char>)
    requires
        key == "global"@ || key == "version"@,
    ensures
        lacks_key(command_json(cmd, false), key),
    decreases cmd, 0int,
{
    lemma_member_names_differ();
    let args = json_args(cmd.args@, false, cmd.args@.len() as int);
    let subs = json_subs(cmd.subcommands@, false, cmd.subcommands@.len() as int);
    lemma_args_schema_lacks(cmd.args@, key, cmd.args@.len() as int);
    lemma_subs_schema_lack(cmd.subcommands@, key, cmd.subcommands@.len() as int);
    lemma_items_lack_all(args, key, args.len() as int);
    lemma_items_lack_all(subs, key, subs.len() as int);
    let fs = command_json(cmd, false)->Object_0;
    lemma_members_lack_all(fs, key, fs.len() as int);
}

proof fn lemma_subs_schema_lack(subs: Seq<CliCommand>, key: Seq<char>, k: int)
    requires
        key == "global"@ || key == "version"@,
    ensures
        forall|i: int|
            0 <= i < json_subs(subs, false, k).len() ==> lacks_key(
                #[trigger] json_subs(subs, false, k)[i],
                key,
            ),
    decreases subs, k,
{
    if 0 < k <= subs.len() {
        lemma_subs_schema_lack(subs, key, k - 1);
        let prev = json_subs(subs, false, k - 1);
        if listed_sub(subs[k - 1]) {
            lemma_command_schema_lacks(subs[k - 1], key);
            assert forall|i: int| 0 <= i < json_subs(subs, false, k).len() implies lacks_key(
                #[trigger] json_subs(subs, false, k)[i],
                key,
            ) by {
                if i < prev.len() {
                    assert(json_subs(subs, false, k)[i] == prev[i]);
                }
            }
        }
    }
}

/// The scoped schema strips globals: with `with_globals` unset, no object
/// at any depth has a `global` or a `version` member.
pub proof fn lemma_scoped_schema_strips_globals(cmd: CliCommand)
    ensures
        lacks_key(command_json(cmd, false), "global"@),
        lacks_key(command_json(cmd, false), "version"@),
{
    lemma_command_schema_lacks(cmd, "global"@);
    lemma_command_schema_lacks(cmd, "version"@);
}

fn push_member(fields: &mut Vec<(String, JsonValue)>, key: &str, value: JsonValue)
    ensures
        members(final(fields)@) == members(old(fields)@).push((key@, json_model(value))),
{
    let ghost before = members(fields@);
    let ghost v = json_model(value);
    fields.push((own(key), value));
    assert(members(fields@) =~= before.push((key@, v)));
}

fn json_string_list(values: &Vec<String>) -> (r: JsonValue)
    ensures
        json_model(r) == JsonModel::Array(json_strings(names(values@))),
{
    let mut out: Vec<JsonValue> = Vec::new();
    let mut i: usize = 0;
    while i < values.len()
        invariant
            i <= values.len(),
            items(out@) == json_strings(names(values@)).take(i as int),
        decreases values.len() - i,
    {
        let ghost before = items(out@);
        let v = JsonValue::Str(values[i].clone());
        assert(json_model(v) == JsonModel::Str(values@[i as int]@));
        assert(json_strings(names(values@))[i as int] == JsonModel::Str(values@[i as int]@));
        out.push(v);
        assert(items(out@) =~= before.push(json_model(v)));
        i += 1;
        assert(items(out@) =~= json_strings(names(values@)).take(i as int));
    }
    assert(json_strings(names(values@)).take(values.len() as int) =~= json_strings(names(values@)));
    proof {
        lemma_array_model(out);
    }
    JsonValue::Array(out)
}

fn joined(values: &Vec<String>, sep: &str) -> (r: String)
    ensures
        r@ == join_spec(names(values@), sep@),
{
    let mut s = String::new();
    push_joined(&mut s, values, sep);
    assert(s@ =~= join_spec(names(values@), sep@));
    s
}

/// The model of an optional JSON value.
pub open spec fn opt_model(o: Option<JsonValue>) -> Option<JsonModel> {
    match o {
        Some(v) => Some(json_model(v)),
        None => None,
    }
}

fn push_member_if(fields: &mut Vec<(String, JsonValue)>, key: &str, value: Option<JsonValue>)
    ensures
        members(final(fields)@) == members(old(fields)@) + member_if(key@, opt_model(value)),
{
    let ghost before = members(fields@);
    match value {
        Some(v) => push_member(fields, key, v),
        None => {},
    }
    assert(members(fields@) =~= before + member_if(key@, opt_model(value)));
}

fn long_json(a: &CliArg) -> (r: Option<JsonValue>)
    ensures
        opt_model(r) == match a.long {
            Some(l) => Some(JsonModel::Str("--"@ + l@)),
            None => None::<JsonModel>,
        },
{
    match &a.long {
        Some(l) => {
            let mut s = own("--");
            push_str(&mut s, l.as_str());
            Some(JsonValue::Str(s))
        },
        None => None,
    }
}

fn short_json(a: &CliArg) -> (r: Option<JsonValue>)
    ensures
        opt_model(r) == match a.short {
            Some(c) => Some(JsonModel::Str("-"@ + seq![c])),
            None => None::<JsonModel>,
        },
{
    match a.short {
        Some(c) => {
            let mut s = own("-");
            push_char(&mut s, c);
            assert(s@ =~= "-"@ + seq![c]);
            Some(JsonValue::Str(s))
        },
        None => None,
    }
}

fn help_json(a: &CliArg) -> (r: Option<JsonValue>)
    ensures
        opt_model(r) == match a.help {
            Some(h) => Some(JsonModel::Str(h@)),
            None => None::<JsonModel>,
        },
{
    match &a.help {
        Some(h) => Some(JsonValue::Str(h.clone())),
        None => None,
    }
}

fn default_json(a: &CliArg) -> (r: Option<JsonValue>)
    ensures
        opt_model(r) == if a.default_values@.len() > 0 {
            Some(JsonModel::Str(join_spec(names(a.default_values@), ", "@)))
        } else {
            None
        },
{
    if a.default_values.len() > 0 {
        Some(JsonValue::Str(joined(&a.default_values, ", ")))
    } else {
        None
    }
}

fn values_json(a: &CliArg) -> (r: Option<JsonValue>)
    ensures
        opt_model(r) == if a.takes_values && a.possible_values@.len() > 0 {
            Some(JsonModel::Array(json_strings(names(a.possible_values@))))
        } else {
            None
        },
{
    if a.takes_values && a.possible_values.len() > 0 {
        Some(json_string_list(&a.possible_values))
    } else {
        None
    }
}

/// The schema of one argument: its id, whether it is required and
/// positional, and its names, help, defaults, values and globality where
/// it has them.
pub fn arg_to_json(a: &CliArg) -> (r: JsonValue)
    ensures
        json_model(r) == arg_json(*a),
{
    let mut fields: Vec<(String, JsonValue)> = Vec::new();
    push_member(&mut fields, "name", JsonValue::Str(a.id.clone()));
    push_member(&mut fields, "required", JsonValue::Bool(a.required));
    push_member(&mut fields, "positional", JsonValue::Bool(a.positional()));
    let ghost m0 = members(fields@);
    assert(m0 =~= seq![
        ("name"@, JsonModel::Str(a.id@)),
        ("required"@, JsonModel::Bool(a.required)),
        ("positional"@, JsonModel::Bool(is_positional(*a))),
    ]);
    let long = long_json(a);
    let short = short_json(a);
    let help = help_json(a);
    let default = default_json(a);
    let values = values_json(a);
    let global = if a.global {
        Some(JsonValue::Bool(true))
    } else {
        None
    };
    let ghost (ml, ms, mh, md, mv, mg) = (
        opt_model(long),
        opt_model(short),
        opt_model(help),
        opt_model(default),
        opt_model(values),
        opt_model(global),
    );
    push_member_if(&mut fields, "long", long);
    push_member_if(&mut fields, "short", short);
    push_member_if(&mut fields, "help", help);
    push_member_if(&mut fields, "default", default);
    push_member_if(&mut fields, "possible_values", values);
    push_member_if(&mut fields, "global", global);
    assert(members(fields@) == m0 + member_if("long"@, ml) + member_if("short"@, ms) + member_if(
        "help"@,
        mh,
    ) + member_if("default"@, md) + member_if("possible_values"@, mv) + member_if("global"@, mg));
    proof {
        lemma_object_model(fields);
    }
    JsonValue::Object(fields)
}

fn args_json(args: &Vec<CliArg>, with_globals: bool) -> (r: Vec<JsonValue>)
    ensures
        items(r@) == json_args(args@, with_globals, args.len() as int),
{
    let mut out: Vec<JsonValue> = Vec::new();
    let mut i: usize = 0;
    while i < args.len()
        invariant
            i <= args.len(),
            items(out@) == json_args(args@, with_globals, i as int),
        decreases args.len() - i,
    {
        let a = &args[i];
        if is_listed_arg(a) && (with_globals || !a.global) {
            let ghost before = items(out@);
            let v = arg_to_json(a);
            out.push(v);
            assert(items(out@) =~= before.push(arg_json(*a)));
        }
        i += 1;
    }
    out
}

/// The schema of `cmd`: its name and about text, its version (with
/// `with_globals` set), its shown arguments and the schemas of its listed
/// subcommands.
pub fn command_to_json(cmd: &CliCommand, with_globals: bool) -> (r: JsonValue)
    ensures
        json_model(r) == command_json(*cmd, with_globals),
    decreases cmd, 0int,
{
    let args = args_json(&cmd.args, with_globals);
    let mut subs: Vec<JsonValue> = Vec::new();
    let mut i: usize = 0;
    while i < cmd.subcommands.len()
        invariant
            i <= cmd.subcommands.len(),
            items(subs@) == json_subs(cmd.subcommands@, with_globals, i as int),
        decreases cmd.subcommands.len() - i,
    {
        if is_listed_sub(&cmd.subcommands[i]) {
            proof {
                assert(decreases_to!(*cmd => cmd.subcommands));
                assert(decreases_to!(cmd.subcommands => cmd.subcommands@));
                assert(decreases_to!(cmd.subcommands@ => cmd.subcommands@[i as int]));
                assert(decreases_to!(*cmd => cmd.subcommands@[i as int]));
            }
            let ghost before = items(subs@);
            let v = command_to_json(&cmd.subcommands[i], with_globals);
            subs.push(v);
            assert(items(subs@) =~= before.push(command_json(cmd.subcommands@[i as int], with_globals)));
        }
        i += 1;
    }
    let mut fields: Vec<(String, JsonValue)> = Vec::new();
    push_member(&mut fields, "name", JsonValue::Str(cmd.name.clone()));
    let about = match &cmd.about {
        Some(a) => JsonValue::Str(a.clone()),
        None => JsonValue::Null,
    };
    push_member(&mut fields, "about", about);
    if with_globals {
        match &cmd.version {
            Some(v) => {
                push_member(&mut fields, "version", JsonValue::Str(v.clone()));
            },
            None => {},
        }
    }
    if args.len() > 0 {
        proof {
            lemma_array_model(args);
        }
        push_member(&mut fields, "args", JsonValue::Array(args));
    }
    if subs.len() > 0 {
        proof {
            lemma_array_model(subs);
        }
        push_member(&mut fields, "subcommands", JsonValue::Array(subs));
    }
    proof {
        lemma_object_model(fields);
        assert(members(fields@) =~= command_json(*cmd, with_globals)->Object_0);
    }
    JsonValue::Object(fields)
}

/// The schema of the whole interface, or, for a dotted `path`, of the
/// command it names with global arguments and the version left out.
pub fn generate_json(cmd: &CliCommand, path: Option<&str>) -> (r: Result<JsonValue, HelpError>)
    ensures
        match path {
            None => r matches Ok(v) && json_model(v) == command_json(*cmd, true),
            Some(p) => match resolve(*cmd, path_parts(p@)) {
                Ok(c) => r matches Ok(v) && json_model(v) == command_json(c, false),
                Err((part, avail)) => r matches Err(e) && reports_unknown(e, part, avail),
            },
        },
{
    match path {
        None => Ok(command_to_json(cmd, true)),
        Some(p) => match resolve_command(cmd, p) {
            Ok(c) => Ok(command_to_json(c, false)),
            Err(e) => Err(e),
        },
    }
}

// ---------------------------------------------------------------------------
// Agent skill files
// ---------------------------------------------------------------------------

/// `s` with every non-overlapping occurrence of the non-empty `pat`, taken
/// from the left, replaced by `rep` (`str::replace`).
pub open spec fn replace_all(s: Seq<char>, pat: Seq<char>, rep: Seq<char>) -> Seq<char>
    decreases s.len(),
{
    if pat.len() == 0 || s.len() < pat.len() {
        s
    } else if s.take(pat.len() as int) == pat {
        rep + replace_all(s.skip(pat.len() as int), pat, rep)
    } else {
        seq![s[0]] + replace_all(s.skip(1), pat, rep)
    }
}

/// The placeholder that skill templates hold for the program's version.
pub const VERSION_PLACEHOLDER: &'static str = "{{VERSION}}";

/// A skill file: `template` with each version placeholder replaced by
/// `version`.
pub fn render_skill(template: &str, version: &str) -> (r: String)
    ensures
        r@ == replace_all(template@, VERSION_PLACEHOLDER@, version@),
{
    let s = to_chars(template);
    let pat = to_chars(VERSION_PLACEHOLDER);
    proof {
        reveal_strlit("{{VERSION}}");
    }
    assert(pat@.len() == 11);
    let mut out = String::new();
    let mut i: usize = 0;
    assert(s@.skip(0) =~= s@);
    assert(out@ + replace_all(s@, pat@, version@) =~= replace_all(s@, pat@, version@));
    while i < s.len()
        invariant
            i <= s.len(),
            s@ == template@,
            pat@ == VERSION_PLACEHOLDER@,
            pat@.len() == 11,
            out@ + replace_all(s@.skip(i as int), pat@, version@) == replace_all(
                template@,
                pat@,
                version@,
            ),
        decreases s.len() - i,
    {
        let ghost rest = s@.skip(i as int);
        if matches_at(&s, &pat, i) {
            assert(rest.take(11) =~= s@.subrange(i as int, i + 11));
            assert(rest.skip(11) =~= s@.skip(i + 11));
            push_str(&mut out, version);
            i += 11;
        } else {
            proof {
                if rest.len() >= 11 {
                    assert(rest.take(11) =~= s@.subrange(i as int, i + 11));
                }
                assert(rest.skip(1) =~= s@.skip(i + 1));
            }
            assert(replace_all(rest, pat@, version@) == seq![s@[i as int]] + replace_all(
                rest.skip(1),
                pat@,
                version@,
            ));
            push_char(&mut out, s[i]);
            i += 1;
        }
    }
    assert(s@.skip(s.len() as int) =~= Seq::<char>::empty());
    assert(out@ =~= replace_all(template@, pat@, version@));
    out
}

/// The paragraph that points agents at the program from a project's
/// instruction file.
pub const BOOTSTRAP_HINT: &'static str = "## flint\n\n`flint` (Fleet GitOps linter) is available. Run `flint setup-agent` to install the AI agent skill, or `flint help-ai` for the command reference.\n";

/// The new content of a project's instruction file, given its current
/// content (`None` when there is none), or `None` when it already mentions
/// the program's agent commands and is left alone.
pub open spec fn instructions_update(existing: Option<Seq<char>>) -> Option<Seq<char>> {
    match existing {
        None => Some("# Project Instructions\n\n"@ + BOOTSTRAP_HINT@),
        Some(e) => if has_substr(e, "flint setup-agent"@) || has_substr(e, "flint help-ai"@) {
            None
        } else {
            Some(
                (if e.len() > 0 && e.last() == '\n' {
                    e
                } else {
                    e.push('\n')
                }) + "\n"@ + BOOTSTRAP_HINT@,
            )
        },
    }
}

/// The new content of a project's instruction file with the bootstrap
/// hint added, or `None` when the file already mentions `flint setup-agent`
/// or `flint help-ai`.
pub fn update_instructions(existing: Option<&str>) -> (r: Option<String>)
    ensures
        opt_view(r) == instructions_update(
            match existing {
                Some(e) => Some(e@),
                None => None,
            },
        ),
{
    match existing {
        None => {
            let mut s = own("# Project Instructions\n\n");
            push_str(&mut s, BOOTSTRAP_HINT);
            Some(s)
        },
        Some(e) => {
            let chars = to_chars(e);
            if contains_str(&chars, "flint setup-agent") || contains_str(&chars, "flint help-ai") {
                None
            } else {
                let mut s = own(e);
                if !(chars.len() > 0 && chars[chars.len() - 1] == '\n') {
                    push_char(&mut s, '\n');
                }
                push_str(&mut s, "\n");
                push_str(&mut s, BOOTSTRAP_HINT);
                Some(s)
            }
        },
    }
}

/// The bootstrap hint names `flint setup-agent`.
proof fn lemma_hint_names_setup(prefix: Seq<char>)
    ensures
        has_substr(prefix + BOOTSTRAP_HINT@, "flint setup-agent"@),
{
    reveal_strlit("## flint\n\n`flint` (Fleet GitOps linter) is available. Run `flint setup-agent` to install the AI agent skill, or `flint help-ai` for the command reference.\n");
    reveal_strlit("flint setup-agent");
    let t = prefix + BOOTSTRAP_HINT@;
    let i = prefix.len() as int + 59;
    assert(t.subrange(i, i + 17) =~= "flint setup-agent"@);
    assert(occurs_at(t, "flint setup-agent"@, i));
}

/// The hint is added once: the content an update produces is left alone by
/// the next update.
pub proof fn lemma_instructions_update_once(existing: Option<Seq<char>>)
    ensures
        instructions_update(existing) matches Some(n) ==> instructions_update(Some(n)) is None,
{
    match existing {
        None => lemma_hint_names_setup("# Project Instructions\n\n"@),
        Some(e) => {
            let base = if e.len() > 0 && e.last() == '\n' {
                e
            } else {
                e.push('\n')
            };
            lemma_hint_names_setup(base + "\n"@);
        },
    }
}

// ---------------------------------------------------------------------------
// Building the model
// ---------------------------------------------------------------------------

impl CliArg {
    /// An argument with the given id and nothing else set; its action
    /// takes values.
    pub fn new(id: &str) -> (r: CliArg)
        ensures
            r.id@ == id@,
            r.long is None,
            r.short is None,
            r.help is None,
            !r.required,
            !r.hidden,
            !r.global,
            r.takes_values,
            r.default_values@.len() == 0,
            r.possible_values@.len() == 0,
    {
        CliArg {
            id: own(id),
            long: None,
            short: None,
            help: None,
            required: false,
            hidden: false,
            global: false,
            takes_values: true,
            default_values: Vec::new(),
            possible_values: Vec::new(),
        }
    }

    /// The argument with the long name `l`.
    pub fn long(self, l: &str) -> (r: CliArg)
        ensures
            opt_view(r.long) == Some(l@),
            r == (CliArg { long: r.long, ..self }),
    {
        CliArg { long: Some(own(l)), ..self }
    }

    /// The argument with the short name `c`.
    pub fn short(self, c: char) -> (r: CliArg)
        ensures
            r == (CliArg { short: Some(c), ..self }),
    {
        CliArg { short: Some(c), ..self }
    }

    /// The argument with the help text `h`.
    pub fn help(self, h: &str) -> (r: CliArg)
        ensures
            opt_view(r.help) == Some(h@),
            r == (CliArg { help: r.help, ..self }),
    {
        CliArg { help: Some(own(h)), ..self }
    }

    /// The argument, required or not.
    pub fn required(self, b: bool) -> (r: CliArg)
        ensures
            r == (CliArg { required: b, ..self }),
    {
        CliArg { required: b, ..self }
    }

    /// The argument, hidden or not.
    pub fn hidden(self, b: bool) -> (r: CliArg)
        ensures
            r == (CliArg { hidden: b, ..self }),
    {
        CliArg { hidden: b, ..self }
    }

    /// The argument, global or not.
    pub fn global(self, b: bool) -> (r: CliArg)
        ensures
            r == (CliArg { global: b, ..self }),
    {
        CliArg { global: b, ..self }
    }

    /// The argument whose action does or does not take values.
    pub fn takes_values(self, b: bool) -> (r: CliArg)
        ensures
            r == (CliArg { takes_values: b, ..self }),
    {
        CliArg { takes_values: b, ..self }
    }

    /// The argument with one more default value.
    pub fn default_value(self, v: &str) -> (r: CliArg)
        ensures
            names(r.default_values@) == names(self.default_values@).push(v@),
            r == (CliArg { default_values: r.default_values, ..self }),
    {
        let mut d = self.default_values;
        d.push(own(v));
        assert(names(d@) =~= names(self.default_values@).push(v@));
        CliArg { default_values: d, ..self }
    }

    /// The argument with one more accepted value.
    pub fn possible_value(self, v: &str) -> (r: CliArg)
        ensures
            names(r.possible_values@) == names(self.possible_values@).push(v@),
            r == (CliArg { possible_values: r.possible_values, ..self }),
    {
        let mut p = self.possible_values;
        p.push(own(v));
        assert(names(p@) =~= names(self.possible_values@).push(v@));
        CliArg { possible_values: p, ..self }
    }
}

impl CliCommand {
    /// A command with the given name and nothing else.
    pub fn new(name: &str) -> (r: CliCommand)
        ensures
            r.name@ == name@,
            r.about is None,
            r.long_about is None,
            r.version is None,
            !r.hidden,
            r.args@.len() == 0,
            r.subcommands@.len() == 0,
    {
        CliCommand {
            name: own(name),
            about: None,
            long_about: None,
            version: None,
            hidden: false,
            args: Vec::new(),
            subcommands: Vec::new(),
        }
    }

    /// The command with the about text `a`.
    pub fn about(self, a: &str) -> (r: CliCommand)
        ensures
            opt_view(r.about) == Some(a@),
            r == (CliCommand { about: r.about, ..self }),
    {
        CliCommand { about: Some(own(a)), ..self }
    }

    /// The command with the long about text `a`.
    pub fn long_about(self, a: &str) -> (r: CliCommand)
        ensures
            opt_view(r.long_about) == Some(a@),
            r == (CliCommand { long_about: r.long_about, ..self }),
    {
        CliCommand { long_about: Some(own(a)), ..self }
    }

    /// The command with the version `v`.
    pub fn version(self, v: &str) -> (r: CliCommand)
        ensures
            opt_view(r.version) == Some(v@),
            r == (CliCommand { version: r.version, ..self }),
    {
        CliCommand { version: Some(own(v)), ..self }
    }

    /// The command, hidden or not.
    pub fn hidden(self, b: bool) -> (r: CliCommand)
        ensures
            r == (CliCommand { hidden: b, ..self }),
    {
        CliCommand { hidden: b, ..self }
    }

    /// The command with one more argument.
    pub fn arg(self, a: CliArg) -> (r: CliCommand)
        ensures
            r.args@ == self.args@.push(a),
            r == (CliCommand { args: r.args, ..self }),
    {
        let mut args = self.args;
        args.push(a);
        CliCommand { args, ..self }
    }

    /// The command with one more subcommand.
    pub fn subcommand(self, c: CliCommand) -> (r: CliCommand)
        ensures
            r.subcommands@ == self.subcommands@.push(c),
            r == (CliCommand { subcommands: r.subcommands, ..self }),
    {
        let mut subs = self.subcommands;
        subs.push(c);
        CliCommand { subcommands: subs, ..self }
    }
}

} // verus!
