use flint::help_agents::{
    generate_command, generate_full, generate_index, generate_json, generate_sop,
    render_skill, update_instructions, CliArg, CliCommand, HelpError, JsonValue, BOOTSTRAP_HINT,
    SOP_LINT, SOP_LSP, SOP_MIGRATE,
};

fn sample_cmd() -> CliCommand {
    CliCommand::new("flint")
        .version("0.1.0")
        .about("Test tool")
        .subcommand(
            CliCommand::new("check")
                .about("Lint YAML files")
                .arg(CliArg::new("path").required(true))
                .arg(CliArg::new("fix").long("fix").takes_values(false).help("Auto-fix")),
        )
        .subcommand(
            CliCommand::new("migrate")
                .about("Generate migration report")
                .arg(CliArg::new("path").required(true)),
        )
}

/// The schema as a `serde_json` value, printed and parsed back.
fn to_serde(v: &JsonValue) -> serde_json::Value {
    match v {
        JsonValue::Null => serde_json::Value::Null,
        JsonValue::Bool(b) => serde_json::Value::Bool(*b),
        JsonValue::Str(s) => serde_json::Value::String(s.clone()),
        JsonValue::Array(items) => serde_json::Value::Array(items.iter().map(to_serde).collect()),
        JsonValue::Object(fields) => {
            let mut map = serde_json::Map::new();
            for (k, v) in fields {
                map.insert(k.clone(), to_serde(v));
            }
            serde_json::Value::Object(map)
        }
    }
}

fn printed(v: &JsonValue) -> serde_json::Value {
    let text = serde_json::to_string_pretty(&to_serde(v)).unwrap();
    serde_json::from_str(&text).unwrap()
}

#[test]
fn test_generate_index() {
    let cmd = sample_cmd();
    let output = generate_index(&cmd);
    assert!(output.contains("# flint"));
    assert!(output.contains("## Command index"));
    assert!(output.contains("check"));
    assert!(output.contains("migrate"));
}

#[test]
fn test_generate_command() {
    let cmd = sample_cmd();
    let output = generate_command(&cmd, "check").ok().unwrap();
    assert!(output.contains("# flint check"));
    assert!(output.contains("--fix"));
}

#[test]
fn test_generate_command_not_found() {
    let cmd = sample_cmd();
    let result = generate_command(&cmd, "nonexistent");
    assert!(result.is_err());
}

#[test]
fn test_generate_sop_lint() {
    let output = generate_sop("lint").ok().unwrap();
    assert!(output.contains("SOP: Linting"));
}

#[test]
fn test_generate_sop_unknown() {
    let result = generate_sop("nonexistent");
    assert!(result.is_err());
}

#[test]
fn test_generate_json() {
    let cmd = sample_cmd();
    let json = printed(&generate_json(&cmd, None).ok().unwrap());
    assert_eq!(json["name"], "flint");
    assert!(json["subcommands"].is_array());
}

#[test]
fn test_generate_json_scoped() {
    let cmd = sample_cmd();
    let json = printed(&generate_json(&cmd, Some("check")).ok().unwrap());
    assert_eq!(json["name"], "check");
}

#[test]
fn index_entries_exact() {
    let output = generate_index(&sample_cmd());
    assert!(output.starts_with(
        "# flint — Fleet GitOps YAML linter and language server\n\n## Agent guide\n\nflint is a CLI tool"
    ));
    assert!(output.contains("2. Run `flint help-ai --command <name>` for full flags"));
    assert!(output.ends_with(
        "## Command index\n\n\
         ### flint check\nLint YAML files\n  <path> (required) — \n  --fix — Auto-fix\n\n\
         ### flint migrate\nGenerate migration report\n  <path> (required) — \n\n"
    ));
}

#[test]
fn index_skips_hidden_help_and_unnamed() {
    let cmd = CliCommand::new("tool")
        .subcommand(CliCommand::new("help").about("Print help"))
        .subcommand(CliCommand::new("secret").hidden(true))
        .subcommand(
            CliCommand::new("run")
                .arg(CliArg::new("help").long("help"))
                .arg(CliArg::new("quiet").short('q'))
                .arg(CliArg::new("internal").long("internal").hidden(true)),
        );
    let output = generate_index(&cmd);
    assert!(output.ends_with("## Command index\n\n### tool run\n\n\n"));
}

#[test]
fn command_detail_exact() {
    let cmd = sample_cmd();
    assert_eq!(
        generate_command(&cmd, "check").ok().unwrap(),
        "# flint check\n\nLint YAML files\n\n## Arguments\n\n\
         - `<path>` **(required)** — \n- `--fix` — Auto-fix\n"
    );
}

#[test]
fn command_detail_values_and_subcommands() {
    let cmd = CliCommand::new("flint").subcommand(
        CliCommand::new("fleet")
            .about("Fleet commands")
            .long_about("Talk to a Fleet server")
            .arg(
                CliArg::new("format")
                    .long("format")
                    .short('f')
                    .help("Output format")
                    .default_value("text")
                    .possible_value("text")
                    .possible_value("json"),
            )
            .arg(CliArg::new("verbose").short('v').takes_values(false).global(true))
            .subcommand(CliCommand::new("apply").about("Apply changes"))
            .subcommand(CliCommand::new("help")),
    );
    assert_eq!(
        generate_command(&cmd, "fleet").ok().unwrap(),
        "# flint fleet\n\nFleet commands\n\nTalk to a Fleet server\n\n## Arguments\n\n\
         - `--format` / `-f` — Output format\n  Default: `text`\n  Values: text, json\n\
         ## Subcommands\n\n- `flint fleet apply` — Apply changes\n\n"
    );
    assert_eq!(
        generate_command(&cmd, "fleet.apply").ok().unwrap(),
        "# flint fleet apply\n\nApply changes\n\n"
    );
}

#[test]
fn unknown_command_messages() {
    let cmd = sample_cmd();
    let err = generate_command(&cmd, "nonexistent").err().unwrap();
    assert_eq!(err.message(), "Unknown command 'nonexistent'. Available: check, migrate");
    let err = generate_command(&cmd, "check.deeper").err().unwrap();
    assert!(matches!(err, HelpError::UnknownCommand { .. }));
    assert_eq!(err.message(), "Unknown command 'deeper'. Available: ");
    let err = generate_json(&cmd, Some("")).err().unwrap();
    assert_eq!(err.message(), "Unknown command ''. Available: check, migrate");
}

#[test]
fn full_reference_exact() {
    assert_eq!(
        generate_full(&sample_cmd()),
        "# flint — complete CLI reference\n\n\
         ## flint check\nLint YAML files\n\n- `<path>` **(required)** — \n- `--fix` — Auto-fix\n\n\
         ## flint migrate\nGenerate migration report\n\n- `<path>` **(required)** — \n\n"
    );
}

#[test]
fn full_reference_nests() {
    let cmd = CliCommand::new("t").subcommand(
        CliCommand::new("a").subcommand(CliCommand::new("b").about("B")).subcommand(
            CliCommand::new("c").hidden(true),
        ),
    );
    assert_eq!(generate_full(&cmd), "# t — complete CLI reference\n\n## t a\n\n\n## t a b\nB\n\n");
}

#[test]
fn sops_by_alias_and_case() {
    assert_eq!(generate_sop("LINT").ok().unwrap(), SOP_LINT);
    assert_eq!(generate_sop("check").ok().unwrap(), SOP_LINT);
    assert_eq!(generate_sop("Migration").ok().unwrap(), SOP_MIGRATE);
    assert_eq!(generate_sop("editors").ok().unwrap(), SOP_LSP);
    assert!(SOP_MIGRATE.contains("teams/` -> `fleets/"));
    let err = generate_sop("nonexistent").err().unwrap();
    assert_eq!(err.message(), "Unknown SOP: 'nonexistent'. Available: lint, migrate, lsp");
}

#[test]
fn json_schema_members() {
    let cmd = CliCommand::new("flint")
        .version("1.0")
        .arg(CliArg::new("config").long("config").global(true))
        .subcommand(
            CliCommand::new("check")
                .arg(CliArg::new("config").long("config").global(true))
                .arg(
                    CliArg::new("format")
                        .long("format")
                        .short('f')
                        .help("Output")
                        .default_value("text")
                        .possible_value("text")
                        .possible_value("json"),
                ),
        );
    let full = printed(&generate_json(&cmd, None).ok().unwrap());
    assert_eq!(full["version"], "1.0");
    assert_eq!(full["about"], serde_json::Value::Null);
    assert_eq!(full["args"][0]["long"], "--config");
    assert_eq!(full["args"][0]["global"], true);
    let check = &full["subcommands"][0];
    assert_eq!(check["args"].as_array().unwrap().len(), 2);
    let format = &check["args"][1];
    assert_eq!(format["name"], "format");
    assert_eq!(format["short"], "-f");
    assert_eq!(format["required"], false);
    assert_eq!(format["positional"], false);
    assert_eq!(format["default"], "text");
    assert_eq!(format["possible_values"][1], "json");
    assert!(format.get("global").is_none());

    let scoped = printed(&generate_json(&cmd, Some("check")).ok().unwrap());
    assert!(scoped.get("version").is_none());
    assert_eq!(scoped["args"].as_array().unwrap().len(), 1);
    assert_eq!(scoped["args"][0]["name"], "format");
}

#[test]
fn skill_template_rendering() {
    assert_eq!(render_skill("v{{VERSION}} and {{VERSION}}", "1.2"), "v1.2 and 1.2");
    assert_eq!(render_skill("{{VERSION", "1.2"), "{{VERSION");
    assert_eq!(render_skill("{{{VERSION}}}", "x"), "{x}");
}

#[test]
fn instructions_file_updates() {
    assert_eq!(
        update_instructions(None),
        Some(format!("# Project Instructions\n\n{BOOTSTRAP_HINT}"))
    );
    assert_eq!(
        update_instructions(Some("# Notes")),
        Some(format!("# Notes\n\n{BOOTSTRAP_HINT}"))
    );
    assert_eq!(
        update_instructions(Some("# Notes\n")),
        Some(format!("# Notes\n\n{BOOTSTRAP_HINT}"))
    );
    assert_eq!(update_instructions(Some("")), Some(format!("\n\n{BOOTSTRAP_HINT}")));
    assert_eq!(update_instructions(Some("run flint help-ai first")), None);
    assert_eq!(update_instructions(Some("flint setup-agent")), None);
    assert!(BOOTSTRAP_HINT.starts_with("## flint\n\n`flint` (Fleet GitOps linter) is available. Run"));
}

#[test]
fn instructions_hint_added_once() {
    for existing in [None, Some("# Notes"), Some(""), Some("text\n")] {
        let updated = update_instructions(existing).unwrap();
        assert_eq!(update_instructions(Some(&updated)), None);
    }
}

#[test]
fn scoped_schema_has_no_globals_at_any_depth() {
    let cmd = CliCommand::new("flint").version("2").subcommand(
        CliCommand::new("a")
            .arg(CliArg::new("g").long("g").global(true))
            .subcommand(CliCommand::new("b").arg(CliArg::new("g").long("g").global(true))),
    );
    let text = serde_json::to_string(&printed(&generate_json(&cmd, Some("a")).ok().unwrap())).unwrap();
    assert!(!text.contains("\"global\""));
    assert!(!text.contains("\"version\""));
    let full = serde_json::to_string(&printed(&generate_json(&cmd, None).ok().unwrap())).unwrap();
    assert!(full.contains("\"global\":true"));
}
