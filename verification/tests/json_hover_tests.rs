use flint::json_hover::{
    determine_json_context, extract_json_key, find_json_key_at, is_declaration_profile,
    is_dep_profile, json_hover_at, leading_spaces, md,
};
use flint::lsp::Position;

#[test]
fn test_find_json_key_at() {
    let line = r#"  "profile_name": "Automatic enrollment profile","#;
    let result = find_json_key_at(line, 5);
    assert!(result.is_some());
    let (key, start, end) = result.unwrap();
    assert_eq!(key, "profile_name");
    assert_eq!(start, 2); // opening quote
    assert_eq!(end, 16); // after closing quote
}

#[test]
fn test_find_json_key_at_cursor_on_quote() {
    let line = r#"  "allow_pairing": true,"#;
    let result = find_json_key_at(line, 2); // on opening quote
    assert!(result.is_some());
    assert_eq!(result.unwrap().0, "allow_pairing");
}

#[test]
fn test_find_json_key_not_value() {
    let line = r#"  "profile_name": "Automatic enrollment profile","#;
    // Cursor on the value string should return None
    let result = find_json_key_at(line, 25);
    assert!(result.is_none());
}

#[test]
fn test_determine_json_context_top_level() {
    let source = r#"{
  "profile_name": "test",
  "allow_pairing": true
}"#;
    let ctx = determine_json_context(source, 1);
    assert!(ctx.is_empty(), "Top-level keys should have empty context");
}

#[test]
fn test_determine_json_context_nested() {
    let source = r#"{
  "Type": "com.apple.configuration.softwareupdate.enforcement.specific",
  "Payload": {
    "TargetOSVersion": "15.0"
  }
}"#;
    let ctx = determine_json_context(source, 3);
    assert_eq!(ctx, "Payload");
}

#[test]
fn test_hover_dep_profile() {
    let source = r#"{
  "profile_name": "Automatic enrollment profile",
  "allow_pairing": true,
  "is_supervised": true
}"#;
    let hover = json_hover_at(
        source,
        Position {
            line: 1,
            character: 5,
        },
        "automatic-enrollment.dep.json",
    );
    assert!(hover.is_some());
    let content = hover.unwrap().contents;
    assert!(content.contains("profile_name"));
    assert!(content.contains("human-readable"));
}

#[test]
fn test_hover_ddm_payload_field() {
    let source = r#"{
  "Type": "com.apple.configuration.softwareupdate.enforcement.specific",
  "Payload": {
    "TargetOSVersion": "26.4"
  }
}"#;
    let hover = json_hover_at(
        source,
        Position {
            line: 3,
            character: 8,
        },
        "declaration-profiles/software-update.json",
    );
    assert!(hover.is_some());
    let content = hover.unwrap().contents;
    assert!(content.contains("TargetOSVersion"));
    assert!(content.contains("target OS version"));
}

#[test]
fn test_hover_skip_setup_items() {
    let source = r#"{
  "skip_setup_items": ["AppleID", "Siri"]
}"#;
    let hover = json_hover_at(
        source,
        Position {
            line: 1,
            character: 8,
        },
        "enrollment.dep.json",
    );
    assert!(hover.is_some());
    let content = hover.unwrap().contents;
    assert!(content.contains("skip_setup_items"));
    assert!(content.contains("Setup Assistant"));
}

#[test]
fn test_is_dep_profile() {
    assert!(is_dep_profile("automatic-enrollment.dep.json"));
    assert!(is_dep_profile("/path/to/enrollment-profiles/auto.json"));
    assert!(!is_dep_profile("declaration-profiles/update.json"));
}

#[test]
fn test_is_declaration_profile() {
    assert!(is_declaration_profile(
        "declaration-profiles/software-update.json"
    ));
    assert!(!is_declaration_profile("enrollment.dep.json"));
}

#[test]
fn hover_range_and_markdown_exact() {
    let source = "{\n  \"region\": \"US\"\n}";
    let hover = json_hover_at(source, Position { line: 1, character: 3 }, "x.dep.json").unwrap();
    let range = hover.range.unwrap();
    assert_eq!((range.start.line, range.start.character), (1, 2));
    assert_eq!((range.end.line, range.end.character), (1, 10));
    assert!(hover.contents.starts_with("**region**\n\n"));
    assert!(hover.contents.contains("**Type:** `string`"));
    assert!(hover.contents.ends_with("\"region\": \"US\"\n```"));
    // Unknown key, and a line past the end.
    assert!(json_hover_at("{\n  \"nope\": 1\n}", Position { line: 1, character: 3 }, "x.dep.json").is_none());
    assert!(json_hover_at(source, Position { line: 9, character: 0 }, "x.dep.json").is_none());
}

#[test]
fn hover_without_hint_tries_both_sets() {
    let source = "{\n  \"Identifier\": \"com.example\"\n}";
    let hover = json_hover_at(source, Position { line: 1, character: 4 }, "profile.json").unwrap();
    assert!(hover.contents.contains("unique identifier"));
}

#[test]
fn keys_with_escapes_and_multibyte_text() {
    // Byte offsets count UTF-8 bytes.
    let line = "  \"é\\\"k\": 1";
    let (key, start, end) = find_json_key_at(line, 3).unwrap();
    assert_eq!(key, "é\\\"k");
    assert_eq!(start, 2);
    assert_eq!(end, 9);
    assert!(find_json_key_at("\"unterminated", 1).is_none());
    assert!(find_json_key_at("\"a\" \"b\":", 5).is_some());
}

#[test]
fn json_line_keys_and_indentation() {
    assert_eq!(extract_json_key("  \"Payload\": {").as_deref(), Some("Payload"));
    assert_eq!(extract_json_key("\"value\""), None);
    assert_eq!(leading_spaces("    x"), 4);
    assert_eq!(leading_spaces("\u{3000}x"), 3);
    assert_eq!(
        md("n", "d", "t", None),
        "**n**\n\nd\n\n**Type:** `t`"
    );
}

#[test]
fn nested_context_two_levels() {
    let source = "{\n  \"A\": {\n    \"B\": {\n      \"c\": 1\n    }\n  }\n}";
    assert_eq!(determine_json_context(source, 3), "A.B");
    assert_eq!(determine_json_context(source, 100), "");
}

#[test]
fn hover_range_spans_cursor() {
    let source = "{\n  \"profile_name\": \"x\",\n  \"allow_pairing\": true\n}";
    for character in 2..18 {
        let pos = Position { line: 1, character };
        if let Some(h) = json_hover_at(source, pos, "a.dep.json") {
            let r = h.range.unwrap();
            assert_eq!(r.start.line, 1);
            assert_eq!(r.end.line, 1);
            assert!(r.start.character <= character && character < r.end.character);
        }
    }
    assert!(json_hover_at(source, Position { line: 1, character: 2 }, "a.dep.json").is_some());
    assert!(json_hover_at(source, Position { line: 1, character: 22 }, "a.dep.json").is_none());
}

#[test]
fn json_context_and_keys_on_long_lines() {
    let source = "{\n  \"Payload\": {\n    \"TargetOSVersion\": \"14\"\n  }\n}";
    assert_eq!(determine_json_context(source, 2), "Payload");
    let line = format!("  \"{}\": 1,", "k".repeat(70_000));
    let (key, start, end) = find_json_key_at(&line, 5).unwrap();
    assert_eq!((key.len(), start, end), (70_000, 2, 70_004));
}
