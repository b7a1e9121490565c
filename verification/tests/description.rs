use ason_mcp::description::{
    assignment_text, default_settings_text, fill, lay_out, render_default_settings,
    render_description, ContextServerDescription, INSTALLATION_INSTRUCTIONS,
};
use ason_mcp::document::JsonValue;
use ason_mcp::settings::{AsonMcpExtensionSettings, Field};

const FIELDS: [Field; 5] =
    [Field::Indent, Field::Delimiter, Field::UseReferences, Field::UseSections, Field::UseTabular];

fn table(entries: Vec<(&str, JsonValue)>) -> JsonValue {
    JsonValue::Table(entries.into_iter().map(|(key, value)| (key.to_string(), value)).collect())
}

fn text(value: &str) -> JsonValue {
    JsonValue::Text(value.to_string())
}

#[test]
fn default_settings_hold_each_placeholder_once() {
    let defaults = AsonMcpExtensionSettings::default();
    let placeholders: Vec<String> =
        FIELDS.iter().map(|field| assignment_text(&defaults, *field)).collect();
    assert_eq!(
        placeholders,
        [
            "\"indent\": 1",
            "\"delimiter\": \"|\"",
            "\"use_references\": true",
            "\"use_sections\": true",
            "\"use_tabular\": true"
        ]
    );
    for placeholder in &placeholders {
        assert_eq!(default_settings_text().matches(placeholder.as_str()).count(), 1, "{}", placeholder);
    }
}

#[test]
fn assignments_write_the_values() {
    let settings = AsonMcpExtensionSettings {
        indent: 20,
        delimiter: ";".to_string(),
        use_references: false,
        use_sections: true,
        use_tabular: false,
    };
    let written: Vec<String> =
        FIELDS.iter().map(|field| assignment_text(&settings, *field)).collect();
    assert_eq!(
        written,
        [
            "\"indent\": 20",
            "\"delimiter\": \";\"",
            "\"use_references\": false",
            "\"use_sections\": true",
            "\"use_tabular\": false"
        ]
    );
}

#[test]
fn absent_settings_leave_the_template_unchanged() {
    assert_eq!(render_default_settings(&Ok(None)), default_settings_text());
    assert_eq!(render_default_settings(&Ok(None)).as_bytes(), default_settings_text().as_bytes());
}

#[test]
fn failed_lookup_leaves_the_template_unchanged() {
    assert_eq!(render_default_settings(&Err("no settings".to_string())), default_settings_text());
}

#[test]
fn rejected_document_leaves_the_template_unchanged() {
    let document = table(vec![("indent", text("abc")), ("delimiter", text(","))]);
    assert_eq!(render_default_settings(&Ok(Some(document))), default_settings_text());
    assert_eq!(render_default_settings(&Ok(Some(JsonValue::Null))), default_settings_text());
}

#[test]
fn document_of_defaults_leaves_the_template_unchanged() {
    let document = table(vec![("indent", JsonValue::Integer(1)), ("delimiter", text("|"))]);
    assert_eq!(render_default_settings(&Ok(Some(document))), default_settings_text());
    assert_eq!(fill(&default_settings_text(), &AsonMcpExtensionSettings::default()), default_settings_text());
    assert_eq!(fill("any text at all", &AsonMcpExtensionSettings::default()), "any text at all");
}

#[test]
fn values_replace_the_defaults() {
    let document = table(vec![
        ("indent", JsonValue::Integer(2)),
        ("delimiter", text("|")),
        ("use_references", JsonValue::Bool(false)),
    ]);
    let rendered = render_default_settings(&Ok(Some(document)));
    assert!(rendered.contains("\"indent\": 2"));
    assert!(rendered.contains("\"delimiter\": \"|\""));
    assert!(rendered.contains("\"use_references\": false"));
    assert!(!rendered.contains("\"indent\": 1"));
    assert!(!rendered.contains("\"use_references\": true"));
    assert!(rendered.contains("\"use_sections\": true"));
    assert!(rendered.contains("\"use_tabular\": true"));
    let expected = default_settings_text()
        .replace("\"indent\": 1", "\"indent\": 2")
        .replace("\"use_references\": true", "\"use_references\": false");
    assert_eq!(rendered, expected);
}

#[test]
fn every_option_is_written_in() {
    let document = table(vec![
        ("indent", JsonValue::Integer(0)),
        ("delimiter", text("\t")),
        ("use_references", JsonValue::Bool(false)),
        ("use_sections", JsonValue::Bool(false)),
        ("use_tabular", JsonValue::Bool(false)),
    ]);
    let rendered = render_default_settings(&Ok(Some(document)));
    let expected = default_settings_text()
        .replace("\"indent\": 1", "\"indent\": 0")
        .replace("\"delimiter\": \"|\"", "\"delimiter\": \"\t\"")
        .replace("\"use_references\": true", "\"use_references\": false")
        .replace("\"use_sections\": true", "\"use_sections\": false")
        .replace("\"use_tabular\": true", "\"use_tabular\": false");
    assert_eq!(rendered, expected);
    for default in [
        "\"indent\": 1",
        "\"delimiter\": \"|\"",
        "\"use_references\": true",
        "\"use_sections\": true",
        "\"use_tabular\": true",
    ] {
        assert!(!rendered.contains(default));
    }
    assert_eq!(rendered.lines().count(), default_settings_text().lines().count());
}

#[test]
fn empty_delimiter_is_written_as_empty_text() {
    let rendered = render_default_settings(&Ok(Some(table(vec![("delimiter", text(""))]))));
    assert!(rendered.contains("\"delimiter\": \"\","));
}

#[test]
fn substitution_is_textual() {
    let settings = AsonMcpExtensionSettings {
        indent: 1,
        delimiter: "\", \"indent\": 1, \"x\": \"".to_string(),
        use_references: true,
        use_sections: true,
        use_tabular: true,
    };
    let template = "{ \"indent\": 1, \"delimiter\": \"|\" }";
    assert_eq!(
        fill(template, &settings),
        "{ \"indent\": 1, \"delimiter\": \"\", \"indent\": 1, \"x\": \"\" }"
    );
    let settings = AsonMcpExtensionSettings { indent: 3, ..settings };
    assert_eq!(
        fill("\"indent\": 1 and \"indent\": 10", &settings),
        "\"indent\": 3 and \"indent\": 30"
    );
}

#[test]
fn description_holds_the_three_texts() {
    let document = table(vec![("indent", JsonValue::Integer(2))]);
    let description =
        render_description(&Ok(Some(document)), Ok("{\"type\":\"object\"}".to_string()));
    assert_eq!(
        description,
        Ok(ContextServerDescription {
            installation_instructions: INSTALLATION_INSTRUCTIONS.to_string(),
            default_settings: default_settings_text().replace("\"indent\": 1", "\"indent\": 2"),
            settings_schema: "{\"type\":\"object\"}".to_string(),
        })
    );
    let description = render_description(&Ok(None), Ok(String::new())).unwrap();
    assert_eq!(description.installation_instructions, INSTALLATION_INSTRUCTIONS);
    assert_eq!(description.default_settings, default_settings_text());
    assert_eq!(description.settings_schema, "");
}

#[test]
fn schema_failure_fails_the_description() {
    assert_eq!(
        render_description(&Ok(None), Err("schema failed".to_string())),
        Err("schema failed".to_string())
    );
    let document = table(vec![("indent", JsonValue::Integer(2))]);
    assert_eq!(
        render_description(&Ok(Some(document)), Err("schema failed".to_string())),
        Err("schema failed".to_string())
    );
}

#[test]
fn instructions_name_the_package() {
    assert!(INSTALLATION_INSTRUCTIONS.contains("@ason-format/mcp-server"));
    assert!(!INSTALLATION_INSTRUCTIONS.is_empty());
}

#[test]
fn default_settings_are_the_annotated_example() {
    assert_eq!(
        default_settings_text(),
        "{\n  /// Indentation level for output (0 = no indentation, 1 = compact, 2+ = pretty print)\n  \"indent\": 1,\n  /// Field delimiter (pipe is default for better token efficiency)\n  \"delimiter\": \"|\",\n  /// Enable $var references to avoid duplication\n  \"use_references\": true,\n  /// Enable @section organization for objects\n  \"use_sections\": true,\n  /// Enable key:[N]{fields} tabular arrays for uniform data\n  \"use_tabular\": true\n}\n"
    );
    assert_eq!(lay_out(&AsonMcpExtensionSettings::default()), default_settings_text());
}

#[test]
fn filling_in_agrees_with_laying_out() {
    for indent in [0u64, 1, 2, 10, 12, 300, u64::MAX] {
        for delimiter in ["|", "", ",", "\t", " :: ", "indent", "delimiter", "use_tabular: true"] {
            for flags in 0..8u8 {
                let settings = AsonMcpExtensionSettings {
                    indent,
                    delimiter: delimiter.to_string(),
                    use_references: flags & 1 != 0,
                    use_sections: flags & 2 != 0,
                    use_tabular: flags & 4 != 0,
                };
                let filled = fill(&default_settings_text(), &settings);
                assert_eq!(filled, lay_out(&settings));
                for field in FIELDS {
                    assert!(filled.contains(&assignment_text(&settings, field)));
                }
            }
        }
    }
}

#[test]
fn large_indent_is_written_in() {
    let document = table(vec![("indent", JsonValue::Integer(300))]);
    let rendered = render_default_settings(&Ok(Some(document)));
    assert!(rendered.contains("\"indent\": 300"));
    assert!(!rendered.contains("\"indent\": 1"));
    assert_eq!(rendered, default_settings_text().replace("\"indent\": 1", "\"indent\": 300"));
}

#[test]
fn indent_that_starts_with_one_still_shows_the_default_text() {
    let document = table(vec![("indent", JsonValue::Integer(12))]);
    let rendered = render_default_settings(&Ok(Some(document)));
    assert!(rendered.contains("\"indent\": 12,"));
    assert!(rendered.contains("\"indent\": 1"));
}

#[test]
fn delimiter_with_a_double_quote_can_collide() {
    let settings = AsonMcpExtensionSettings {
        indent: 1,
        delimiter: "\", \"use_tabular\": true, \"x\": \"".to_string(),
        use_references: true,
        use_sections: true,
        use_tabular: false,
    };
    let filled = fill(&default_settings_text(), &settings);
    assert_ne!(filled, lay_out(&settings));
    assert!(!filled.contains("\"use_tabular\": true"));
    assert!(lay_out(&settings).contains("\"use_tabular\": true"));
}
