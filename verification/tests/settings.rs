use ason_mcp::settings::{AsonMcpExtensionSettings, Field, FIELD_COUNT};

const FIELDS: [Field; 5] =
    [Field::Indent, Field::Delimiter, Field::UseReferences, Field::UseSections, Field::UseTabular];

#[test]
fn field_names() {
    let names: Vec<&str> = FIELDS.iter().map(|field| field.name()).collect();
    assert_eq!(names, ["indent", "delimiter", "use_references", "use_sections", "use_tabular"]);
}

#[test]
fn variables_are_prefixed_upper_case_names() {
    let names: Vec<&str> = FIELDS.iter().map(|field| field.env_name()).collect();
    assert_eq!(
        names,
        [
            "ASON_INDENT",
            "ASON_DELIMITER",
            "ASON_USE_REFERENCES",
            "ASON_USE_SECTIONS",
            "ASON_USE_TABULAR"
        ]
    );
    for field in FIELDS {
        assert_eq!(field.env_name(), format!("ASON_{}", field.name().to_uppercase()));
    }
}

#[test]
fn fields_are_found_by_name_and_position() {
    assert_eq!(FIELD_COUNT, 5);
    for (position, field) in FIELDS.iter().enumerate() {
        assert_eq!(Field::from_key(field.name()), Some(*field));
        assert_eq!(Field::at(position), Some(*field));
        assert_eq!(field.index(), position);
    }
    assert_eq!(Field::at(5), None);
    assert_eq!(Field::at(usize::MAX), None);
    assert_eq!(Field::from_key(""), None);
    assert_eq!(Field::from_key("Indent"), None);
    assert_eq!(Field::from_key("indent "), None);
    assert_eq!(Field::from_key("use_dictionary"), None);
}

#[test]
fn values_as_text() {
    let settings = AsonMcpExtensionSettings {
        indent: 12,
        delimiter: "\t".to_string(),
        use_references: true,
        use_sections: false,
        use_tabular: true,
    };
    let texts: Vec<String> = FIELDS.iter().map(|field| settings.render(*field)).collect();
    assert_eq!(texts, ["12", "\t", "true", "false", "true"]);
}
