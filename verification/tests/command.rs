use ason_mcp::command::{
    build_environment, build_ephemeral_command, build_resident_command, join_path, needs_install,
    CommandDescriptor, AUTO_CONFIRM, PACKAGE_NAME, PACKAGE_RUNNER, PACKAGE_VERSION, SERVER_PATH,
};
use ason_mcp::settings::AsonMcpExtensionSettings;

fn pair(name: &str, value: &str) -> (String, String) {
    (name.to_string(), value.to_string())
}

#[test]
fn constants() {
    assert_eq!(PACKAGE_NAME, "@ason-format/mcp-server");
    assert_eq!(PACKAGE_VERSION, "latest");
    assert_eq!(SERVER_PATH, "node_modules/@ason-format/mcp-server/dist/index.js");
    assert_eq!(PACKAGE_RUNNER, "npx");
    assert_eq!(AUTO_CONFIRM, "-y");
}

#[test]
fn environment_of_defaults() {
    assert_eq!(
        build_environment(&AsonMcpExtensionSettings::default()),
        vec![
            pair("ASON_INDENT", "1"),
            pair("ASON_DELIMITER", "|"),
            pair("ASON_USE_REFERENCES", "true"),
            pair("ASON_USE_SECTIONS", "true"),
            pair("ASON_USE_TABULAR", "true"),
        ]
    );
}

#[test]
fn environment_has_one_entry_for_each_option() {
    let settings = AsonMcpExtensionSettings {
        indent: 0,
        delimiter: String::new(),
        use_references: false,
        use_sections: true,
        use_tabular: false,
    };
    let env = build_environment(&settings);
    assert_eq!(
        env,
        vec![
            pair("ASON_INDENT", "0"),
            pair("ASON_DELIMITER", ""),
            pair("ASON_USE_REFERENCES", "false"),
            pair("ASON_USE_SECTIONS", "true"),
            pair("ASON_USE_TABULAR", "false"),
        ]
    );
    for (name, _) in &env {
        assert_eq!(env.iter().filter(|(other, _)| other == name).count(), 1);
    }
}

#[test]
fn environment_writes_indent_in_decimal() {
    for indent in [0u64, 1, 2, 9, 10, 99, 100, 200, 255, 256, 300, 65536, u64::MAX] {
        let settings = AsonMcpExtensionSettings { indent, ..AsonMcpExtensionSettings::default() };
        let env = build_environment(&settings);
        assert_eq!(env[0], pair("ASON_INDENT", &indent.to_string()));
        assert!(env[0].1 == "0" || !env[0].1.starts_with('0'));
    }
}

#[test]
fn install_is_needed_unless_latest_is_reported() {
    assert!(needs_install(None));
    assert!(needs_install(Some("1.2.3")));
    assert!(needs_install(Some("")));
    assert!(needs_install(Some("Latest")));
    assert!(needs_install(Some("latest ")));
    assert!(!needs_install(Some("latest")));
}

#[test]
fn paths_are_joined_with_one_separator() {
    assert_eq!(join_path("/work", "a/b.js"), "/work/a/b.js");
    assert_eq!(join_path("/work/", "a/b.js"), "/work/a/b.js");
    assert_eq!(join_path("/", "a"), "/a");
    assert_eq!(join_path("", "a"), "a");
    assert_eq!(join_path("rel", "a"), "rel/a");
    assert_eq!(join_path("/w\u{e9}", "a"), "/w\u{e9}/a");
    for base in ["/work", "/work/", "/", "", "rel", "a/b/"] {
        let expected = std::path::Path::new(base).join(SERVER_PATH);
        if std::path::MAIN_SEPARATOR == '/' {
            assert_eq!(join_path(base, SERVER_PATH), expected.to_string_lossy());
        }
    }
}

#[test]
fn resident_command_runs_the_entry_file() {
    let env = vec![pair("ASON_INDENT", "2")];
    assert_eq!(
        build_resident_command("/usr/bin/node".to_string(), "/home/me/ext", env.clone()),
        CommandDescriptor {
            command: "/usr/bin/node".to_string(),
            args: vec!["/home/me/ext/node_modules/@ason-format/mcp-server/dist/index.js"
                .to_string()],
            env,
        }
    );
    let bare = build_resident_command("node".to_string(), "/", Vec::new());
    assert_eq!(bare.command, "node");
    assert_eq!(bare.args, ["/node_modules/@ason-format/mcp-server/dist/index.js"]);
    assert!(bare.env.is_empty());
}

#[test]
fn ephemeral_command_has_two_arguments_and_no_environment() {
    let command = build_ephemeral_command();
    assert_eq!(command.command, "npx");
    assert_eq!(command.args, ["-y", "@ason-format/mcp-server@latest"]);
    assert!(command.env.is_empty());
}
