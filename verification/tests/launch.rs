use ason_mcp::command::CommandDescriptor;
use ason_mcp::document::JsonValue;
use ason_mcp::launch::{advance, begin, Deployment, Reply, Request, Stage, Step, UNEXPECTED_REPLY};

struct Host {
    installed_version: Result<Option<String>, String>,
    install: Result<(), String>,
    settings: Result<Option<JsonValue>, String>,
    working_directory: Result<String, String>,
    runtime_path: Result<String, String>,
}

fn host() -> Host {
    Host {
        installed_version: Ok(Some("latest".to_string())),
        install: Ok(()),
        settings: Ok(None),
        working_directory: Ok("/work".to_string()),
        runtime_path: Ok("/bin/node".to_string()),
    }
}

fn table(entries: Vec<(&str, JsonValue)>) -> JsonValue {
    JsonValue::Table(entries.into_iter().map(|(key, value)| (key.to_string(), value)).collect())
}

fn pair(name: &str, value: &str) -> (String, String) {
    (name.to_string(), value.to_string())
}

fn run(deployment: Deployment, host: Host) -> (Vec<Request>, Step) {
    let mut asked = Vec::new();
    let mut step = begin(deployment);
    let mut host = Some(host);
    let mut replies: Vec<(Request, Reply)> = Vec::new();
    if let Some(host) = host.take() {
        replies.push((Request::InstalledVersion, Reply::InstalledVersion(host.installed_version)));
        replies.push((Request::Install, Reply::Install(host.install)));
        replies.push((Request::Settings, Reply::Settings(host.settings)));
        replies.push((Request::WorkingDirectory, Reply::WorkingDirectory(host.working_directory)));
        replies.push((Request::RuntimePath, Reply::RuntimePath(host.runtime_path)));
    }
    loop {
        match step {
            Step::Ask(stage) => {
                let request = stage.request();
                assert!(!asked.contains(&request), "{:?} asked twice", request);
                asked.push(request);
                let at = replies.iter().position(|(kind, _)| *kind == request).unwrap();
                let (_, reply) = replies.remove(at);
                step = advance(stage, reply);
            }
            done => return (asked, done),
        }
    }
}

fn entry() -> String {
    "/work/node_modules/@ason-format/mcp-server/dist/index.js".to_string()
}

#[test]
fn ephemeral_run_asks_nothing() {
    let mut ignored = host();
    ignored.settings = Ok(Some(table(vec![("indent", JsonValue::Text("abc".to_string()))])));
    ignored.installed_version = Err("no npm".to_string());
    let (asked, step) = run(Deployment::Ephemeral, ignored);
    assert!(asked.is_empty());
    assert_eq!(
        step,
        Step::Launch(CommandDescriptor {
            command: "npx".to_string(),
            args: vec!["-y".to_string(), "@ason-format/mcp-server@latest".to_string()],
            env: Vec::new(),
        })
    );
}

#[test]
fn resident_with_settings_and_package_in_place() {
    let mut h = host();
    h.settings = Ok(Some(table(vec![
        ("indent", JsonValue::Integer(2)),
        ("use_tabular", JsonValue::Bool(false)),
    ])));
    let (asked, step) = run(Deployment::ResidentWithSettings, h);
    assert_eq!(
        asked,
        [
            Request::InstalledVersion,
            Request::Settings,
            Request::WorkingDirectory,
            Request::RuntimePath
        ]
    );
    assert_eq!(
        step,
        Step::Launch(CommandDescriptor {
            command: "/bin/node".to_string(),
            args: vec![entry()],
            env: vec![
                pair("ASON_INDENT", "2"),
                pair("ASON_DELIMITER", "|"),
                pair("ASON_USE_REFERENCES", "true"),
                pair("ASON_USE_SECTIONS", "true"),
                pair("ASON_USE_TABULAR", "false"),
            ],
        })
    );
}

#[test]
fn resident_installs_where_the_version_differs() {
    for installed in [None, Some("1.0.0".to_string())] {
        let mut h = host();
        h.installed_version = Ok(installed);
        let (asked, step) = run(Deployment::ResidentWithSettings, h);
        assert_eq!(
            asked,
            [
                Request::InstalledVersion,
                Request::Install,
                Request::Settings,
                Request::WorkingDirectory,
                Request::RuntimePath
            ]
        );
        match step {
            Step::Launch(command) => {
                assert_eq!(command.args, [entry()]);
                assert_eq!(command.env.len(), 5);
                assert_eq!(command.env[0], pair("ASON_INDENT", "1"));
            }
            other => panic!("no command: {:?}", other),
        }
    }
}

#[test]
fn resident_without_settings_has_no_environment() {
    let mut h = host();
    h.installed_version = Ok(None);
    h.settings = Err("never asked".to_string());
    let (asked, step) = run(Deployment::Resident, h);
    assert_eq!(
        asked,
        [
            Request::InstalledVersion,
            Request::Install,
            Request::WorkingDirectory,
            Request::RuntimePath
        ]
    );
    assert_eq!(
        step,
        Step::Launch(CommandDescriptor {
            command: "/bin/node".to_string(),
            args: vec![entry()],
            env: Vec::new(),
        })
    );
}

#[test]
fn host_failures_end_the_plan_with_the_hosts_words() {
    let mut h = host();
    h.installed_version = Err("npm is gone".to_string());
    let (asked, step) = run(Deployment::ResidentWithSettings, h);
    assert_eq!(asked, [Request::InstalledVersion]);
    assert_eq!(step, Step::Fail("npm is gone".to_string()));

    let mut h = host();
    h.installed_version = Ok(None);
    h.install = Err("no network".to_string());
    let (asked, step) = run(Deployment::Resident, h);
    assert_eq!(asked, [Request::InstalledVersion, Request::Install]);
    assert_eq!(step, Step::Fail("no network".to_string()));

    let mut h = host();
    h.install = Err("not needed, not asked".to_string());
    h.settings = Err("settings locked".to_string());
    let (asked, step) = run(Deployment::ResidentWithSettings, h);
    assert_eq!(asked, [Request::InstalledVersion, Request::Settings]);
    assert_eq!(step, Step::Fail("settings locked".to_string()));

    let mut h = host();
    h.working_directory = Err("no working directory".to_string());
    let (asked, step) = run(Deployment::ResidentWithSettings, h);
    assert_eq!(asked, [Request::InstalledVersion, Request::Settings, Request::WorkingDirectory]);
    assert_eq!(step, Step::Fail("no working directory".to_string()));

    let mut h = host();
    h.runtime_path = Err("node not found".to_string());
    let (asked, step) = run(Deployment::Resident, h);
    assert_eq!(asked, [Request::InstalledVersion, Request::WorkingDirectory, Request::RuntimePath]);
    assert_eq!(step, Step::Fail("node not found".to_string()));
}

#[test]
fn rejected_settings_end_the_plan() {
    let mut h = host();
    h.installed_version = Ok(None);
    h.settings = Ok(Some(table(vec![("indent", JsonValue::Text("abc".to_string()))])));
    let (asked, step) = run(Deployment::ResidentWithSettings, h);
    assert_eq!(asked, [Request::InstalledVersion, Request::Install, Request::Settings]);
    assert_eq!(
        step,
        Step::Fail("invalid type for `indent`: expected a non-negative integer".to_string())
    );
}

#[test]
fn reply_to_another_request_ends_the_plan() {
    assert_eq!(UNEXPECTED_REPLY, "the reply does not answer the request");
    assert_eq!(
        advance(Stage::Settings, Reply::Install(Ok(()))),
        Step::Fail(UNEXPECTED_REPLY.to_string())
    );
    assert_eq!(
        advance(
            Stage::InstalledVersion { with_settings: true },
            Reply::RuntimePath(Ok("node".to_string()))
        ),
        Step::Fail(UNEXPECTED_REPLY.to_string())
    );
    assert_eq!(
        advance(
            Stage::WorkingDirectory { env: Vec::new() },
            Reply::RuntimePath(Ok("node".to_string()))
        ),
        Step::Fail(UNEXPECTED_REPLY.to_string())
    );
}

#[test]
fn single_steps() {
    assert_eq!(
        begin(Deployment::Resident),
        Step::Ask(Stage::InstalledVersion { with_settings: false })
    );
    assert_eq!(
        begin(Deployment::ResidentWithSettings),
        Step::Ask(Stage::InstalledVersion { with_settings: true })
    );
    assert_eq!(
        advance(Stage::Install { with_settings: true }, Reply::Install(Ok(()))),
        Step::Ask(Stage::Settings)
    );
    assert_eq!(
        advance(Stage::Install { with_settings: false }, Reply::Install(Ok(()))),
        Step::Ask(Stage::WorkingDirectory { env: Vec::new() })
    );
    assert_eq!(
        advance(
            Stage::WorkingDirectory { env: vec![pair("A", "b")] },
            Reply::WorkingDirectory(Ok("/w".to_string()))
        ),
        Step::Ask(Stage::RuntimePath {
            env: vec![pair("A", "b")],
            working_directory: "/w".to_string()
        })
    );
    assert_eq!(Stage::Settings.request(), Request::Settings);
    assert_eq!(Stage::Install { with_settings: false }.request(), Request::Install);
}

#[test]
fn large_indent_reaches_the_environment() {
    let mut h = host();
    h.settings = Ok(Some(table(vec![("indent", JsonValue::Integer(300))])));
    let (_, step) = run(Deployment::ResidentWithSettings, h);
    match step {
        Step::Launch(command) => assert_eq!(command.env[0], pair("ASON_INDENT", "300")),
        other => panic!("no command: {:?}", other),
    }
}
