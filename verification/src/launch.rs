//! Planning the start of the server. Building the command takes answers that
//! only the host can give: which version of the package is installed, what
//! the settings are, where the working directory and the runtime lie. The
//! plan decides what to ask next and what to make of each answer; the caller
//! asks the host and hands the answer back.

use crate::command::{
    build_environment, build_ephemeral_command, build_resident_command, environment,
    ephemeral_command, install_needed, needs_install, resident_command, text_pairs,
    CommandDescriptor, CommandView,
};
use crate::document::JsonValue;
use crate::resolve::{decoded, resolve, resolved, DecodeError};
use vstd::prelude::*;

verus! {

/// The name under which the host keeps the settings of the server.
pub const CONTEXT_SERVER_ID: &'static str = "ason-mcp/ason";

/// What is said of an answer that does not belong to the question asked.
pub const UNEXPECTED_REPLY: &'static str = "the reply does not answer the request";

/// How the server is deployed.
#[derive(Clone, Copy, PartialEq, Eq, Structural, Debug)]
pub enum Deployment {
    /// The package is installed below the working directory and started with
    /// the settings in its environment.
    ResidentWithSettings,
    /// The package is installed below the working directory and started
    /// without settings.
    Resident,
    /// A package runner fetches and starts the package; nothing is installed
    /// and no settings are read.
    Ephemeral,
}

/// What the plan asks of the host.
#[derive(Clone, Copy, PartialEq, Eq, Structural, Debug)]
pub enum Request {
    /// Which version of the package is installed, if any?
    InstalledVersion,
    /// Install the package in the version that is asked for.
    Install,
    /// What is the settings document of the server, if there is one?
    Settings,
    /// What is the working directory?
    WorkingDirectory,
    /// Where is the runtime that executes the server?
    RuntimePath,
}

/// What the host answers. Each answer is the result of the request of the
/// same name, or the words in which the host failed.
#[derive(PartialEq, Eq, Debug)]
pub enum Reply {
    /// The installed version of the package, or none where it is not installed.
    InstalledVersion(Result<Option<String>, String>),
    /// The package was installed.
    Install(Result<(), String>),
    /// The settings document of the server, or none where the host has none.
    Settings(Result<Option<JsonValue>, String>),
    /// The working directory.
    WorkingDirectory(Result<String, String>),
    /// The path of the runtime.
    RuntimePath(Result<String, String>),
}

/// Where a plan stands: the request whose answer it waits for, and what it
/// has gathered for the command so far.
#[derive(PartialEq, Eq, Debug)]
pub enum Stage {
    /// Waiting for the installed version; `with_settings` says whether the
    /// deployment reads settings.
    InstalledVersion { with_settings: bool },
    /// Waiting for the installation to end.
    Install { with_settings: bool },
    /// Waiting for the settings document.
    Settings,
    /// Waiting for the working directory, with the environment at hand.
    WorkingDirectory { env: Vec<(String, String)> },
    /// Waiting for the runtime, with all else at hand.
    RuntimePath { env: Vec<(String, String)>, working_directory: String },
}

/// What comes next in a plan.
#[derive(PartialEq, Eq, Debug)]
pub enum Step {
    /// Ask the host what the stage waits for, and come back with the answer.
    Ask(Stage),
    /// The command is ready.
    Launch(CommandDescriptor),
    /// No command can be built; the words say why.
    Fail(String),
}

/// The mathematical value of a [`Reply`].
pub ghost enum ReplyView {
    InstalledVersion(Result<Option<Seq<char>>, Seq<char>>),
    Install(Result<(), Seq<char>>),
    Settings(Result<Option<JsonValue>, Seq<char>>),
    WorkingDirectory(Result<Seq<char>, Seq<char>>),
    RuntimePath(Result<Seq<char>, Seq<char>>),
}

/// The mathematical value of a [`Stage`].
pub ghost enum StageView {
    InstalledVersion { with_settings: bool },
    Install { with_settings: bool },
    Settings,
    WorkingDirectory { env: Seq<(Seq<char>, Seq<char>)> },
    RuntimePath { env: Seq<(Seq<char>, Seq<char>)>, working_directory: Seq<char> },
}

/// The mathematical value of a [`Step`].
pub ghost enum StepView {
    Ask(StageView),
    Launch(CommandView),
    Fail(Seq<char>),
}

impl View for Reply {
    type V = ReplyView;

    open spec fn view(&self) -> ReplyView {
        match self {
            Reply::InstalledVersion(Ok(Some(version))) => ReplyView::InstalledVersion(
                Ok(Some(version@)),
            ),
            Reply::InstalledVersion(Ok(None)) => ReplyView::InstalledVersion(Ok(None)),
            Reply::InstalledVersion(Err(error)) => ReplyView::InstalledVersion(Err(error@)),
            Reply::Install(Ok(())) => ReplyView::Install(Ok(())),
            Reply::Install(Err(error)) => ReplyView::Install(Err(error@)),
            Reply::Settings(Ok(document)) => ReplyView::Settings(Ok(*document)),
            Reply::Settings(Err(error)) => ReplyView::Settings(Err(error@)),
            Reply::WorkingDirectory(Ok(path)) => ReplyView::WorkingDirectory(Ok(path@)),
            Reply::WorkingDirectory(Err(error)) => ReplyView::WorkingDirectory(Err(error@)),
            Reply::RuntimePath(Ok(path)) => ReplyView::RuntimePath(Ok(path@)),
            Reply::RuntimePath(Err(error)) => ReplyView::RuntimePath(Err(error@)),
        }
    }
}

impl View for Stage {
    type V = StageView;

    open spec fn view(&self) -> StageView {
        match self {
            Stage::InstalledVersion { with_settings } => StageView::InstalledVersion {
                with_settings: *with_settings,
            },
            Stage::Install { with_settings } => StageView::Install {
                with_settings: *with_settings,
            },
            Stage::Settings => StageView::Settings,
            Stage::WorkingDirectory { env } => StageView::WorkingDirectory {
                env: text_pairs(env@),
            },
            Stage::RuntimePath { env, working_directory } => StageView::RuntimePath {
                env: text_pairs(env@),
                working_directory: working_directory@,
            },
        }
    }
}

impl View for Step {
    type V = StepView;

    open spec fn view(&self) -> StepView {
        match self {
            Step::Ask(stage) => StepView::Ask(stage@),
            Step::Launch(command) => StepView::Launch(command@),
            Step::Fail(message) => StepView::Fail(message@),
        }
    }
}

impl StageView {
    /// What the stage waits for.
    pub open spec fn request(self) -> Request {
        match self {
            StageView::InstalledVersion { .. } => Request::InstalledVersion,
            StageView::Install { .. } => Request::Install,
            StageView::Settings => Request::Settings,
            StageView::WorkingDirectory { .. } => Request::WorkingDirectory,
            StageView::RuntimePath { .. } => Request::RuntimePath,
        }
    }
}

/// How a plan starts. An ephemeral run needs nothing of the host: its command
/// is ready at once. A resident install first asks which version of the
/// package is installed.
pub open spec fn first_step(deployment: Deployment) -> StepView {
    match deployment {
        Deployment::Ephemeral => StepView::Launch(ephemeral_command()),
        Deployment::Resident => StepView::Ask(StageView::InstalledVersion { with_settings: false }),
        Deployment::ResidentWithSettings => StepView::Ask(
            StageView::InstalledVersion { with_settings: true },
        ),
    }
}

/// What follows once the package is known to be installed: the settings where
/// the deployment has them, else the working directory, with an empty
/// environment.
pub open spec fn after_install(with_settings: bool) -> StepView {
    if with_settings {
        StepView::Ask(StageView::Settings)
    } else {
        StepView::Ask(StageView::WorkingDirectory { env: Seq::empty() })
    }
}

/// What a plan at `stage` makes of `reply`.
///
/// A failure of the host ends the plan with the host's words, and so does a
/// settings document that is rejected, with the words of the decode error. A
/// reply to another request than the stage's ends it as well. Else the plan
/// goes on: the package is installed unless it is installed in the version
/// asked for; then the settings are resolved into the environment, the
/// working directory is taken, and with the runtime the command is ready.
pub open spec fn next_step(stage: StageView, reply: ReplyView) -> StepView {
    match (stage, reply) {
        (StageView::InstalledVersion { with_settings }, ReplyView::InstalledVersion(answer)) => {
            match answer {
                Err(error) => StepView::Fail(error),
                Ok(installed) => if install_needed(installed) {
                    StepView::Ask(StageView::Install { with_settings })
                } else {
                    after_install(with_settings)
                },
            }
        },
        (StageView::Install { with_settings }, ReplyView::Install(answer)) => match answer {
            Err(error) => StepView::Fail(error),
            Ok(_) => after_install(with_settings),
        },
        (StageView::Settings, ReplyView::Settings(answer)) => match answer {
            Err(error) => StepView::Fail(error),
            Ok(raw) => match resolved(raw) {
                Err(error) => StepView::Fail(error.text()),
                Ok(settings) => StepView::Ask(
                    StageView::WorkingDirectory { env: environment(settings) },
                ),
            },
        },
        (StageView::WorkingDirectory { env }, ReplyView::WorkingDirectory(answer)) => match answer {
            Err(error) => StepView::Fail(error),
            Ok(working_directory) => StepView::Ask(
                StageView::RuntimePath { env, working_directory },
            ),
        },
        (StageView::RuntimePath { env, working_directory }, ReplyView::RuntimePath(answer)) => {
            match answer {
                Err(error) => StepView::Fail(error),
                Ok(runtime) => StepView::Launch(resident_command(runtime, working_directory, env)),
            }
        },
        _ => StepView::Fail(UNEXPECTED_REPLY@),
    }
}

impl Stage {
    /// What the stage waits for.
    pub fn request(&self) -> (request: Request)
        ensures
            request == self@.request(),
    {
        match self {
            Stage::InstalledVersion { .. } => Request::InstalledVersion,
            Stage::Install { .. } => Request::Install,
            Stage::Settings => Request::Settings,
            Stage::WorkingDirectory { .. } => Request::WorkingDirectory,
            Stage::RuntimePath { .. } => Request::RuntimePath,
        }
    }
}

/// What follows once the package is known to be installed.
fn proceed(with_settings: bool) -> (step: Step)
    ensures
        step@ == after_install(with_settings),
{
    if with_settings {
        Step::Ask(Stage::Settings)
    } else {
        let env: Vec<(String, String)> = Vec::new();
        assert(text_pairs(env@) =~= Seq::empty());
        Step::Ask(Stage::WorkingDirectory { env })
    }
}

/// Starts the plan of a deployment.
pub fn begin(deployment: Deployment) -> (step: Step)
    ensures
        step@ == first_step(deployment),
{
    match deployment {
        Deployment::Ephemeral => Step::Launch(build_ephemeral_command()),
        Deployment::Resident => Step::Ask(Stage::InstalledVersion { with_settings: false }),
        Deployment::ResidentWithSettings => Step::Ask(
            Stage::InstalledVersion { with_settings: true },
        ),
    }
}

/// Takes the plan one step on with the host's reply.
pub fn advance(stage: Stage, reply: Reply) -> (step: Step)
    ensures
        step@ == next_step(stage@, reply@),
{
    match (stage, reply) {
        (Stage::InstalledVersion { with_settings }, Reply::InstalledVersion(answer)) => {
            match answer {
                Err(error) => Step::Fail(error),
                Ok(Some(version)) => if needs_install(Some(version.as_str())) {
                    Step::Ask(Stage::Install { with_settings })
                } else {
                    proceed(with_settings)
                },
                Ok(None) => Step::Ask(Stage::Install { with_settings }),
            }
        },
        (Stage::Install { with_settings }, Reply::Install(answer)) => match answer {
            Err(error) => Step::Fail(error),
            Ok(_) => proceed(with_settings),
        },
        (Stage::Settings, Reply::Settings(answer)) => match answer {
            Err(error) => Step::Fail(error),
            Ok(raw) => {
                let outcome = match &raw {
                    Some(document) => resolve(Some(document)),
                    None => resolve(None),
                };
                match outcome {
                    Err(error) => Step::Fail(error.message()),
                    Ok(settings) => Step::Ask(
                        Stage::WorkingDirectory { env: build_environment(&settings) },
                    ),
                }
            },
        },
        (Stage::WorkingDirectory { env }, Reply::WorkingDirectory(answer)) => match answer {
            Err(error) => Step::Fail(error),
            Ok(working_directory) => Step::Ask(Stage::RuntimePath { env, working_directory }),
        },
        (Stage::RuntimePath { env, working_directory }, Reply::RuntimePath(answer)) => {
            match answer {
                Err(error) => Step::Fail(error),
                Ok(runtime) => Step::Launch(
                    build_resident_command(runtime, working_directory.as_str(), env),
                ),
            }
        },
        _ => Step::Fail(UNEXPECTED_REPLY.to_owned()),
    }
}

/// What the host would answer to each request of a plan.
pub ghost struct HostView {
    pub installed_version: Result<Option<Seq<char>>, Seq<char>>,
    pub install: Result<(), Seq<char>>,
    pub settings: Result<Option<JsonValue>, Seq<char>>,
    pub working_directory: Result<Seq<char>, Seq<char>>,
    pub runtime_path: Result<Seq<char>, Seq<char>>,
}

impl HostView {
    /// The host's reply to `request`.
    pub open spec fn answer(self, request: Request) -> ReplyView {
        match request {
            Request::InstalledVersion => ReplyView::InstalledVersion(self.installed_version),
            Request::Install => ReplyView::Install(self.install),
            Request::Settings => ReplyView::Settings(self.settings),
            Request::WorkingDirectory => ReplyView::WorkingDirectory(self.working_directory),
            Request::RuntimePath => ReplyView::RuntimePath(self.runtime_path),
        }
    }
}

/// Where a plan stands after at most `rounds` more questions, each answered
/// by `host`.
pub open spec fn carried_out(step: StepView, host: HostView, rounds: nat) -> StepView
    decreases rounds,
{
    match step {
        StepView::Ask(stage) => if rounds == 0 {
            step
        } else {
            carried_out(next_step(stage, host.answer(stage.request())), host, (rounds - 1) as nat)
        },
        _ => step,
    }
}

/// The command of a resident install with the environment `env`, once the
/// package is installed: the working directory is taken first, then the
/// runtime, and the first failure ends it.
pub open spec fn resident_outcome(host: HostView, env: Seq<(Seq<char>, Seq<char>)>) -> StepView {
    match host.working_directory {
        Err(error) => StepView::Fail(error),
        Ok(working_directory) => match host.runtime_path {
            Err(error) => StepView::Fail(error),
            Ok(runtime) => StepView::Launch(resident_command(runtime, working_directory, env)),
        },
    }
}

/// What a deployment comes to with the answers of `host`, told in one piece.
///
/// An ephemeral run launches its fixed command whatever the host holds. A
/// resident install fails with the first failure on its way: the version
/// query, the installation where one is needed, the settings lookup and the
/// decoding where the deployment has settings, the working directory, the
/// runtime. Else it launches the runtime on the package's entry file, with
/// the resolved settings as its environment, or with none.
pub open spec fn outcome(deployment: Deployment, host: HostView) -> StepView {
    match deployment {
        Deployment::Ephemeral => StepView::Launch(ephemeral_command()),
        _ => match host.installed_version {
            Err(error) => StepView::Fail(error),
            Ok(installed) => if install_needed(installed) && host.install is Err {
                StepView::Fail(host.install->Err_0)
            } else if deployment == Deployment::Resident {
                resident_outcome(host, Seq::empty())
            } else {
                match host.settings {
                    Err(error) => StepView::Fail(error),
                    Ok(raw) => match resolved(raw) {
                        Err(error) => StepView::Fail(error.text()),
                        Ok(settings) => resident_outcome(host, environment(settings)),
                    },
                }
            },
        },
    }
}

/// Whether a plan that starts at `step` gets to ask `request` of `host`
/// within `rounds` questions.
pub open spec fn asks(step: StepView, host: HostView, rounds: nat, request: Request) -> bool
    decreases rounds,
{
    match step {
        StepView::Ask(stage) => rounds > 0 && (stage.request() == request || asks(
            next_step(stage, host.answer(stage.request())),
            host,
            (rounds - 1) as nat,
            request,
        )),
        _ => false,
    }
}

/// A plan whose questions the host answers comes to an end within five
/// questions, and the end is the outcome of the deployment: the command, or
/// the first failure. On its way it has the package installed exactly where
/// the host does not report the version asked for, and it never asks an
/// ephemeral run's host anything.
pub proof fn lemma_plan_reaches_outcome(deployment: Deployment, host: HostView)
    ensures
        carried_out(first_step(deployment), host, 5) == outcome(deployment, host),
        !(outcome(deployment, host) is Ask),
        asks(first_step(deployment), host, 5, Request::Install) <==> (deployment
            != Deployment::Ephemeral && host.installed_version is Ok && install_needed(
            host.installed_version->Ok_0,
        )),
        deployment == Deployment::Ephemeral ==> forall|request: Request|
            !asks(first_step(deployment), host, 5, request),
        deployment != Deployment::ResidentWithSettings ==> !asks(
            first_step(deployment),
            host,
            5,
            Request::Settings,
        ),
{
    reveal_with_fuel(carried_out, 6);
    reveal_with_fuel(asks, 6);
}

} // verus!
