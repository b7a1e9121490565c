//! The command that starts the server, and the environment that carries the
//! settings to it.

use crate::settings::{
    field_at, lemma_fields_distinct, AsonMcpExtensionSettings, Field, SettingsView, FIELD_COUNT,
};
use crate::text::{
    chars_of, decimal, decimal_value, flag, is_digit, lemma_decimal_canonical, same_text,
};
use vstd::prelude::*;

verus! {

/// The package that holds the server.
pub const PACKAGE_NAME: &'static str = "@ason-format/mcp-server";

/// The version of the package that is asked for, and that an installed
/// package is held against.
pub const PACKAGE_VERSION: &'static str = "latest";

/// Where the package's entry file lies below the working directory.
pub const SERVER_PATH: &'static str = "node_modules/@ason-format/mcp-server/dist/index.js";

/// The program that fetches and runs a package without installing it.
pub const PACKAGE_RUNNER: &'static str = "npx";

/// The flag that makes the runner go on without asking.
pub const AUTO_CONFIRM: &'static str = "-y";

/// What the host needs to start a process.
#[derive(PartialEq, Eq, Debug)]
pub struct CommandDescriptor {
    /// The executable.
    pub command: String,
    /// Its arguments, in order.
    pub args: Vec<String>,
    /// The environment variables to set, each with its value.
    pub env: Vec<(String, String)>,
}

/// The mathematical value of a [`CommandDescriptor`].
pub ghost struct CommandView {
    pub command: Seq<char>,
    pub args: Seq<Seq<char>>,
    pub env: Seq<(Seq<char>, Seq<char>)>,
}

/// The texts of `list`, in order.
pub open spec fn texts(list: Seq<String>) -> Seq<Seq<char>> {
    Seq::new(list.len(), |i: int| list[i]@)
}

/// The pairs of `list` as texts, in order.
pub open spec fn text_pairs(list: Seq<(String, String)>) -> Seq<(Seq<char>, Seq<char>)> {
    Seq::new(list.len(), |i: int| (list[i].0@, list[i].1@))
}

impl View for CommandDescriptor {
    type V = CommandView;

    open spec fn view(&self) -> CommandView {
        CommandView {
            command: self.command@,
            args: texts(self.args@),
            env: text_pairs(self.env@),
        }
    }
}

/// The environment that carries `settings` to the server: one variable for
/// each option, in the order of the options, with the option's value as text.
pub open spec fn environment(settings: SettingsView) -> Seq<(Seq<char>, Seq<char>)> {
    Seq::new(
        FIELD_COUNT as nat,
        |i: int| (field_at(i).unwrap().variable(), settings.rendered(field_at(i).unwrap())),
    )
}

/// `relative` below the directory `base`: the two are parted by one `/`,
/// which an empty `base`, or one that ends in `/`, does not need.
pub open spec fn joined(base: Seq<char>, relative: Seq<char>) -> Seq<char> {
    if base.len() == 0 || base.last() == '/' {
        base + relative
    } else {
        base + seq!['/'] + relative
    }
}

/// Where the package's entry file lies, seen from `working_directory`.
pub open spec fn entry_path(working_directory: Seq<char>) -> Seq<char> {
    joined(working_directory, SERVER_PATH@)
}

/// The package with the version that is asked for: name, `@`, version.
pub open spec fn package_specifier() -> Seq<char> {
    PACKAGE_NAME@ + seq!['@'] + PACKAGE_VERSION@
}

/// Whether the package has to be installed: always, unless the installed
/// version is the one that is asked for.
pub open spec fn install_needed(installed: Option<Seq<char>>) -> bool {
    installed != Some(PACKAGE_VERSION@)
}

/// The command of a resident install: the runtime with the entry file as its
/// one argument.
pub open spec fn resident_command(
    runtime: Seq<char>,
    working_directory: Seq<char>,
    env: Seq<(Seq<char>, Seq<char>)>,
) -> CommandView {
    CommandView { command: runtime, args: seq![entry_path(working_directory)], env }
}

/// The command of an ephemeral run: the package runner, told to go on without
/// asking, with the package and its version, and no environment.
pub open spec fn ephemeral_command() -> CommandView {
    CommandView {
        command: PACKAGE_RUNNER@,
        args: seq![AUTO_CONFIRM@, package_specifier()],
        env: Seq::empty(),
    }
}

/// Whether the package has to be installed, given the version that the host
/// reports as installed, if any.
pub fn needs_install(installed: Option<&str>) -> (needed: bool)
    ensures
        needed == install_needed(
            match installed {
                Some(version) => Some(version@),
                None => None,
            },
        ),
{
    match installed {
        Some(version) => !same_text(version, PACKAGE_VERSION),
        None => true,
    }
}

/// `relative` below the directory `base`.
pub fn join_path(base: &str, relative: &str) -> (path: String)
    ensures
        path@ == joined(base@, relative@),
{
    let chars = chars_of(base);
    let mut path = base.to_owned();
    if chars.len() > 0 && chars[chars.len() - 1] != '/' {
        proof {
            reveal_strlit("/");
        }
        path.append("/");
        assert(path@ =~= base@ + seq!['/']);
    }
    path.append(relative);
    path
}

/// The environment that carries `settings` to the server.
pub fn build_environment(settings: &AsonMcpExtensionSettings) -> (env: Vec<(String, String)>)
    ensures
        text_pairs(env@) == environment(settings@),
{
    let mut env: Vec<(String, String)> = Vec::new();
    let mut at: usize = 0;
    while at < FIELD_COUNT
        invariant
            at <= FIELD_COUNT,
            env@.len() == at,
            forall|i: int|
                0 <= i < at ==> (#[trigger] env@[i]).0@ == field_at(i).unwrap().variable()
                    && env@[i].1@ == settings@.rendered(field_at(i).unwrap()),
        decreases FIELD_COUNT - at,
    {
        match Field::at(at) {
            Some(field) => {
                env.push((field.env_name().to_owned(), settings.render(field)));
            },
            None => {
                assert(false);
            },
        }
        at += 1;
    }
    assert(text_pairs(env@) =~= environment(settings@));
    env
}

/// The command of a resident install.
pub fn build_resident_command(
    runtime: String,
    working_directory: &str,
    env: Vec<(String, String)>,
) -> (command: CommandDescriptor)
    ensures
        command@ == resident_command(runtime@, working_directory@, text_pairs(env@)),
{
    let mut args: Vec<String> = Vec::new();
    args.push(join_path(working_directory, SERVER_PATH));
    assert(texts(args@) =~= seq![entry_path(working_directory@)]);
    CommandDescriptor { command: runtime, args, env }
}

/// The command of an ephemeral run.
pub fn build_ephemeral_command() -> (command: CommandDescriptor)
    ensures
        command@ == ephemeral_command(),
{
    proof {
        reveal_strlit("@");
    }
    let mut specifier = PACKAGE_NAME.to_owned();
    specifier.append("@");
    specifier.append(PACKAGE_VERSION);
    assert(specifier@ =~= package_specifier());
    let mut args: Vec<String> = Vec::new();
    args.push(AUTO_CONFIRM.to_owned());
    args.push(specifier);
    assert(texts(args@) =~= seq![AUTO_CONFIRM@, package_specifier()]);
    let env: Vec<(String, String)> = Vec::new();
    assert(text_pairs(env@) =~= Seq::empty());
    CommandDescriptor { command: PACKAGE_RUNNER.to_owned(), args, env }
}

/// The environment holds each option exactly once: as many variables as
/// there are options, the variable of `field` at the option's position and
/// nowhere else, with the option's value as text. A flag is written as `true`
/// or `false` and nothing else; the indentation level in decimal digits,
/// without a leading zero but for zero itself, so that it reads back as the
/// number.
pub proof fn lemma_environment_complete(settings: SettingsView, field: Field)
    ensures
        environment(settings).len() == FIELD_COUNT,
        environment(settings)[field.position()] == (
            field.variable(),
            settings.rendered(field),
        ),
        forall|i: int|
            0 <= i < FIELD_COUNT && (#[trigger] environment(settings)[i]).0 == field.variable()
                ==> i == field.position(),
        settings.rendered(Field::UseReferences) == flag(settings.use_references),
        settings.rendered(Field::UseSections) == flag(settings.use_sections),
        settings.rendered(Field::UseTabular) == flag(settings.use_tabular),
        flag(true) == seq!['t', 'r', 'u', 'e'],
        flag(false) == seq!['f', 'a', 'l', 's', 'e'],
        settings.rendered(Field::Indent) == decimal(settings.indent as nat),
        decimal_value(settings.rendered(Field::Indent)) == settings.indent,
        forall|i: int|
            0 <= i < settings.rendered(Field::Indent).len() ==> is_digit(
                #[trigger] settings.rendered(Field::Indent)[i],
            ),
        settings.rendered(Field::Indent)[0] == '0' <==> settings.indent == 0,
        settings.indent == 0 ==> settings.rendered(Field::Indent) == seq!['0'],
{
    lemma_fields_distinct(field, field);
    lemma_decimal_canonical(settings.indent as nat);
    assert forall|i: int|
        0 <= i < FIELD_COUNT && (#[trigger] environment(settings)[i]).0
            == field.variable() implies i == field.position() by {
        let other = field_at(i).unwrap();
        lemma_fields_distinct(field, other);
        lemma_fields_distinct(other, field);
    }
}

/// The command of an ephemeral run has exactly two arguments, the flag that
/// confirms and the package with the version asked for behind an `@`, and an
/// empty environment. It depends on nothing: no settings reach it.
pub proof fn lemma_ephemeral_command_shape()
    ensures
        ephemeral_command().command == PACKAGE_RUNNER@,
        ephemeral_command().args.len() == 2,
        ephemeral_command().args[0] == AUTO_CONFIRM@,
        ephemeral_command().args[1] == PACKAGE_NAME@ + seq!['@'] + PACKAGE_VERSION@,
        ephemeral_command().env.len() == 0,
{
}

} // verus!
