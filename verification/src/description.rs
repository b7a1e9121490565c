//! The description of the server that the host shows: how to install it, the
//! default settings with the current values written in, and the schema of the
//! settings.

use crate::document::JsonValue;
use crate::resolve::{decoded, resolve};
use crate::settings::{field_at, AsonMcpExtensionSettings, Field, SettingsView, FIELD_COUNT};
use crate::text::{lemma_replaced_by_itself, replace_all, replaced};
use vstd::prelude::*;

verus! {

/// How to install the server, in Markdown.
pub const INSTALLATION_INSTRUCTIONS: &'static str = "The ASON server runs on Node.js and is distributed on npm as `@ason-format/mcp-server`.
Zed installs the package when the server is first started, so nothing has to be installed by hand.

All settings are optional. An option that is left out keeps its default:

- `indent`: indentation level of the output (0 = no indentation, 1 = compact, 2+ = pretty print)
- `delimiter`: field delimiter
- `use_references`: `$var` references for repeated content
- `use_sections`: `@section` organization for objects
- `use_tabular`: `key:[N]{fields}` tabular arrays for uniform data
";

/// What the host shows of the server.
#[derive(PartialEq, Eq, Debug)]
pub struct ContextServerDescription {
    /// How to install the server, in Markdown.
    pub installation_instructions: String,
    /// The default settings, with the current values written in.
    pub default_settings: String,
    /// The JSON schema of the settings.
    pub settings_schema: String,
}

/// The value of `field` as the default settings write it: the delimiter
/// between double quotes and as it is, the other options as plain text.
pub open spec fn written(settings: SettingsView, field: Field) -> Seq<char> {
    match field {
        Field::Delimiter => "\""@ + settings.delimiter + "\""@,
        _ => settings.rendered(field),
    }
}

/// What every assignment of `field` starts with: the option's name in
/// double quotes, a colon and a blank.
pub open spec fn tag(field: Field) -> Seq<char> {
    "\""@ + field.key() + "\": "@
}

/// The line part that sets `field` in the default settings: the option's
/// tag and the value.
pub open spec fn assignment(settings: SettingsView, field: Field) -> Seq<char> {
    tag(field) + written(settings, field)
}

/// The text of the default settings in front of the assignment at
/// `position`: what closes the line before, and the comment on the option.
/// Behind the last assignment it is what closes the settings.
pub open spec fn gap(position: int) -> Seq<char> {
    if position == 0 {
        "{\n  /// Indentation level for output (0 = no indentation, 1 = compact, 2+ = pretty print)\n  "@
    } else if position == 1 {
        ",\n  /// Field delimiter (pipe is default for better token efficiency)\n  "@
    } else if position == 2 {
        ",\n  /// Enable $var references to avoid duplication\n  "@
    } else if position == 3 {
        ",\n  /// Enable @section organization for objects\n  "@
    } else if position == 4 {
        ",\n  /// Enable key:[N]{fields} tabular arrays for uniform data\n  "@
    } else {
        "\n}\n"@
    }
}

/// The annotated settings from the option at `position` on, with the values
/// of `settings`: a gap and an assignment for each option, and the closing
/// gap.
pub open spec fn laid_out_from(settings: SettingsView, position: int) -> Seq<char>
    decreases FIELD_COUNT - position,
{
    match field_at(position) {
        Some(field) => gap(position) + assignment(settings, field) + laid_out_from(
            settings,
            position + 1,
        ),
        None => gap(position),
    }
}

/// The annotated settings with the values of `settings` in place.
pub open spec fn laid_out(settings: SettingsView) -> Seq<char> {
    laid_out_from(settings, 0)
}

/// The settings with every option at its default, as an annotated example.
pub open spec fn default_settings() -> Seq<char> {
    laid_out(SettingsView::defaults())
}

/// What stands for `field` in the default settings: its assignment with the
/// documented default.
pub open spec fn placeholder(field: Field) -> Seq<char> {
    assignment(SettingsView::defaults(), field)
}

/// `text` with the placeholder of `field` exchanged for the assignment that
/// `settings` give.
pub open spec fn substituted(text: Seq<char>, settings: SettingsView, field: Field) -> Seq<char> {
    replaced(text, placeholder(field), assignment(settings, field))
}

/// `template` with the values of `settings` written in: one option after the
/// other in the order of the options, each on the text that the one before
/// left.
pub open spec fn filled(template: Seq<char>, settings: SettingsView) -> Seq<char> {
    let text = substituted(template, settings, Field::Indent);
    let text = substituted(text, settings, Field::Delimiter);
    let text = substituted(text, settings, Field::UseReferences);
    let text = substituted(text, settings, Field::UseSections);
    substituted(text, settings, Field::UseTabular)
}

/// The default settings that the host shows. Where the host holds a settings
/// document that decodes, its values are written in. Where it holds none,
/// where looking it up failed, and where the document is rejected, the
/// default settings stay as they are.
pub open spec fn shown_settings(lookup: Result<Option<JsonValue>, String>) -> Seq<char> {
    match lookup {
        Ok(Some(document)) => match decoded(document) {
            Ok(settings) => filled(default_settings(), settings),
            Err(_) => default_settings(),
        },
        _ => default_settings(),
    }
}

/// The text of the default settings in front of the assignment at `position`.
fn gap_text(position: usize) -> (text: &'static str)
    ensures
        text@ == gap(position as int),
{
    if position == 0 {
        "{\n  /// Indentation level for output (0 = no indentation, 1 = compact, 2+ = pretty print)\n  "
    } else if position == 1 {
        ",\n  /// Field delimiter (pipe is default for better token efficiency)\n  "
    } else if position == 2 {
        ",\n  /// Enable $var references to avoid duplication\n  "
    } else if position == 3 {
        ",\n  /// Enable @section organization for objects\n  "
    } else if position == 4 {
        ",\n  /// Enable key:[N]{fields} tabular arrays for uniform data\n  "
    } else {
        "\n}\n"
    }
}

/// The annotated settings with the values of `settings` in place.
pub fn lay_out(settings: &AsonMcpExtensionSettings) -> (text: String)
    ensures
        text@ == laid_out(settings@),
{
    let mut text = gap_text(FIELD_COUNT).to_owned();
    let mut position: usize = FIELD_COUNT;
    while position > 0
        invariant
            position <= FIELD_COUNT,
            text@ == laid_out_from(settings@, position as int),
        decreases position,
    {
        position -= 1;
        match Field::at(position) {
            Some(field) => {
                let mut front = gap_text(position).to_owned();
                front.append(assignment_text(settings, field).as_str());
                front.append(text.as_str());
                text = front;
            },
            None => {
                assert(false);
            },
        }
    }
    text
}

/// The settings with every option at its default, as an annotated example.
pub fn default_settings_text() -> (text: String)
    ensures
        text@ == default_settings(),
{
    lay_out(&AsonMcpExtensionSettings::default())
}

/// The line part that sets `field` in the default settings.
pub fn assignment_text(settings: &AsonMcpExtensionSettings, field: Field) -> (text: String)
    ensures
        text@ == assignment(settings@, field),
{
    let mut text = "\"".to_owned();
    text.append(field.name());
    text.append("\": ");
    match field {
        Field::Delimiter => {
            let mut quoted = "\"".to_owned();
            quoted.append(settings.delimiter.as_str());
            quoted.append("\"");
            text.append(quoted.as_str());
        },
        _ => {
            let value = settings.render(field);
            text.append(value.as_str());
        },
    }
    text
}

/// `text` with the placeholder of `field` exchanged for the assignment that
/// `settings` give.
fn substitute(text: &str, settings: &AsonMcpExtensionSettings, field: Field) -> (out: String)
    ensures
        out@ == substituted(text@, settings@, field),
{
    let defaults = AsonMcpExtensionSettings::default();
    let from = assignment_text(&defaults, field);
    let to = assignment_text(settings, field);
    replace_all(text, from.as_str(), to.as_str())
}

/// `template` with the values of `settings` written in.
pub fn fill(template: &str, settings: &AsonMcpExtensionSettings) -> (text: String)
    ensures
        text@ == filled(template@, settings@),
{
    let text = substitute(template, settings, Field::Indent);
    let text = substitute(text.as_str(), settings, Field::Delimiter);
    let text = substitute(text.as_str(), settings, Field::UseReferences);
    let text = substitute(text.as_str(), settings, Field::UseSections);
    substitute(text.as_str(), settings, Field::UseTabular)
}

/// The default settings that the host shows, given what looking up the
/// settings document brought.
pub fn render_default_settings(lookup: &Result<Option<JsonValue>, String>) -> (text: String)
    ensures
        text@ == shown_settings(*lookup),
{
    match lookup {
        Ok(Some(document)) => match resolve(Some(document)) {
            Ok(settings) => fill(default_settings_text().as_str(), &settings),
            Err(_) => default_settings_text(),
        },
        _ => default_settings_text(),
    }
}

/// The description of the server. The instructions are always the same text
/// and the default settings are those of [`render_default_settings`]. The
/// schema is handed in as the text that generating it brought, or the error
/// that it failed with; such an error fails the description as a whole.
pub fn render_description(
    lookup: &Result<Option<JsonValue>, String>,
    schema: Result<String, String>,
) -> (outcome: Result<ContextServerDescription, String>)
    ensures
        match schema {
            Ok(text) => outcome matches Ok(description) && description.installation_instructions@
                == INSTALLATION_INSTRUCTIONS@ && description.default_settings@
                == shown_settings(*lookup) && description.settings_schema@ == text@,
            Err(error) => outcome matches Err(message) && message@ == error@,
        },
{
    match schema {
        Ok(settings_schema) => Ok(
            ContextServerDescription {
                installation_instructions: INSTALLATION_INSTRUCTIONS.to_owned(),
                default_settings: render_default_settings(lookup),
                settings_schema,
            },
        ),
        Err(error) => Err(error),
    }
}

/// Without a settings document the host is shown the default settings as
/// they stand, character for character; and so it is where looking the
/// document up failed.
pub proof fn lemma_absent_settings_keep_template(error: String)
    ensures
        shown_settings(Ok(None)) == default_settings(),
        shown_settings(Err(error)) == default_settings(),
{
}

/// Writing the defaults into a text leaves it as it is, whatever the text.
pub proof fn lemma_defaults_fill_nothing(template: Seq<char>)
    ensures
        filled(template, SettingsView::defaults()) == template,
{
    lemma_replaced_by_itself(template, placeholder(Field::Indent));
    lemma_replaced_by_itself(template, placeholder(Field::Delimiter));
    lemma_replaced_by_itself(template, placeholder(Field::UseReferences));
    lemma_replaced_by_itself(template, placeholder(Field::UseSections));
    lemma_replaced_by_itself(template, placeholder(Field::UseTabular));
}

} // verus!
