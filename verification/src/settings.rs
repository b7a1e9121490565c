//! The formatting options of the ASON server: their names, their documented
//! defaults and how each value is written as text.

use crate::text::{decimal, decimal_text, flag, flag_text, same_text};
use vstd::prelude::*;

verus! {

/// One formatting option.
#[derive(Clone, Copy, PartialEq, Eq, Structural, Debug)]
pub enum Field {
    /// Indentation level: 0 for none, 1 for compact, 2 and more for pretty print.
    Indent,
    /// The separator between fields.
    Delimiter,
    /// Whether `$var` references replace repeated content.
    UseReferences,
    /// Whether objects are grouped into `@section`s.
    UseSections,
    /// Whether uniform arrays are written as `key:[N]{fields}` tables.
    UseTabular,
}

/// The formatting options, every one of them set.
#[derive(PartialEq, Eq, Debug)]
pub struct AsonMcpExtensionSettings {
    /// Indentation level for output (0 = no indentation, 1 = compact, 2+ = pretty print)
    pub indent: u64,
    /// Field delimiter (pipe "|" is default for better token efficiency)
    pub delimiter: String,
    /// Enable $var references to avoid duplication
    pub use_references: bool,
    /// Enable @section organization for objects
    pub use_sections: bool,
    /// Enable key:[N]{fields} tabular arrays for uniform data
    pub use_tabular: bool,
}

/// The mathematical value of [`AsonMcpExtensionSettings`].
pub ghost struct SettingsView {
    pub indent: u64,
    pub delimiter: Seq<char>,
    pub use_references: bool,
    pub use_sections: bool,
    pub use_tabular: bool,
}

impl View for AsonMcpExtensionSettings {
    type V = SettingsView;

    open spec fn view(&self) -> SettingsView {
        SettingsView {
            indent: self.indent,
            delimiter: self.delimiter@,
            use_references: self.use_references,
            use_sections: self.use_sections,
            use_tabular: self.use_tabular,
        }
    }
}

impl SettingsView {
    /// The settings in which every option has its documented default.
    pub open spec fn defaults() -> SettingsView {
        SettingsView {
            indent: 1,
            delimiter: seq!['|'],
            use_references: true,
            use_sections: true,
            use_tabular: true,
        }
    }

    /// The value of `field` as text: a number in decimal, a flag as `true` or
    /// `false`, the delimiter as it is.
    pub open spec fn rendered(self, field: Field) -> Seq<char> {
        match field {
            Field::Indent => decimal(self.indent as nat),
            Field::Delimiter => self.delimiter,
            Field::UseReferences => flag(self.use_references),
            Field::UseSections => flag(self.use_sections),
            Field::UseTabular => flag(self.use_tabular),
        }
    }
}

/// The indentation level of settings that leave it out: compact.
pub fn default_indent() -> (indent: u64)
    ensures
        indent == SettingsView::defaults().indent,
{
    1
}

/// The delimiter of settings that leave it out: a pipe.
pub fn default_delimiter() -> (delimiter: String)
    ensures
        delimiter@ == SettingsView::defaults().delimiter,
{
    proof {
        reveal_strlit("|");
    }
    let delimiter = "|".to_owned();
    assert(delimiter@ =~= seq!['|']);
    delimiter
}

/// Whether references are used where the settings leave it out: they are.
pub fn default_use_references() -> (enabled: bool)
    ensures
        enabled == SettingsView::defaults().use_references,
{
    true
}

/// Whether sections are used where the settings leave it out: they are.
pub fn default_use_sections() -> (enabled: bool)
    ensures
        enabled == SettingsView::defaults().use_sections,
{
    true
}

/// Whether tables are used where the settings leave it out: they are.
pub fn default_use_tabular() -> (enabled: bool)
    ensures
        enabled == SettingsView::defaults().use_tabular,
{
    true
}

impl Default for AsonMcpExtensionSettings {
    fn default() -> (settings: Self)
        ensures
            settings@ == SettingsView::defaults(),
    {
        Self {
            indent: default_indent(),
            delimiter: default_delimiter(),
            use_references: default_use_references(),
            use_sections: default_use_sections(),
            use_tabular: default_use_tabular(),
        }
    }
}

impl AsonMcpExtensionSettings {
    /// The value of `field` as text.
    pub fn render(&self, field: Field) -> (text: String)
        ensures
            text@ == self@.rendered(field),
    {
        match field {
            Field::Indent => decimal_text(self.indent),
            Field::Delimiter => self.delimiter.clone(),
            Field::UseReferences => flag_text(self.use_references).to_owned(),
            Field::UseSections => flag_text(self.use_sections).to_owned(),
            Field::UseTabular => flag_text(self.use_tabular).to_owned(),
        }
    }
}

/// Upper case of an ASCII letter; every other character as it is.
pub open spec fn upper_char(c: char) -> char {
    if 'a' <= c <= 'z' {
        ((c as u8) - 32) as u8 as char
    } else {
        c
    }
}

/// `text` with its ASCII letters in upper case.
pub open spec fn upper(text: Seq<char>) -> Seq<char> {
    Seq::new(text.len(), |i: int| upper_char(text[i]))
}

impl Field {
    /// The name under which a settings document holds this option.
    pub open spec fn key(self) -> Seq<char> {
        match self {
            Field::Indent => "indent"@,
            Field::Delimiter => "delimiter"@,
            Field::UseReferences => "use_references"@,
            Field::UseSections => "use_sections"@,
            Field::UseTabular => "use_tabular"@,
        }
    }

    /// The environment variable that carries this option to the server:
    /// `ASON_` and the option's name in upper case.
    pub open spec fn variable(self) -> Seq<char> {
        "ASON_"@ + upper(self.key())
    }

    /// The place of this option where a document lists the values in order.
    pub open spec fn position(self) -> int {
        match self {
            Field::Indent => 0,
            Field::Delimiter => 1,
            Field::UseReferences => 2,
            Field::UseSections => 3,
            Field::UseTabular => 4,
        }
    }

    /// The name under which a settings document holds this option.
    pub fn name(self) -> (name: &'static str)
        ensures
            name@ == self.key(),
    {
        match self {
            Field::Indent => "indent",
            Field::Delimiter => "delimiter",
            Field::UseReferences => "use_references",
            Field::UseSections => "use_sections",
            Field::UseTabular => "use_tabular",
        }
    }

    /// The environment variable that carries this option to the server.
    pub fn env_name(self) -> (name: &'static str)
        ensures
            name@ == self.variable(),
    {
        proof {
            reveal_strlit("ASON_");
            reveal_strlit("indent");
            reveal_strlit("delimiter");
            reveal_strlit("use_references");
            reveal_strlit("use_sections");
            reveal_strlit("use_tabular");
            reveal_strlit("ASON_INDENT");
            reveal_strlit("ASON_DELIMITER");
            reveal_strlit("ASON_USE_REFERENCES");
            reveal_strlit("ASON_USE_SECTIONS");
            reveal_strlit("ASON_USE_TABULAR");
        }
        let name = match self {
            Field::Indent => "ASON_INDENT",
            Field::Delimiter => "ASON_DELIMITER",
            Field::UseReferences => "ASON_USE_REFERENCES",
            Field::UseSections => "ASON_USE_SECTIONS",
            Field::UseTabular => "ASON_USE_TABULAR",
        };
        assert(name@ =~= self.variable());
        name
    }
}

/// The number of options.
pub const FIELD_COUNT: usize = 5;

/// The option at `position`, counting from 0 in the order of declaration.
pub open spec fn field_at(position: int) -> Option<Field> {
    if position == 0 {
        Some(Field::Indent)
    } else if position == 1 {
        Some(Field::Delimiter)
    } else if position == 2 {
        Some(Field::UseReferences)
    } else if position == 3 {
        Some(Field::UseSections)
    } else if position == 4 {
        Some(Field::UseTabular)
    } else {
        None
    }
}

/// The option that a settings document holds under `key`, if it is one.
pub open spec fn field_named(key: Seq<char>) -> Option<Field> {
    if key == Field::Indent.key() {
        Some(Field::Indent)
    } else if key == Field::Delimiter.key() {
        Some(Field::Delimiter)
    } else if key == Field::UseReferences.key() {
        Some(Field::UseReferences)
    } else if key == Field::UseSections.key() {
        Some(Field::UseSections)
    } else if key == Field::UseTabular.key() {
        Some(Field::UseTabular)
    } else {
        None
    }
}

impl Field {
    /// The option that a settings document holds under `key`, if it is one.
    pub fn from_key(key: &str) -> (field: Option<Field>)
        ensures
            field == field_named(key@),
    {
        if same_text(key, Field::Indent.name()) {
            Some(Field::Indent)
        } else if same_text(key, Field::Delimiter.name()) {
            Some(Field::Delimiter)
        } else if same_text(key, Field::UseReferences.name()) {
            Some(Field::UseReferences)
        } else if same_text(key, Field::UseSections.name()) {
            Some(Field::UseSections)
        } else if same_text(key, Field::UseTabular.name()) {
            Some(Field::UseTabular)
        } else {
            None
        }
    }

    /// The place of this option where a document lists the values in order.
    pub fn index(self) -> (position: usize)
        ensures
            position == self.position(),
    {
        match self {
            Field::Indent => 0,
            Field::Delimiter => 1,
            Field::UseReferences => 2,
            Field::UseSections => 3,
            Field::UseTabular => 4,
        }
    }

    /// The option at `position`, counting from 0 in the order of declaration.
    pub fn at(position: usize) -> (field: Option<Field>)
        ensures
            field == field_at(position as int),
    {
        if position == 0 {
            Some(Field::Indent)
        } else if position == 1 {
            Some(Field::Delimiter)
        } else if position == 2 {
            Some(Field::UseReferences)
        } else if position == 3 {
            Some(Field::UseSections)
        } else if position == 4 {
            Some(Field::UseTabular)
        } else {
            None
        }
    }
}

/// No two options share a name, a variable or a position: each option is
/// found again by its own name and at its own position, and the variables of
/// two different options differ.
pub proof fn lemma_fields_distinct(field: Field, other: Field)
    ensures
        field_named(field.key()) == Some(field),
        field_at(field.position()) == Some(field),
        0 <= field.position() < FIELD_COUNT,
        field != other ==> field.key() != other.key(),
        field != other ==> field.variable() != other.variable(),
{
    reveal_strlit("ASON_");
    reveal_strlit("indent");
    reveal_strlit("delimiter");
    reveal_strlit("use_references");
    reveal_strlit("use_sections");
    reveal_strlit("use_tabular");
    assert(field.variable().len() == 5 + field.key().len());
    assert(other.variable().len() == 5 + other.key().len());
}

} // verus!
