//! Resolving a settings document into settings: options that the document
//! leaves out take their defaults, and an option that it gives in the wrong
//! shape is an error, never a default.

use crate::document::{lookup, JsonValue};
use crate::settings::{
    default_delimiter, default_indent, default_use_references, default_use_sections,
    default_use_tabular, field_at, field_named, lemma_fields_distinct, AsonMcpExtensionSettings,
    Field, SettingsView, FIELD_COUNT,
};
use crate::text::same_text;
use vstd::prelude::*;

verus! {

/// The largest indentation level that the settings can hold.
pub const LARGEST_LEVEL: i128 = 18446744073709551615i128;

/// Why a settings document is rejected.
#[derive(Clone, Copy, PartialEq, Eq, Structural, Debug)]
pub enum DecodeError {
    /// The document is neither a table nor a list.
    NotAStructure,
    /// The value given for the option is of another JSON type than the option.
    WrongType(Field),
    /// The integer given for the option is negative, or beyond what the
    /// settings can hold.
    OutOfRange(Field),
    /// The table holds the option twice.
    Duplicate(Field),
    /// The list holds more values than there are options.
    TooManyValues,
}

/// What is wrong with `value` as the value of `field`, if anything: `indent`
/// takes any integer that is not negative, up to the largest that the
/// settings can hold; `delimiter` takes any text, the other options a boolean.
pub open spec fn shape_fault(field: Field, value: JsonValue) -> Option<DecodeError> {
    match field {
        Field::Indent => match value {
            JsonValue::Integer(n) => if 0 <= n <= u64::MAX {
                None
            } else {
                Some(DecodeError::OutOfRange(field))
            },
            _ => Some(DecodeError::WrongType(field)),
        },
        Field::Delimiter => match value {
            JsonValue::Text(_) => None,
            _ => Some(DecodeError::WrongType(field)),
        },
        _ => match value {
            JsonValue::Bool(_) => None,
            _ => Some(DecodeError::WrongType(field)),
        },
    }
}

/// Whether an entry in front of entry `at` has the same key.
pub open spec fn seen_before(entries: Seq<(String, JsonValue)>, at: int) -> bool {
    exists|earlier: int| 0 <= earlier < at && #[trigger] entries[earlier].0@ == entries[at].0@
}

/// What is wrong with entry `at` of a table, if anything. An entry under a
/// key that names no option is passed over, whatever it holds. An entry that
/// names an option must be the first under that key and hold a value of the
/// option's shape.
pub open spec fn entry_fault(entries: Seq<(String, JsonValue)>, at: int) -> Option<DecodeError> {
    match field_named(entries[at].0@) {
        None => None,
        Some(field) => if seen_before(entries, at) {
            Some(DecodeError::Duplicate(field))
        } else {
            shape_fault(field, entries[at].1)
        },
    }
}

/// The fault of the first faulty entry of a table at or behind `from`.
pub open spec fn first_entry_fault(entries: Seq<(String, JsonValue)>, from: int) -> Option<
    DecodeError,
>
    decreases entries.len() - from,
{
    if from < 0 || from >= entries.len() {
        None
    } else {
        match entry_fault(entries, from) {
            Some(error) => Some(error),
            None => first_entry_fault(entries, from + 1),
        }
    }
}

/// What is wrong with the value at `position` of a list, if anything.
pub open spec fn item_fault(items: Seq<JsonValue>, position: int) -> Option<DecodeError> {
    match field_at(position) {
        Some(field) => shape_fault(field, items[position]),
        None => None,
    }
}

/// The fault of the first faulty value of a list at or behind `from`, among
/// the positions that stand for an option.
pub open spec fn first_item_fault(items: Seq<JsonValue>, from: int) -> Option<DecodeError>
    decreases FIELD_COUNT - from,
{
    if from < 0 || from >= items.len() || from >= FIELD_COUNT {
        None
    } else {
        match item_fault(items, from) {
            Some(error) => Some(error),
            None => first_item_fault(items, from + 1),
        }
    }
}

/// Why `document` is rejected, if it is. A table is read entry by entry and
/// a list value by value, and the first fault met is the one reported; a list
/// that is too long is found out after its values.
pub open spec fn fault(document: JsonValue) -> Option<DecodeError> {
    match document {
        JsonValue::Table(entries) => first_entry_fault(entries@, 0),
        JsonValue::List(items) => match first_item_fault(items@, 0) {
            Some(error) => Some(error),
            None => if items@.len() > FIELD_COUNT {
                Some(DecodeError::TooManyValues)
            } else {
                None
            },
        },
        _ => Some(DecodeError::NotAStructure),
    }
}

/// The indentation level that `given` stands for; `fallback` without one.
pub open spec fn level_or(given: Option<JsonValue>, fallback: u64) -> u64 {
    match given {
        Some(JsonValue::Integer(n)) => if 0 <= n <= u64::MAX {
            n as u64
        } else {
            fallback
        },
        _ => fallback,
    }
}

/// The text that `given` holds; `fallback` without one.
pub open spec fn text_or(given: Option<JsonValue>, fallback: Seq<char>) -> Seq<char> {
    match given {
        Some(JsonValue::Text(text)) => text@,
        _ => fallback,
    }
}

/// The boolean that `given` holds; `fallback` without one.
pub open spec fn flag_or(given: Option<JsonValue>, fallback: bool) -> bool {
    match given {
        Some(JsonValue::Bool(value)) => value,
        _ => fallback,
    }
}

/// The settings that `document` stands for: each option as the document
/// supplies it, and its default where the document does not.
pub open spec fn merged(document: JsonValue) -> SettingsView {
    let defaults = SettingsView::defaults();
    SettingsView {
        indent: level_or(document.supplied(Field::Indent), defaults.indent),
        delimiter: text_or(document.supplied(Field::Delimiter), defaults.delimiter),
        use_references: flag_or(document.supplied(Field::UseReferences), defaults.use_references),
        use_sections: flag_or(document.supplied(Field::UseSections), defaults.use_sections),
        use_tabular: flag_or(document.supplied(Field::UseTabular), defaults.use_tabular),
    }
}

/// What a settings document decodes to.
pub open spec fn decoded(document: JsonValue) -> Result<SettingsView, DecodeError> {
    match fault(document) {
        Some(error) => Err(error),
        None => Ok(merged(document)),
    }
}

/// What the settings of a request resolve to: the defaults where the host has
/// no document, else what the document decodes to.
pub open spec fn resolved(raw: Option<JsonValue>) -> Result<SettingsView, DecodeError> {
    match raw {
        None => Ok(SettingsView::defaults()),
        Some(document) => decoded(document),
    }
}

/// What `lookup` finds is the value of the first entry under the key, and it
/// finds nothing only where no entry has the key.
pub proof fn lemma_lookup_first(entries: Seq<(String, JsonValue)>, key: Seq<char>)
    ensures
        match lookup(entries, key) {
            Some(value) => exists|at: int|
                0 <= at < entries.len() && #[trigger] entries[at].0@ == key && entries[at].1
                    == value && !seen_before(entries, at),
            None => forall|at: int| 0 <= at < entries.len() ==> #[trigger] entries[at].0@ != key,
        },
    decreases entries.len(),
{
    if entries.len() > 0 {
        let front = entries.drop_last();
        lemma_lookup_first(front, key);
        match lookup(front, key) {
            Some(value) => {
                let at = choose|at: int|
                    0 <= at < front.len() && #[trigger] front[at].0@ == key && front[at].1 == value
                        && !seen_before(front, at);
                assert(entries[at] == front[at]);
                assert(!seen_before(entries, at)) by {
                    if seen_before(entries, at) {
                        let earlier = choose|earlier: int|
                            0 <= earlier < at && #[trigger] entries[earlier].0@ == entries[at].0@;
                        assert(front[earlier] == entries[earlier]);
                    }
                }
                assert(entries[at].0@ == key && entries[at].1 == value);
            },
            None => {
                assert forall|at: int| 0 <= at < front.len() implies #[trigger] entries[at].0@
                    != key by {
                    assert(entries[at] == front[at]);
                }
                if entries.last().0@ == key {
                    let at = entries.len() - 1;
                    assert(!seen_before(entries, at));
                    assert(entries[at].0@ == key && entries[at].1 == entries.last().1);
                }
            },
        }
    }
}

/// A table without a first fault has no faulty entry.
proof fn lemma_no_entry_fault(entries: Seq<(String, JsonValue)>, from: int, at: int)
    requires
        0 <= from <= at < entries.len(),
        first_entry_fault(entries, from) is None,
    ensures
        entry_fault(entries, at) is None,
    decreases at - from,
{
    if from < at {
        lemma_no_entry_fault(entries, from + 1, at);
    }
}

/// A list without a first fault has no faulty value.
proof fn lemma_no_item_fault(items: Seq<JsonValue>, from: int, at: int)
    requires
        0 <= from <= at < items.len(),
        at < FIELD_COUNT,
        first_item_fault(items, from) is None,
    ensures
        item_fault(items, at) is None,
    decreases at - from,
{
    if from < at {
        lemma_no_item_fault(items, from + 1, at);
    }
}

/// In a document without fault, whatever it supplies for an option has the
/// option's shape.
pub proof fn lemma_supplied_fits(document: JsonValue, field: Field)
    requires
        fault(document) is None,
    ensures
        document.supplied(field) matches Some(value) ==> shape_fault(field, value) is None,
{
    lemma_fields_distinct(field, field);
    match document {
        JsonValue::Table(entries) => {
            lemma_lookup_first(entries@, field.key());
            if let Some(value) = lookup(entries@, field.key()) {
                let at = choose|at: int|
                    0 <= at < entries@.len() && #[trigger] entries@[at].0@ == field.key()
                        && entries@[at].1 == value && !seen_before(entries@, at);
                lemma_no_entry_fault(entries@, 0, at);
            }
        },
        JsonValue::List(items) => {
            if field.position() < items@.len() {
                lemma_no_item_fault(items@, 0, field.position());
            }
        },
        _ => {},
    }
}

/// Whether `document` is a valid settings document, said without reading it
/// in order. A table is valid where no key that names an option stands in it
/// twice and every value under such a key has the option's shape; what
/// stands under other keys is free. A list is valid where it holds no more
/// values than there are options and each value has the shape of the option
/// at its position. Nothing else is valid.
pub open spec fn valid(document: JsonValue) -> bool {
    match document {
        JsonValue::Table(entries) => {
            &&& forall|i: int, j: int|
                0 <= i < j < entries@.len() && field_named(entries@[i].0@) is Some
                    ==> #[trigger] entries@[i].0@ != #[trigger] entries@[j].0@
            &&& forall|i: int|
                0 <= i < entries@.len() ==> match field_named(#[trigger] entries@[i].0@) {
                    Some(field) => shape_fault(field, entries@[i].1) is None,
                    None => true,
                }
        },
        JsonValue::List(items) => {
            &&& items@.len() <= FIELD_COUNT
            &&& forall|i: int| 0 <= i < items@.len() ==> #[trigger] item_fault(items@, i) is None
        },
        _ => false,
    }
}

/// A table none of whose entries is faulty has no first fault.
proof fn lemma_no_first_entry_fault(entries: Seq<(String, JsonValue)>, from: int)
    requires
        0 <= from,
        forall|at: int| from <= at < entries.len() ==> entry_fault(entries, at) is None,
    ensures
        first_entry_fault(entries, from) is None,
    decreases entries.len() - from,
{
    if from < entries.len() {
        lemma_no_first_entry_fault(entries, from + 1);
    }
}

/// A list none of whose values is faulty has no first fault.
proof fn lemma_no_first_item_fault(items: Seq<JsonValue>, from: int)
    requires
        0 <= from,
        forall|at: int| from <= at < items.len() ==> item_fault(items, at) is None,
    ensures
        first_item_fault(items, from) is None,
    decreases FIELD_COUNT - from,
{
    if from < items.len() && from < FIELD_COUNT {
        lemma_no_first_item_fault(items, from + 1);
    }
}

/// The valid documents are those in which reading finds no fault.
pub proof fn lemma_valid_means_no_fault(document: JsonValue)
    ensures
        valid(document) <==> fault(document) is None,
{
    match document {
        JsonValue::Table(entries) => {
            let entries = entries@;
            if valid(document) {
                assert forall|at: int| 0 <= at < entries.len() implies entry_fault(
                    entries,
                    at,
                ) is None by {
                    if field_named(entries[at].0@) is Some && seen_before(entries, at) {
                        let earlier = choose|earlier: int|
                            0 <= earlier < at && #[trigger] entries[earlier].0@ == entries[at].0@;
                        assert(entries[earlier].0@ != entries[at].0@);
                    }
                }
                lemma_no_first_entry_fault(entries, 0);
            }
            if fault(document) is None {
                assert forall|i: int, j: int|
                    0 <= i < j < entries.len() && field_named(
                        entries[i].0@,
                    ) is Some implies #[trigger] entries[i].0@ != #[trigger] entries[j].0@ by {
                    lemma_no_entry_fault(entries, 0, j);
                    if entries[i].0@ == entries[j].0@ {
                        assert(seen_before(entries, j));
                    }
                }
                assert forall|i: int| 0 <= i < entries.len() implies match field_named(
                    #[trigger] entries[i].0@,
                ) {
                    Some(field) => shape_fault(field, entries[i].1) is None,
                    None => true,
                } by {
                    lemma_no_entry_fault(entries, 0, i);
                }
            }
        },
        JsonValue::List(items) => {
            let items = items@;
            if valid(document) {
                lemma_no_first_item_fault(items, 0);
            }
            if fault(document) is None {
                assert forall|i: int| 0 <= i < items.len() implies #[trigger] item_fault(
                    items,
                    i,
                ) is None by {
                    lemma_no_item_fault(items, 0, i);
                }
            }
        },
        _ => {},
    }
}

/// Field-level merge. A valid document resolves to settings, and in them
/// every option that the document supplies has the supplied value, and every
/// option that it leaves out has its documented default.
pub proof fn lemma_resolve_merges(document: JsonValue)
    requires
        valid(document),
    ensures
        resolved(Some(document)) matches Ok(settings) && {
            &&& match document.supplied(Field::Indent) {
                Some(value) => value matches JsonValue::Integer(n) && settings.indent == n,
                None => settings.indent == SettingsView::defaults().indent,
            }
            &&& match document.supplied(Field::Delimiter) {
                Some(value) => value matches JsonValue::Text(text) && settings.delimiter == text@,
                None => settings.delimiter == SettingsView::defaults().delimiter,
            }
            &&& match document.supplied(Field::UseReferences) {
                Some(value) => value matches JsonValue::Bool(enabled) && settings.use_references
                    == enabled,
                None => settings.use_references == SettingsView::defaults().use_references,
            }
            &&& match document.supplied(Field::UseSections) {
                Some(value) => value matches JsonValue::Bool(enabled) && settings.use_sections
                    == enabled,
                None => settings.use_sections == SettingsView::defaults().use_sections,
            }
            &&& match document.supplied(Field::UseTabular) {
                Some(value) => value matches JsonValue::Bool(enabled) && settings.use_tabular
                    == enabled,
                None => settings.use_tabular == SettingsView::defaults().use_tabular,
            }
        },
{
    lemma_valid_means_no_fault(document);
    lemma_supplied_fits(document, Field::Indent);
    lemma_supplied_fits(document, Field::Delimiter);
    lemma_supplied_fits(document, Field::UseReferences);
    lemma_supplied_fits(document, Field::UseSections);
    lemma_supplied_fits(document, Field::UseTabular);
}

/// A present option of the wrong shape is never replaced by its default: a
/// table whose first entry under an option's name does not fit the option
/// is rejected, and so is a list with such a value at the option's position.
pub proof fn lemma_misfit_is_rejected(document: JsonValue, field: Field)
    requires
        document.supplied(field) matches Some(value) && shape_fault(field, value) is Some,
    ensures
        resolved(Some(document)) is Err,
{
    if fault(document) is None {
        lemma_supplied_fits(document, field);
    }
}

/// What is wrong with `value` as the value of `field`, if anything.
pub fn check_value(field: Field, value: &JsonValue) -> (found: Option<DecodeError>)
    ensures
        found == shape_fault(field, *value),
{
    match field {
        Field::Indent => match value {
            JsonValue::Integer(n) => if 0 <= *n && *n <= LARGEST_LEVEL {
                None
            } else {
                Some(DecodeError::OutOfRange(field))
            },
            _ => Some(DecodeError::WrongType(field)),
        },
        Field::Delimiter => match value {
            JsonValue::Text(_) => None,
            _ => Some(DecodeError::WrongType(field)),
        },
        _ => match value {
            JsonValue::Bool(_) => None,
            _ => Some(DecodeError::WrongType(field)),
        },
    }
}

/// Whether an entry in front of entry `at` has the same key.
fn key_seen_before(entries: &Vec<(String, JsonValue)>, at: usize) -> (seen: bool)
    requires
        at < entries.len(),
    ensures
        seen == seen_before(entries@, at as int),
{
    let mut earlier: usize = 0;
    while earlier < at
        invariant
            earlier <= at < entries.len(),
            forall|j: int| 0 <= j < earlier ==> #[trigger] entries@[j].0@ != entries@[at as int].0@,
        decreases at - earlier,
    {
        if same_text(entries[earlier].0.as_str(), entries[at].0.as_str()) {
            return true;
        }
        earlier += 1;
    }
    false
}

/// The fault of the first faulty entry of a table.
fn find_entry_fault(entries: &Vec<(String, JsonValue)>) -> (found: Option<DecodeError>)
    ensures
        found == first_entry_fault(entries@, 0),
{
    let mut at: usize = 0;
    while at < entries.len()
        invariant
            at <= entries.len(),
            first_entry_fault(entries@, 0) == first_entry_fault(entries@, at as int),
        decreases entries.len() - at,
    {
        if let Some(field) = Field::from_key(entries[at].0.as_str()) {
            if key_seen_before(entries, at) {
                return Some(DecodeError::Duplicate(field));
            }
            if let Some(error) = check_value(field, &entries[at].1) {
                return Some(error);
            }
        }
        at += 1;
    }
    None
}

/// The fault of the first faulty value of a list, among the positions that
/// stand for an option.
fn find_item_fault(items: &Vec<JsonValue>) -> (found: Option<DecodeError>)
    ensures
        found == first_item_fault(items@, 0),
{
    let mut at: usize = 0;
    while at < items.len() && at < FIELD_COUNT
        invariant
            at <= items.len(),
            at <= FIELD_COUNT,
            first_item_fault(items@, 0) == first_item_fault(items@, at as int),
        decreases FIELD_COUNT - at,
    {
        if let Some(field) = Field::at(at) {
            if let Some(error) = check_value(field, &items[at]) {
                return Some(error);
            }
        }
        at += 1;
    }
    None
}

/// Why `document` is rejected, if it is.
pub fn find_fault(document: &JsonValue) -> (found: Option<DecodeError>)
    ensures
        found == fault(*document),
{
    match document {
        JsonValue::Table(entries) => find_entry_fault(entries),
        JsonValue::List(items) => match find_item_fault(items) {
            Some(error) => Some(error),
            None => if items.len() > FIELD_COUNT {
                Some(DecodeError::TooManyValues)
            } else {
                None
            },
        },
        _ => Some(DecodeError::NotAStructure),
    }
}

/// The settings that `document` stands for where it is without fault: each
/// option as the document supplies it, and its default where it does not.
fn merge(document: &JsonValue) -> (settings: AsonMcpExtensionSettings)
    ensures
        settings@ == merged(*document),
{
    AsonMcpExtensionSettings {
        indent: match document.supply(Field::Indent) {
            Some(JsonValue::Integer(n)) => if 0 <= *n && *n <= LARGEST_LEVEL {
                *n as u64
            } else {
                default_indent()
            },
            _ => default_indent(),
        },
        delimiter: match document.supply(Field::Delimiter) {
            Some(JsonValue::Text(text)) => text.clone(),
            _ => default_delimiter(),
        },
        use_references: match document.supply(Field::UseReferences) {
            Some(JsonValue::Bool(enabled)) => *enabled,
            _ => default_use_references(),
        },
        use_sections: match document.supply(Field::UseSections) {
            Some(JsonValue::Bool(enabled)) => *enabled,
            _ => default_use_sections(),
        },
        use_tabular: match document.supply(Field::UseTabular) {
            Some(JsonValue::Bool(enabled)) => *enabled,
            _ => default_use_tabular(),
        },
    }
}

/// Resolves the settings of a request. Without a document every option has
/// its default. With one, the options that it holds are taken from it and the
/// others have their defaults; a document that holds an option in the wrong
/// shape is rejected with the first fault found in it.
pub fn resolve(raw: Option<&JsonValue>) -> (outcome: Result<AsonMcpExtensionSettings, DecodeError>)
    ensures
        match raw {
            None => outcome matches Ok(settings) && settings@ == SettingsView::defaults(),
            Some(document) => match decoded(*document) {
                Ok(expected) => outcome matches Ok(settings) && settings@ == expected,
                Err(error) => outcome matches Err(found) && found == error,
            },
        },
{
    match raw {
        None => Ok(AsonMcpExtensionSettings::default()),
        Some(document) => match find_fault(document) {
            Some(error) => Err(error),
            None => Ok(merge(document)),
        },
    }
}

/// What an option takes, in words.
pub open spec fn expectation(field: Field) -> Seq<char> {
    match field {
        Field::Indent => "a non-negative integer"@,
        Field::Delimiter => "a string"@,
        _ => "a boolean"@,
    }
}

impl DecodeError {
    /// The error in words, naming the option it is about.
    pub open spec fn text(self) -> Seq<char> {
        match self {
            DecodeError::NotAStructure => "invalid settings: expected a table of options"@,
            DecodeError::WrongType(field) => "invalid type for `"@ + field.key() + "`: expected "@
                + expectation(field),
            DecodeError::OutOfRange(field) => "invalid value for `"@ + field.key()
                + "`: expected "@ + expectation(field),
            DecodeError::Duplicate(field) => "duplicate field `"@ + field.key() + "`"@,
            DecodeError::TooManyValues => "invalid length: expected at most 5 values"@,
        }
    }

    /// The error in words, naming the option it is about.
    pub fn message(&self) -> (message: String)
        ensures
            message@ == self.text(),
    {
        match self {
            DecodeError::NotAStructure => "invalid settings: expected a table of options".to_owned(),
            DecodeError::WrongType(field) => {
                let mut message = "invalid type for `".to_owned();
                message.append(field.name());
                message.append("`: expected ");
                message.append(expected(*field));
                message
            },
            DecodeError::OutOfRange(field) => {
                let mut message = "invalid value for `".to_owned();
                message.append(field.name());
                message.append("`: expected ");
                message.append(expected(*field));
                message
            },
            DecodeError::Duplicate(field) => {
                let mut message = "duplicate field `".to_owned();
                message.append(field.name());
                message.append("`");
                message
            },
            DecodeError::TooManyValues => "invalid length: expected at most 5 values".to_owned(),
        }
    }
}

/// What an option takes, in words.
fn expected(field: Field) -> (words: &'static str)
    ensures
        words@ == expectation(field),
{
    match field {
        Field::Indent => "a non-negative integer",
        Field::Delimiter => "a string",
        _ => "a boolean",
    }
}

} // verus!
