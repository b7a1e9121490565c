//! The untyped settings document that the host hands over.

use crate::settings::Field;
use crate::text::same_text;
use vstd::prelude::*;

verus! {

/// A JSON value, as far as the settings read it: of a number with a
/// fractional part or beyond the integers only its kind is kept, since no
/// option accepts one.
#[derive(PartialEq, Eq, Debug)]
pub enum JsonValue {
    /// `null`.
    Null,
    /// `true` or `false`.
    Bool(bool),
    /// A number without a fractional part.
    Integer(i128),
    /// Any other number.
    Fraction,
    /// A string.
    Text(String),
    /// An array, with its values in order.
    List(Vec<JsonValue>),
    /// An object, with its entries in order, each a key and a value.
    Table(Vec<(String, JsonValue)>),
}

/// The value of the first entry of `entries` whose key is `key`.
pub open spec fn lookup(entries: Seq<(String, JsonValue)>, key: Seq<char>) -> Option<JsonValue>
    decreases entries.len(),
{
    if entries.len() == 0 {
        None
    } else {
        match lookup(entries.drop_last(), key) {
            Some(value) => Some(value),
            None => if entries.last().0@ == key {
                Some(entries.last().1)
            } else {
                None
            },
        }
    }
}

impl JsonValue {
    /// What the document says of `field`: in a table the value of the first
    /// entry under the option's name, in a list the value at the option's
    /// position, and nothing in any other document.
    pub open spec fn supplied(self, field: Field) -> Option<JsonValue> {
        match self {
            JsonValue::Table(entries) => lookup(entries@, field.key()),
            JsonValue::List(items) => if field.position() < items@.len() {
                Some(items@[field.position()])
            } else {
                None
            },
            _ => None,
        }
    }
}

/// A value found in front of some entries is found in all of them.
proof fn lemma_lookup_stable(entries: Seq<(String, JsonValue)>, key: Seq<char>, prefix: int)
    requires
        0 <= prefix <= entries.len(),
        lookup(entries.take(prefix), key) is Some,
    ensures
        lookup(entries, key) == lookup(entries.take(prefix), key),
    decreases entries.len() - prefix,
{
    if prefix < entries.len() {
        assert(entries.take(prefix + 1).drop_last() == entries.take(prefix));
        lemma_lookup_stable(entries, key, prefix + 1);
    } else {
        assert(entries.take(prefix) == entries);
    }
}

/// The value of the first entry of `entries` whose key is `key`.
pub fn find<'a>(entries: &'a Vec<(String, JsonValue)>, key: &str) -> (found: Option<&'a JsonValue>)
    ensures
        match found {
            Some(value) => lookup(entries@, key@) == Some(*value),
            None => lookup(entries@, key@) is None,
        },
{
    let mut at: usize = 0;
    while at < entries.len()
        invariant
            at <= entries.len(),
            lookup(entries@.take(at as int), key@) is None,
        decreases entries.len() - at,
    {
        assert(entries@.take(at + 1).drop_last() == entries@.take(at as int));
        if same_text(entries[at].0.as_str(), key) {
            proof {
                lemma_lookup_stable(entries@, key@, at + 1);
            }
            return Some(&entries[at].1);
        }
        at += 1;
    }
    assert(entries@.take(at as int) == entries@);
    None
}

impl JsonValue {
    /// What the document says of `field`.
    pub fn supply(&self, field: Field) -> (given: Option<&JsonValue>)
        ensures
            match given {
                Some(value) => self.supplied(field) == Some(*value),
                None => self.supplied(field) is None,
            },
    {
        match self {
            JsonValue::Table(entries) => find(entries, field.name()),
            JsonValue::List(items) => {
                let position = field.index();
                if position < items.len() {
                    Some(&items[position])
                } else {
                    None
                }
            },
            _ => None,
        }
    }
}

} // verus!
