//! JSON as the rows use it: a string written as a JSON string, and a JSON
//! object read into its members. Both are the work of `serde_json`; what is
//! read is handed on as plain values.

use crate::aws::error;
use crate::aws::error::ErrorModel;
use crate::string::equal;
use serde_json::Value;
use vstd::prelude::*;

verus! {

/// What a member of a JSON object holds, by its characters.
pub enum FieldModel {
    Text(Seq<char>),
    Number(Option<u64>),
    Object(Seq<(Seq<char>, Option<Seq<char>>)>),
    Other,
}

/// What a member of a JSON object holds, as far as a row is read from it.
#[derive(Debug, Clone, PartialEq, Eq)]
pub enum JsonField {
    /// A string.
    Text(String),
    /// A number, with its value where it is a whole number from 0 to
    /// `u64::MAX`.
    Number(Option<u64>),
    /// An object: its members by name, each with its string where it holds
    /// one.
    Object(Vec<(String, Option<String>)>),
    /// Anything else.
    Other,
}

/// The members of an inner object by their characters.
pub open spec fn inner_members_of(members: Seq<(String, Option<String>)>) -> Seq<(Seq<char>, Option<Seq<char>>)> {
    members.map_values(
        |m: (String, Option<String>)|
            (
                m.0@,
                match m.1 {
                    Some(text) => Some(text@),
                    None => None,
                },
            ),
    )
}

impl View for JsonField {
    type V = FieldModel;

    open spec fn view(&self) -> FieldModel {
        match self {
            JsonField::Text(text) => FieldModel::Text(text@),
            JsonField::Number(value) => FieldModel::Number(*value),
            JsonField::Object(members) => FieldModel::Object(inner_members_of(members@)),
            JsonField::Other => FieldModel::Other,
        }
    }
}

/// The members of an object by their characters.
pub open spec fn members_of(members: Seq<(String, JsonField)>) -> Seq<(Seq<char>, FieldModel)> {
    members.map_values(|m: (String, JsonField)| (m.0@, m.1@))
}

#[verifier::external_type_specification]
#[verifier::external_body]
pub struct ExJsonError(serde_json::Error);

/// The digit `d` of a number in base 16, in lower case.
pub open spec fn hex_digit(d: int) -> char {
    if d < 10 {
        crate::aws::number::digit_char(d)
    } else if d == 10 {
        'a'
    } else if d == 11 {
        'b'
    } else if d == 12 {
        'c'
    } else if d == 13 {
        'd'
    } else if d == 14 {
        'e'
    } else {
        'f'
    }
}

/// One character as it stands inside a JSON string: a backslash before the
/// double quote and the backslash; `\b`, `\t`, `\n`, `\f` and `\r` for the
/// control characters of these names; `\u00` and two digits in base 16 for
/// any other character below the blank; every other character as it is.
pub open spec fn escaped(c: char) -> Seq<char> {
    if c == '\u{22}' {
        seq!['\u{5c}', '\u{22}']
    } else if c == '\u{5c}' {
        seq!['\u{5c}', '\u{5c}']
    } else if c == '\u{8}' {
        seq!['\u{5c}', 'b']
    } else if c == '\t' {
        seq!['\u{5c}', 't']
    } else if c == '\n' {
        seq!['\u{5c}', 'n']
    } else if c == '\u{c}' {
        seq!['\u{5c}', 'f']
    } else if c == '\r' {
        seq!['\u{5c}', 'r']
    } else if (c as int) < 32 {
        seq!['\u{5c}', 'u', '0', '0', hex_digit(c as int / 16), hex_digit(c as int % 16)]
    } else {
        seq![c]
    }
}

/// The characters of `text`, each as it stands inside a JSON string.
pub open spec fn escaped_text(text: Seq<char>) -> Seq<char>
    decreases text.len(),
{
    if text.len() == 0 {
        Seq::empty()
    } else {
        escaped_text(text.drop_last()) + escaped(text.last())
    }
}

/// `text` as a JSON string: between double quotes, with the characters
/// escaped that JSON does not take as they are.
pub open spec fn json_string(text: Seq<char>) -> Seq<char> {
    seq!['\u{22}'] + escaped_text(text) + seq!['\u{22}']
}

/// The members of the JSON object that `serde_json` reads from `text`, each
/// under its name; `None` where `text` is no JSON object.
pub uninterp spec fn json_members(text: Seq<char>) -> Option<Seq<(Seq<char>, FieldModel)>>;

/// `serde_json::to_string` on a string. It writes the string into a vector
/// of bytes, which takes every write, so the call succeeds; what it writes is
/// the string between double quotes, each character escaped as the table of
/// `serde_json` has it.
#[verifier::external_body]
fn to_json_string(text: &str) -> (written: Result<String, serde_json::Error>)
    ensures
        written is Ok,
        written matches Ok(json) ==> json@ == json_string(text@),
{
    serde_json::to_string(text)
}

/// `serde_json::from_str` for a JSON object, read as a `serde_json::Map` of
/// `serde_json::Value`: the members that it read, each with what it holds, or
/// its error where `text` is no JSON object or is nested more than 128 deep.
/// Of two members of one name the later one is read. Of a number
/// `Number::as_u64` gives the value. What is read depends on `text` alone.
#[verifier::external_body]
fn from_json_object(text: &str) -> (read: Result<Vec<(String, JsonField)>, serde_json::Error>)
    ensures
        read matches Ok(members) ==> json_members(text@) == Some(members_of(members@)),
        read is Err ==> json_members(text@) is None,
{
    let object: serde_json::Map<String, Value> = serde_json::from_str(text)?;
    Ok(object.into_iter().map(|(name, value)| (name, match value {
        Value::String(text) => JsonField::Text(text),
        Value::Number(number) => JsonField::Number(number.as_u64()),
        Value::Object(inner) => JsonField::Object(inner.into_iter().map(|(name, value)| (name, match value {
            Value::String(text) => Some(text),
            Value::Null | Value::Bool(_) | Value::Number(_) | Value::Array(_) | Value::Object(_) => None,
        })).collect()),
        Value::Null | Value::Bool(_) | Value::Array(_) => JsonField::Other,
    })).collect())
}

/// The words of an error of `serde_json`, as its `Display` gives them.
#[verifier::external_body]
fn json_error_words(error: &serde_json::Error) -> (words: String) {
    error.to_string()
}

/// `text` as a JSON string. Every text can be written so.
pub fn quoted(text: &str) -> (written: Result<String, error::ErrorKind>)
    ensures
        written matches Ok(json) && json@ == json_string(text@),
{
    match to_json_string(text) {
        Ok(json) => Ok(json),
        Err(failure) => Err(error::ErrorKind::Json(json_error_words(&failure))),
    }
}

/// The members of the JSON object `text`; a JSON error where `text` is none.
pub fn members(text: &str) -> (read: Result<Vec<(String, JsonField)>, error::ErrorKind>)
    ensures
        read matches Ok(found) ==> json_members(text@) == Some(members_of(found@)),
        read matches Err(error) ==> error@ == ErrorModel::Json && json_members(text@) is None,
{
    match from_json_object(text) {
        Ok(found) => Ok(found),
        Err(failure) => Err(error::ErrorKind::Json(json_error_words(&failure))),
    }
}

/// The first index at which `members` has a member of the name `name`;
/// `members.len()` where none has it.
pub open spec fn member_index(members: Seq<(Seq<char>, FieldModel)>, name: Seq<char>) -> int
    decreases members.len(),
{
    if members.len() == 0 {
        0
    } else if members[0].0 == name {
        0
    } else {
        1 + member_index(members.drop_first(), name)
    }
}

/// What the first member of the name `name` holds, if there is one.
pub open spec fn member_of(members: Seq<(Seq<char>, FieldModel)>, name: Seq<char>) -> Option<FieldModel> {
    if member_index(members, name) < members.len() {
        Some(members[member_index(members, name)].1)
    } else {
        None
    }
}

/// `member_index` is the first index with the name, or the length.
pub proof fn lemma_member_index(members: Seq<(Seq<char>, FieldModel)>, name: Seq<char>)
    ensures
        0 <= member_index(members, name) <= members.len(),
        member_index(members, name) < members.len() ==> members[member_index(members, name)].0 == name,
        forall|i: int| 0 <= i < member_index(members, name) ==> (#[trigger] members[i]).0 != name,
    decreases members.len(),
{
    if members.len() > 0 && members[0].0 != name {
        let tail = members.drop_first();
        lemma_member_index(tail, name);
        assert forall|i: int| 0 <= i < member_index(members, name) implies (#[trigger] members[i]).0 != name by {
            if i > 0 {
                assert(tail[i - 1].0 != name);
            }
        }
    }
}

/// What the first member of the name `name` holds, if there is one.
pub fn member<'a>(members: &'a Vec<(String, JsonField)>, name: &str) -> (field: Option<&'a JsonField>)
    ensures
        match field {
            Some(found) => member_of(members_of(members@), name@) == Some(found@),
            None => member_of(members_of(members@), name@) is None,
        },
{
    let ghost model = members_of(members@);
    let mut i: usize = 0;
    while i < members.len()
        invariant
            i <= members.len(),
            model == members_of(members@),
            forall|j: int| 0 <= j < i ==> (#[trigger] model[j]).0 != name@,
        decreases members.len() - i,
    {
        if equal(members[i].0.as_str(), name) {
            proof {
                lemma_member_index(model, name@);
                assert(model[i as int].0 == name@);
            }
            return Some(&members[i].1);
        }
        i += 1;
    }
    proof {
        lemma_member_index(model, name@);
    }
    None
}

} // verus!
