//! The engine that keeps a counter or a queue in one row of a table with
//! conditional writes.

use crate::aws::json::{json_members, member, member_of, members, FieldModel, JsonField};
use crate::string::starts_with;
use vstd::prelude::*;

pub mod call;
pub mod counter;
pub mod dynamodb;
pub mod error;
pub mod item;
pub mod json;
pub mod number;
pub mod protocol;
pub mod queue;
pub mod row;

verus! {

/// An error as the table reports it, by its characters.
pub struct AWSErrorModel {
    pub typ: Seq<char>,
    pub message: Seq<char>,
}

/// An error as the table reports it in the body of its answer: a JSON object
/// with the kind of the error under `__type` and its words under `message`.
#[derive(Debug, Clone, PartialEq, Eq)]
pub struct AWSError {
    pub typ: String,
    pub message: String,
}

impl View for AWSError {
    type V = AWSErrorModel;

    open spec fn view(&self) -> AWSErrorModel {
        AWSErrorModel { typ: self.typ@, message: self.message@ }
    }
}

/// The error that the members of a JSON object report: both `__type` and
/// `message` must be there and hold strings.
pub open spec fn reported_by(members: Seq<(Seq<char>, FieldModel)>) -> Option<AWSErrorModel> {
    match (member_of(members, "__type"@), member_of(members, "message"@)) {
        (Some(FieldModel::Text(typ)), Some(FieldModel::Text(message))) => Some(AWSErrorModel { typ, message }),
        _ => None,
    }
}

/// The error that the body `body` of an answer reports, if it reports one.
pub open spec fn reported_in(body: Seq<char>) -> Option<AWSErrorModel> {
    match json_members(body) {
        Some(members) => reported_by(members),
        None => None,
    }
}

/// The body `body` reports an error whose words begin with `prefix`.
pub open spec fn reports(body: Seq<char>, prefix: Seq<char>) -> bool {
    match reported_in(body) {
        Some(reported) => prefix.is_prefix_of(reported.message),
        None => false,
    }
}

impl AWSError {
    /// The error that the members of a JSON object report, if they report
    /// one.
    pub fn from_members(members: &Vec<(String, JsonField)>) -> (reported: Option<AWSError>)
        ensures
            match reported {
                Some(error) => reported_by(crate::aws::json::members_of(members@)) == Some(error@),
                None => reported_by(crate::aws::json::members_of(members@)) is None,
            },
    {
        let typ = match member(members, "__type") {
            Some(JsonField::Text(text)) => text.clone(),
            _ => {
                return None;
            },
        };
        let message = match member(members, "message") {
            Some(JsonField::Text(text)) => text.clone(),
            _ => {
                return None;
            },
        };
        Some(AWSError { typ, message })
    }

    /// The error that the body of an answer reports, if it reports one.
    pub fn from_body(body: &str) -> (reported: Option<AWSError>)
        ensures
            match reported {
                Some(error) => reported_in(body@) == Some(error@),
                None => reported_in(body@) is None,
            },
    {
        match members(body) {
            Ok(found) => AWSError::from_members(&found),
            Err(_) => None,
        }
    }

    /// Whether the words of the error begin with `prefix`.
    pub fn begins_with(&self, prefix: &str) -> (begins: bool)
        ensures
            begins == prefix@.is_prefix_of(self.message@),
    {
        starts_with(self.message.as_str(), prefix)
    }
}

/// Whether the body of an answer reports an error whose words begin with
/// `prefix`.
pub fn body_reports(body: &str, prefix: &str) -> (found: bool)
    ensures
        found == reports(body@, prefix@),
{
    match AWSError::from_body(body) {
        Some(reported) => reported.begins_with(prefix),
        None => false,
    }
}

} // verus!
