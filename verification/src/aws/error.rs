//! The errors of the engine that keeps its state in a table.

use crate::aws::number::ParseIntError;
use vstd::prelude::*;
use vstd::string::*;

verus! {

/// A failed call of the table, by its characters.
pub enum ServiceModel {
    Unknown(Seq<char>),
    Other(Seq<char>),
}

/// A failed call of the table.
#[derive(Debug, Clone, PartialEq, Eq)]
pub enum ServiceError {
    /// A failure that the client did not recognise, with the body of the
    /// table's answer.
    Unknown(String),
    /// Any other failure, in the client's words.
    Other(String),
}

impl View for ServiceError {
    type V = ServiceModel;

    open spec fn view(&self) -> ServiceModel {
        match self {
            ServiceError::Unknown(body) => ServiceModel::Unknown(body@),
            ServiceError::Other(words) => ServiceModel::Other(words@),
        }
    }
}

/// An error by its characters. A JSON error is one, whatever its wording.
pub enum ErrorModel {
    NoTableInfo,
    TableAlreadyExists(Seq<char>),
    TableNotFound(Seq<char>),
    ConditionalUpdateFailed,
    UnrecognisedCounterType,
    UnrecognisedQueueType,
    MissingAttribute,
    TicketNotFound(Seq<char>),
    Overflow,
    UnexpectedEvent,
    ParseError(ParseIntError),
    Json,
    DescribeTable(ServiceModel),
    ListTables(ServiceModel),
    CreateTable(ServiceModel),
    GetItem(ServiceModel),
    PutItem(ServiceModel),
    DeleteItem(ServiceModel),
}

#[derive(Debug, Clone, PartialEq, Eq)]
pub enum ErrorKind {
    /// The table answered without a description of itself.
    NoTableInfo,
    TableAlreadyExists(String),
    TableNotFound(String),
    /// The row was changed by someone else since it was read.
    ConditionalUpdateFailed,
    /// The row under the counter's name is no counter.
    UnrecognisedCounterType,
    /// The row under the queue's name is no queue.
    UnrecognisedQueueType,
    /// The row lacks an attribute, or holds it in another form.
    MissingAttribute,
    /// No ticket is held by the process of this name.
    TicketNotFound(String),
    /// The next value or version does not fit in 64 bits.
    Overflow,
    /// An operation was handed an event that does not answer the call it had
    /// asked for.
    UnexpectedEvent,
    /// A number of the row cannot be read.
    ParseError(ParseIntError),
    /// A participant of the row cannot be read or written as JSON; the words
    /// say why.
    Json(String),
    DescribeTable(ServiceError),
    ListTables(ServiceError),
    CreateTable(ServiceError),
    GetItem(ServiceError),
    PutItem(ServiceError),
    DeleteItem(ServiceError),
}

impl View for ErrorKind {
    type V = ErrorModel;

    open spec fn view(&self) -> ErrorModel {
        match self {
            ErrorKind::NoTableInfo => ErrorModel::NoTableInfo,
            ErrorKind::TableAlreadyExists(table) => ErrorModel::TableAlreadyExists(table@),
            ErrorKind::TableNotFound(table) => ErrorModel::TableNotFound(table@),
            ErrorKind::ConditionalUpdateFailed => ErrorModel::ConditionalUpdateFailed,
            ErrorKind::UnrecognisedCounterType => ErrorModel::UnrecognisedCounterType,
            ErrorKind::UnrecognisedQueueType => ErrorModel::UnrecognisedQueueType,
            ErrorKind::MissingAttribute => ErrorModel::MissingAttribute,
            ErrorKind::TicketNotFound(process_id) => ErrorModel::TicketNotFound(process_id@),
            ErrorKind::Overflow => ErrorModel::Overflow,
            ErrorKind::UnexpectedEvent => ErrorModel::UnexpectedEvent,
            ErrorKind::ParseError(kind) => ErrorModel::ParseError(*kind),
            ErrorKind::Json(_) => ErrorModel::Json,
            ErrorKind::DescribeTable(failure) => ErrorModel::DescribeTable(failure@),
            ErrorKind::ListTables(failure) => ErrorModel::ListTables(failure@),
            ErrorKind::CreateTable(failure) => ErrorModel::CreateTable(failure@),
            ErrorKind::GetItem(failure) => ErrorModel::GetItem(failure@),
            ErrorKind::PutItem(failure) => ErrorModel::PutItem(failure@),
            ErrorKind::DeleteItem(failure) => ErrorModel::DeleteItem(failure@),
        }
    }
}

/// `head` followed by `tail`.
fn joined_text(head: &str, tail: &str) -> (text: String)
    ensures
        text@ == head@ + tail@,
{
    let mut text = head.to_owned();
    text.append(tail);
    text
}

impl ServiceError {
    /// The body or the words of the failure.
    pub fn message(&self) -> (text: String)
        ensures
            text@ == match self {
                ServiceError::Unknown(body) => body@,
                ServiceError::Other(words) => words@,
            },
    {
        match self {
            ServiceError::Unknown(body) => body.clone(),
            ServiceError::Other(words) => words.clone(),
        }
    }
}

impl ErrorKind {
    /// The error in words.
    pub fn message(&self) -> (text: String)
        ensures
            text@ == match self {
                ErrorKind::NoTableInfo => "no table info returned"@,
                ErrorKind::TableAlreadyExists(table) => "table already exists: "@ + table@,
                ErrorKind::TableNotFound(table) => "table not found: "@ + table@,
                ErrorKind::ConditionalUpdateFailed => "conditional update failed"@,
                ErrorKind::UnrecognisedCounterType => "unrecognised counter type"@,
                ErrorKind::UnrecognisedQueueType => "unrecognised queue type"@,
                ErrorKind::MissingAttribute => "missing attribute"@,
                ErrorKind::TicketNotFound(process_id) => "ticket not found for process_id "@ + process_id@,
                ErrorKind::Overflow => "the next value does not fit in 64 bits"@,
                ErrorKind::UnexpectedEvent => "the event does not answer the call"@,
                ErrorKind::ParseError(ParseIntError::Empty) => "cannot parse integer from empty string"@,
                ErrorKind::ParseError(ParseIntError::InvalidDigit) => "invalid digit found in string"@,
                ErrorKind::ParseError(ParseIntError::PosOverflow) => "number too large to fit in target type"@,
                ErrorKind::Json(words) => words@,
                ErrorKind::DescribeTable(ServiceError::Unknown(text)) => text@,
                ErrorKind::DescribeTable(ServiceError::Other(text)) => text@,
                ErrorKind::ListTables(ServiceError::Unknown(text)) => text@,
                ErrorKind::ListTables(ServiceError::Other(text)) => text@,
                ErrorKind::CreateTable(ServiceError::Unknown(text)) => text@,
                ErrorKind::CreateTable(ServiceError::Other(text)) => text@,
                ErrorKind::GetItem(ServiceError::Unknown(text)) => text@,
                ErrorKind::GetItem(ServiceError::Other(text)) => text@,
                ErrorKind::PutItem(ServiceError::Unknown(text)) => text@,
                ErrorKind::PutItem(ServiceError::Other(text)) => text@,
                ErrorKind::DeleteItem(ServiceError::Unknown(text)) => text@,
                ErrorKind::DeleteItem(ServiceError::Other(text)) => text@,
            },
    {
        match self {
            ErrorKind::NoTableInfo => "no table info returned".to_owned(),
            ErrorKind::TableAlreadyExists(table) => joined_text("table already exists: ", table.as_str()),
            ErrorKind::TableNotFound(table) => joined_text("table not found: ", table.as_str()),
            ErrorKind::ConditionalUpdateFailed => "conditional update failed".to_owned(),
            ErrorKind::UnrecognisedCounterType => "unrecognised counter type".to_owned(),
            ErrorKind::UnrecognisedQueueType => "unrecognised queue type".to_owned(),
            ErrorKind::MissingAttribute => "missing attribute".to_owned(),
            ErrorKind::TicketNotFound(process_id) => joined_text(
                "ticket not found for process_id ",
                process_id.as_str(),
            ),
            ErrorKind::Overflow => "the next value does not fit in 64 bits".to_owned(),
            ErrorKind::UnexpectedEvent => "the event does not answer the call".to_owned(),
            ErrorKind::ParseError(ParseIntError::Empty) => "cannot parse integer from empty string".to_owned(),
            ErrorKind::ParseError(ParseIntError::InvalidDigit) => "invalid digit found in string".to_owned(),
            ErrorKind::ParseError(ParseIntError::PosOverflow) => "number too large to fit in target type".to_owned(),
            ErrorKind::Json(words) => words.clone(),
            ErrorKind::DescribeTable(failure) => failure.message(),
            ErrorKind::ListTables(failure) => failure.message(),
            ErrorKind::CreateTable(failure) => failure.message(),
            ErrorKind::GetItem(failure) => failure.message(),
            ErrorKind::PutItem(failure) => failure.message(),
            ErrorKind::DeleteItem(failure) => failure.message(),
        }
    }
}

} // verus!
