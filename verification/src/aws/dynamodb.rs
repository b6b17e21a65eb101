//! The table itself: which tables there are, whether the table of the
//! counters is there and ready, and making it where it is not.

use crate::aws::call::{Call, Event};
use crate::aws::error::{ErrorKind, ErrorModel, ServiceError, ServiceModel};
use crate::aws::{body_reports, reports};
use crate::string::equal;
use vstd::prelude::*;
use vstd::string::*;

verus! {

/// What the table says of itself, as far as it is read here.
#[derive(Debug, Clone, PartialEq, Eq)]
pub struct TableDescription {
    pub table_name: Option<String>,
    /// `ACTIVE` where the table is ready.
    pub table_status: Option<String>,
}

/// What is handed to the service to ask for the description of a table.
#[derive(Debug, Clone, PartialEq, Eq)]
pub struct DescribeTableInput {
    pub table_name: String,
}

/// The reads and writes per second that a table is made for.
#[derive(Debug, Clone, PartialEq, Eq)]
pub struct ProvisionedThroughput {
    pub read_capacity_units: i64,
    pub write_capacity_units: i64,
}

/// The name and the type of an attribute of the key.
#[derive(Debug, Clone, PartialEq, Eq)]
pub struct AttributeDefinition {
    pub attribute_name: String,
    pub attribute_type: String,
}

/// The part that an attribute has in the key.
#[derive(Debug, Clone, PartialEq, Eq)]
pub struct KeySchemaElement {
    pub attribute_name: String,
    pub key_type: String,
}

/// What is handed to the service to create a table.
#[derive(Debug, Clone, PartialEq, Eq)]
pub struct CreateTableInput {
    pub table_name: String,
    pub provisioned_throughput: ProvisionedThroughput,
    pub attribute_definitions: Vec<AttributeDefinition>,
    pub key_schema: Vec<KeySchemaElement>,
}

/// `input` asks for a table of the name `name` whose key is the string
/// attribute `ID`, hashed, made for the given reads and writes per second.
pub open spec fn creates_table(input: CreateTableInput, name: Seq<char>, read_capacity: i64, write_capacity: i64) -> bool {
    &&& input.table_name@ == name
    &&& input.provisioned_throughput.read_capacity_units == read_capacity
    &&& input.provisioned_throughput.write_capacity_units == write_capacity
    &&& input.attribute_definitions@.len() == 1
    &&& input.attribute_definitions@[0].attribute_name@ == "ID"@
    &&& input.attribute_definitions@[0].attribute_type@ == "S"@
    &&& input.key_schema@.len() == 1
    &&& input.key_schema@[0].attribute_name@ == "ID"@
    &&& input.key_schema@[0].key_type@ == "HASH"@
}

/// The names of the tables, from the answer of the service: none where the
/// answer held no list.
pub fn list_tables(outcome: Result<Option<Vec<String>>, ServiceError>) -> (names: Result<Vec<String>, ErrorKind>)
    ensures
        match outcome {
            Ok(Some(listed)) => names == Ok::<Vec<String>, ErrorKind>(listed),
            Ok(None) => names matches Ok(listed) && listed@.len() == 0,
            Err(failure) => names matches Err(error) && error@ == ErrorModel::ListTables(failure@),
        },
{
    match outcome {
        Ok(Some(listed)) => Ok(listed),
        Ok(None) => Ok(Vec::new()),
        Err(failure) => Err(ErrorKind::ListTables(failure)),
    }
}

/// What is handed to the service to ask for the description of the table
/// `name`.
pub fn describe_table_input(name: &str) -> (input: DescribeTableInput)
    ensures
        input.table_name@ == name@,
{
    DescribeTableInput { table_name: name.to_owned() }
}

/// The service failed in a way it did not name, and the body of its answer
/// reports an error whose words begin with `prefix`.
pub open spec fn failure_reports(failure: ServiceModel, prefix: Seq<char>) -> bool {
    match failure {
        ServiceModel::Unknown(body) => reports(body, prefix),
        ServiceModel::Other(_) => false,
    }
}

/// Whether the service failed in a way it did not name, and the body of its
/// answer reports an error whose words begin with `prefix`.
pub fn failure_begins_with(failure: &ServiceError, prefix: &str) -> (found: bool)
    ensures
        found == failure_reports(failure@, prefix@),
{
    match failure {
        ServiceError::Unknown(body) => body_reports(body.as_str(), prefix),
        ServiceError::Other(_) => false,
    }
}

/// What the answer to a request for the description of the table `name`
/// means: the description; `TableNotFound` where the service reports that
/// the table is not there; `NoTableInfo` where the answer holds no
/// description; any other failure as it is.
pub open spec fn described(name: Seq<char>, outcome: Result<Option<TableDescription>, ServiceError>) -> Result<
    TableDescription,
    ErrorModel,
> {
    match outcome {
        Ok(Some(description)) => Ok(description),
        Ok(None) => Err(ErrorModel::NoTableInfo),
        Err(failure) => if failure_reports(failure@, "Requested resource not found: Table:"@) {
            Err(ErrorModel::TableNotFound(name))
        } else {
            Err(ErrorModel::DescribeTable(failure@))
        },
    }
}

/// What the answer to a request for the description of the table `name`
/// means.
pub fn describe_table(name: &str, outcome: Result<Option<TableDescription>, ServiceError>) -> (result: Result<
    TableDescription,
    ErrorKind,
>)
    ensures
        match result {
            Ok(description) => described(name@, outcome) == Ok::<TableDescription, ErrorModel>(description),
            Err(error) => described(name@, outcome) == Err::<TableDescription, ErrorModel>(error@),
        },
{
    match outcome {
        Ok(Some(description)) => Ok(description),
        Ok(None) => Err(ErrorKind::NoTableInfo),
        Err(failure) => {
            if failure_begins_with(&failure, "Requested resource not found: Table:") {
                Err(ErrorKind::TableNotFound(name.to_owned()))
            } else {
                Err(ErrorKind::DescribeTable(failure))
            }
        },
    }
}

/// What is handed to the service to create the table `name`: its key is the
/// string attribute `ID`.
pub fn create_table_input(name: &str, read_capacity: i64, write_capacity: i64) -> (input: CreateTableInput)
    ensures
        creates_table(input, name@, read_capacity, write_capacity),
{
    let mut attribute_definitions: Vec<AttributeDefinition> = Vec::new();
    attribute_definitions.push(
        AttributeDefinition { attribute_name: "ID".to_owned(), attribute_type: "S".to_owned() },
    );
    let mut key_schema: Vec<KeySchemaElement> = Vec::new();
    key_schema.push(KeySchemaElement { attribute_name: "ID".to_owned(), key_type: "HASH".to_owned() });
    CreateTableInput {
        table_name: name.to_owned(),
        provisioned_throughput: ProvisionedThroughput {
            read_capacity_units: read_capacity,
            write_capacity_units: write_capacity,
        },
        attribute_definitions,
        key_schema,
    }
}

/// What the answer to a request to create the table `name` means: done;
/// `TableAlreadyExists` where the service reports that; `NoTableInfo` where
/// the answer holds no description; any other failure as it is.
pub open spec fn created(name: Seq<char>, outcome: Result<Option<TableDescription>, ServiceError>) -> Result<
    (),
    ErrorModel,
> {
    match outcome {
        Ok(Some(_)) => Ok(()),
        Ok(None) => Err(ErrorModel::NoTableInfo),
        Err(failure) => if failure_reports(failure@, "Table already exists:"@) {
            Err(ErrorModel::TableAlreadyExists(name))
        } else {
            Err(ErrorModel::CreateTable(failure@))
        },
    }
}

/// What the answer to a request to create the table `name` means.
pub fn create_table(name: &str, outcome: Result<Option<TableDescription>, ServiceError>) -> (result: Result<
    (),
    ErrorKind,
>)
    ensures
        match result {
            Ok(()) => created(name@, outcome) == Ok::<(), ErrorModel>(()),
            Err(error) => created(name@, outcome) == Err::<(), ErrorModel>(error@),
        },
{
    match outcome {
        Ok(Some(_)) => Ok(()),
        Ok(None) => Err(ErrorKind::NoTableInfo),
        Err(failure) => {
            if failure_begins_with(&failure, "Table already exists:") {
                Err(ErrorKind::TableAlreadyExists(name.to_owned()))
            } else {
                Err(ErrorKind::CreateTable(failure))
            }
        },
    }
}

/// `call` asks for the description of the table `name`.
pub open spec fn asks_description(call: Option<Call>, name: Seq<char>) -> bool {
    call matches Some(Call::DescribeTable(input)) && input.table_name@ == name
}

/// Where making sure that a table is there stands.
#[derive(Debug, PartialEq, Eq)]
pub enum Provision {
    /// Nothing was asked yet.
    Start,
    /// The description of the table was asked for.
    Describing,
    /// The table was not there, and its creation was asked for.
    Creating,
    /// The table is there, with its description; or the error that ended the
    /// attempt.
    Done(Result<TableDescription, ErrorKind>),
}

/// One step of making sure that the table `name` is there. The description
/// is asked for; where the table is not found, it is created and the
/// description is asked for again, also where someone else created it in
/// between. Any other error ends the attempt. A state that is `Done` stays;
/// an event that does not answer the call that was asked for ends the attempt
/// with `UnexpectedEvent`.
pub fn create_table_if_needed(
    name: &str,
    read_capacity: i64,
    write_capacity: i64,
    state: Provision,
    event: Event,
) -> (next: (Provision, Option<Call>))
    ensures
        next.1 is None <==> next.0 is Done,
        match (state, event) {
            (Provision::Done(result), _) => next.0 == state,
            (Provision::Start, Event::Begin) => next.0 is Describing && asks_description(next.1, name@),
            (Provision::Describing, Event::Described(outcome)) => match described(name@, outcome) {
                Ok(description) => next.0 == Provision::Done(Ok(description)),
                Err(ErrorModel::TableNotFound(_)) => next.0 is Creating && (next.1 matches Some(
                    Call::CreateTable(input),
                ) && creates_table(input, name@, read_capacity, write_capacity)),
                Err(error) => next.0 matches Provision::Done(Err(found)) && found@ == error,
            },
            (Provision::Creating, Event::Created(outcome)) => match created(name@, outcome) {
                Ok(()) => next.0 is Describing && asks_description(next.1, name@),
                Err(ErrorModel::TableAlreadyExists(_)) => next.0 is Describing && asks_description(next.1, name@),
                Err(error) => next.0 matches Provision::Done(Err(found)) && found@ == error,
            },
            _ => next.0 matches Provision::Done(Err(found)) && found@ == ErrorModel::UnexpectedEvent,
        },
{
    match (state, event) {
        (Provision::Done(result), _) => (Provision::Done(result), None),
        (Provision::Start, Event::Begin) => (
            Provision::Describing,
            Some(Call::DescribeTable(describe_table_input(name))),
        ),
        (Provision::Describing, Event::Described(outcome)) => match describe_table(name, outcome) {
            Ok(description) => (Provision::Done(Ok(description)), None),
            Err(ErrorKind::TableNotFound(_)) => (
                Provision::Creating,
                Some(Call::CreateTable(create_table_input(name, read_capacity, write_capacity))),
            ),
            Err(error) => (Provision::Done(Err(error)), None),
        },
        (Provision::Creating, Event::Created(outcome)) => match create_table(name, outcome) {
            Ok(()) => (Provision::Describing, Some(Call::DescribeTable(describe_table_input(name)))),
            Err(ErrorKind::TableAlreadyExists(_)) => (
                Provision::Describing,
                Some(Call::DescribeTable(describe_table_input(name))),
            ),
            Err(error) => (Provision::Done(Err(error)), None),
        },
        _ => (Provision::Done(Err(ErrorKind::UnexpectedEvent)), None),
    }
}

/// The table is ready: its status is `ACTIVE`.
pub open spec fn is_active(description: TableDescription) -> bool {
    description.table_status matches Some(status) && status@ == "ACTIVE"@
}

/// Whether the table is ready.
pub fn table_is_active(description: &TableDescription) -> (active: bool)
    ensures
        active == is_active(*description),
{
    match &description.table_status {
        Some(status) => equal(status.as_str(), "ACTIVE"),
        None => false,
    }
}

/// Where waiting for a table to be ready stands.
#[derive(Debug, PartialEq, Eq)]
pub enum Wait {
    /// Nothing was asked yet.
    Start,
    /// The description of the table was asked for.
    Describing,
    /// The table was not ready, and a wait was asked for.
    Sleeping,
    /// The table is ready, with its description; or the error that ended the
    /// wait.
    Done(Result<TableDescription, ErrorKind>),
}

/// The time between two looks at the table's status, in milliseconds.
pub const POLL_MILLIS: u64 = 1000;

/// One step of waiting until the table `name` is ready. The description is
/// asked for once a second until the status is `ACTIVE`; an error ends the
/// wait. A state that is `Done` stays; an event that does not answer the call
/// that was asked for ends the wait with `UnexpectedEvent`.
pub fn wait_for_table(name: &str, state: Wait, event: Event) -> (next: (Wait, Option<Call>))
    ensures
        next.1 is None <==> next.0 is Done,
        match (state, event) {
            (Wait::Done(result), _) => next.0 == state,
            (Wait::Start, Event::Begin) => next.0 is Describing && asks_description(next.1, name@),
            (Wait::Describing, Event::Described(outcome)) => match described(name@, outcome) {
                Ok(description) => if is_active(description) {
                    next.0 == Wait::Done(Ok(description))
                } else {
                    next.0 is Sleeping && next.1 == Some(Call::Sleep(POLL_MILLIS))
                },
                Err(error) => next.0 matches Wait::Done(Err(found)) && found@ == error,
            },
            (Wait::Sleeping, Event::Slept) => next.0 is Describing && asks_description(next.1, name@),
            _ => next.0 matches Wait::Done(Err(found)) && found@ == ErrorModel::UnexpectedEvent,
        },
{
    match (state, event) {
        (Wait::Done(result), _) => (Wait::Done(result), None),
        (Wait::Start, Event::Begin) => (Wait::Describing, Some(Call::DescribeTable(describe_table_input(name)))),
        (Wait::Describing, Event::Described(outcome)) => match describe_table(name, outcome) {
            Ok(description) => {
                if table_is_active(&description) {
                    (Wait::Done(Ok(description)), None)
                } else {
                    (Wait::Sleeping, Some(Call::Sleep(POLL_MILLIS)))
                }
            },
            Err(error) => (Wait::Done(Err(error)), None),
        },
        (Wait::Sleeping, Event::Slept) => (Wait::Describing, Some(Call::DescribeTable(describe_table_input(name)))),
        _ => (Wait::Done(Err(ErrorKind::UnexpectedEvent)), None),
    }
}

} // verus!
