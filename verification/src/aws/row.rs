//! What the rows of counters and queues share: the key of a row, its
//! numbers, the condition on its version, and what a refused write means.

use crate::aws::body_reports;
use crate::aws::error::{ErrorKind, ErrorModel, ServiceError, ServiceModel};
use crate::aws::item::{AttributeModel, AttributeValue, DeleteItemInput, GetItemInput, Item, ItemModel};
use crate::aws::number::{decimal, parse_decimal, parsed, to_decimal};
use crate::aws::call::Call;
use crate::aws::reports;
use crate::time::Jitter;
use vstd::prelude::*;
use vstd::string::*;

verus! {

/// The string `text` as an attribute.
pub open spec fn string_model(text: Seq<char>) -> AttributeModel {
    AttributeModel { s: Some(text), n: None, ss: None }
}

/// The number `number` as an attribute: in decimal digits.
pub open spec fn number_model(number: u64) -> AttributeModel {
    AttributeModel { s: None, n: Some(decimal(number as nat)), ss: None }
}

/// The set of the strings `texts` as an attribute.
pub open spec fn string_set_model(texts: Seq<Seq<char>>) -> AttributeModel {
    AttributeModel { s: None, n: None, ss: Some(texts) }
}

/// The key of the row `id`: its name under `ID`.
pub open spec fn key_model(id: Seq<char>) -> ItemModel {
    Map::<Seq<char>, AttributeModel>::empty().insert("ID"@, string_model(id))
}

/// The condition of every write: the row must have the version that was
/// read, or no version, as a row has that is not there yet.
pub open spec fn version_condition() -> Seq<char> {
    "Version = :version OR attribute_not_exists(Version)"@
}

/// The values that the condition names: the version that was read.
pub open spec fn condition_values(version: u64) -> ItemModel {
    Map::<Seq<char>, AttributeModel>::empty().insert(":version"@, number_model(version))
}

/// The attributes that every row holds: its name, the version after the
/// write, its kind and its value.
pub open spec fn row_model(id: Seq<char>, kind: Seq<char>, version: u64, value: u64) -> ItemModel {
    Map::<Seq<char>, AttributeModel>::empty().insert("ID"@, string_model(id)).insert(
        "Version"@,
        number_model(version),
    ).insert("Type"@, string_model(kind)).insert("Value"@, number_model(value))
}

/// The string that an attribute holds; `MissingAttribute` where it holds
/// none.
pub open spec fn text_in(value: AttributeModel) -> Result<Seq<char>, ErrorModel> {
    match value.s {
        Some(text) => Ok(text),
        None => Err(ErrorModel::MissingAttribute),
    }
}

/// The number that an attribute holds; `MissingAttribute` where it holds
/// none, `ParseError` where its digits cannot be read.
pub open spec fn number_in(value: AttributeModel) -> Result<u64, ErrorModel> {
    match value.n {
        Some(digits) => match parsed(digits) {
            Ok(number) => Ok(number),
            Err(kind) => Err(ErrorModel::ParseError(kind)),
        },
        None => Err(ErrorModel::MissingAttribute),
    }
}

/// What stands in the way of reading an item as a row of the kind `kind`,
/// before its own attributes are read: `Type` must hold the kind, and `ID`,
/// `Version` and `Value` must be there. `other_kind` is the error for a row
/// of another kind.
pub open spec fn row_refused(item: ItemModel, kind: Seq<char>, other_kind: ErrorModel) -> Option<ErrorModel> {
    if !item.contains_key("Type"@) {
        Some(ErrorModel::MissingAttribute)
    } else if item["Type"@].s is None {
        Some(ErrorModel::MissingAttribute)
    } else if item["Type"@].s != Some(kind) {
        Some(other_kind)
    } else if !item.contains_key("ID"@) || !item.contains_key("Version"@) || !item.contains_key("Value"@) {
        Some(ErrorModel::MissingAttribute)
    } else {
        None
    }
}

/// What stands in the way of reading the name, the version and the value of
/// a row, in this order.
pub open spec fn numbers_refused(item: ItemModel) -> Option<ErrorModel> {
    if text_in(item["ID"@]) is Err {
        Some(text_in(item["ID"@])->Err_0)
    } else if number_in(item["Version"@]) is Err {
        Some(number_in(item["Version"@])->Err_0)
    } else if number_in(item["Value"@]) is Err {
        Some(number_in(item["Value"@])->Err_0)
    } else {
        None
    }
}

/// The string `text` as an attribute.
pub fn string_value(text: &str) -> (value: AttributeValue)
    ensures
        value@ == string_model(text@),
{
    AttributeValue::string(text.to_owned())
}

/// The number `number` as an attribute.
pub fn number_value(number: u64) -> (value: AttributeValue)
    ensures
        value@ == number_model(number),
{
    AttributeValue::number(to_decimal(number))
}

/// The string that `value` holds.
pub fn read_text(value: &AttributeValue) -> (text: Result<String, ErrorKind>)
    ensures
        match text {
            Ok(found) => text_in(value@) == Ok::<Seq<char>, ErrorModel>(found@),
            Err(error) => text_in(value@) == Err::<Seq<char>, ErrorModel>(error@),
        },
{
    match &value.s {
        Some(text) => Ok(text.clone()),
        None => Err(ErrorKind::MissingAttribute),
    }
}

/// The number that `value` holds.
pub fn read_number(value: &AttributeValue) -> (number: Result<u64, ErrorKind>)
    ensures
        match number {
            Ok(found) => number_in(value@) == Ok::<u64, ErrorModel>(found),
            Err(error) => number_in(value@) == Err::<u64, ErrorModel>(error@),
        },
{
    match &value.n {
        Some(digits) => match parse_decimal(digits.as_str()) {
            Ok(number) => Ok(number),
            Err(kind) => Err(ErrorKind::ParseError(kind)),
        },
        None => Err(ErrorKind::MissingAttribute),
    }
}

/// The key of the row `id`.
pub fn key_of(id: &str) -> (key: Item)
    ensures
        key@ == key_model(id@),
{
    let mut key = Item::new();
    key.insert("ID".to_owned(), string_value(id));
    key
}

/// What is handed to the table to get the row `id`.
pub fn get_input(table_name: &str, id: &str, consistent_read: bool) -> (input: GetItemInput)
    ensures
        input.consistent_read == Some(consistent_read),
        input.key@ == key_model(id@),
        input.table_name@ == table_name@,
{
    GetItemInput { consistent_read: Some(consistent_read), key: key_of(id), table_name: table_name.to_owned() }
}

/// What is handed to the table to delete the row `id`, whatever it holds.
pub fn delete_input(table_name: &str, id: &str) -> (input: DeleteItemInput)
    ensures
        input.key@ == key_model(id@),
        input.table_name@ == table_name@,
{
    DeleteItemInput { key: key_of(id), table_name: table_name.to_owned() }
}

/// What the answer to a delete means: done, or the failure as it is. A row
/// that was not there is deleted as well as one that was.
pub fn removed(outcome: Result<(), ServiceError>) -> (result: Result<(), ErrorKind>)
    ensures
        match outcome {
            Ok(()) => result is Ok,
            Err(failure) => result matches Err(error) && error@ == ErrorModel::DeleteItem(failure@),
        },
{
    match outcome {
        Ok(()) => Ok(()),
        Err(failure) => Err(ErrorKind::DeleteItem(failure)),
    }
}

/// The attributes that every row holds.
pub fn row_attributes(id: &str, kind: &str, version: u64, value: u64) -> (item: Item)
    ensures
        item@ == row_model(id@, kind@, version, value),
{
    let mut item = Item::new();
    item.insert("ID".to_owned(), string_value(id));
    item.insert("Version".to_owned(), number_value(version));
    item.insert("Type".to_owned(), string_value(kind));
    item.insert("Value".to_owned(), number_value(value));
    item
}

/// The condition of every write.
pub fn condition() -> (expression: String)
    ensures
        expression@ == version_condition(),
{
    "Version = :version OR attribute_not_exists(Version)".to_owned()
}

/// The values that the condition names.
pub fn condition_attributes(version: u64) -> (values: Item)
    ensures
        values@ == condition_values(version),
{
    let mut values = Item::new();
    values.insert(":version".to_owned(), number_value(version));
    values
}

/// The table refused a write because the row is not as it was read: the
/// failure is an unrecognised one, and the body of the answer reports an
/// error whose words begin with "The conditional request failed".
pub open spec fn is_conditional_failure(failure: ServiceModel) -> bool {
    match failure {
        ServiceModel::Unknown(body) => reports(body, "The conditional request failed"@),
        ServiceModel::Other(_) => false,
    }
}

/// What a failed write means: `ConditionalUpdateFailed` where the row is not
/// as it was read, the failure itself otherwise.
pub open spec fn put_failure_model(failure: ServiceModel) -> ErrorModel {
    if is_conditional_failure(failure) {
        ErrorModel::ConditionalUpdateFailed
    } else {
        ErrorModel::PutItem(failure)
    }
}

/// What a failed write means.
pub fn put_failure(failure: ServiceError) -> (error: ErrorKind)
    ensures
        error@ == put_failure_model(failure@),
{
    let conditional = match &failure {
        ServiceError::Unknown(body) => body_reports(body.as_str(), "The conditional request failed"),
        ServiceError::Other(_) => false,
    };
    if conditional {
        ErrorKind::ConditionalUpdateFailed
    } else {
        ErrorKind::PutItem(failure)
    }
}

/// What follows the answer to a write.
#[derive(Debug, PartialEq, Eq)]
pub enum PutVerdict {
    /// The row was written.
    Written,
    /// The row was not as it was read: the operation waits for this many
    /// milliseconds and begins again with a read.
    Retry(u64),
    /// Any other failure ends the operation.
    Failed(ErrorKind),
}

/// `call` asks for a wait of `retry_time` milliseconds and a share on top
/// that is less than `jitter_millis`.
pub open spec fn asks_wait(call: Option<Call>, retry_time: u64, jitter_millis: u64) -> bool {
    call matches Some(Call::Sleep(millis)) && retry_time <= millis < retry_time + jitter_millis
}

/// `call` asks for a read of the row `id` of the table `table_name`.
pub open spec fn asks_read(call: Option<Call>, table_name: Seq<char>, id: Seq<char>, consistent_read: bool) -> bool {
    call matches Some(Call::GetItem(input)) && input.consistent_read == Some(consistent_read) && input.key@
        == key_model(id) && input.table_name@ == table_name
}

/// What follows the answer to a write: a row that was not as it was read is
/// written again after the retry time and its jitter. How long the jitter
/// is, is a matter of chance.
pub fn after_put(outcome: Result<(), ServiceError>, retry_time: u64, jitter_millis: u64) -> (verdict: PutVerdict)
    requires
        jitter_millis > 0,
        retry_time + jitter_millis <= u64::MAX,
    ensures
        match outcome {
            Ok(()) => verdict is Written,
            Err(failure) => if is_conditional_failure(failure@) {
                verdict matches PutVerdict::Retry(millis) && retry_time <= millis < retry_time + jitter_millis
            } else {
                verdict matches PutVerdict::Failed(error) && error@ == ErrorModel::PutItem(failure@)
            },
        },
{
    match outcome {
        Ok(()) => PutVerdict::Written,
        Err(failure) => match put_failure(failure) {
            ErrorKind::ConditionalUpdateFailed => PutVerdict::Retry(retry_time.jitter(jitter_millis)),
            error => PutVerdict::Failed(error),
        },
    }
}

} // verus!
