//! What an operation asks its caller to do between two of its decisions, and
//! what the caller hands back. An operation that needs the table is a
//! function from its state and the last event to its next state and the next
//! call; the caller makes the call and comes back with the event, until the
//! state holds the result and no call is asked for.

use crate::aws::dynamodb::{CreateTableInput, DescribeTableInput, TableDescription};
use crate::aws::error::ServiceError;
use crate::aws::item::{GetItemInput, Item, PutItemInput};
use vstd::prelude::*;

verus! {

/// What the caller is asked to do.
#[derive(Debug, PartialEq, Eq)]
pub enum Call {
    /// Read one item, and come back with `Event::Got`.
    GetItem(GetItemInput),
    /// Write one item on a condition, and come back with `Event::Put`.
    PutItem(PutItemInput),
    /// Ask for the description of a table, and come back with
    /// `Event::Described`.
    DescribeTable(DescribeTableInput),
    /// Create a table, and come back with `Event::Created`.
    CreateTable(CreateTableInput),
    /// Wait for this many milliseconds, and come back with `Event::Slept`.
    Sleep(u64),
}

/// What the caller hands back.
#[derive(Debug, PartialEq, Eq)]
pub enum Event {
    /// Nothing yet: the operation begins.
    Begin,
    /// The item that was read, `None` where there is none, or the failure of
    /// the read.
    Got(Result<Option<Item>, ServiceError>),
    /// The write was done, or its failure.
    Put(Result<(), ServiceError>),
    /// The description of the table, `None` where the answer held none, or
    /// the failure of the call.
    Described(Result<Option<TableDescription>, ServiceError>),
    /// The description of the table that was created, `None` where the
    /// answer held none, or the failure of the call.
    Created(Result<Option<TableDescription>, ServiceError>),
    /// The wait is over.
    Slept,
}

} // verus!
