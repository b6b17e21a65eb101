//! A counter in one row of the table: the row and its encoding, and the
//! decisions of each operation between two calls of the table.

use crate::aws::call::{Call, Event};
use crate::aws::error::{ErrorKind, ErrorModel, ServiceError};
use crate::aws::item::{DeleteItemInput, GetItemInput, Item, ItemModel, PutItemInput};
use crate::aws::row::{
    after_put, asks_read, asks_wait, condition, condition_attributes, condition_values, delete_input,
    get_input, is_conditional_failure, key_model, number_in, numbers_refused, read_number, read_text,
    row_attributes, row_model, row_refused, text_in, version_condition, PutVerdict,
};
use crate::string::equal;
use vstd::prelude::*;
use vstd::string::*;

verus! {

/// The kind of a counter's row.
pub const COUNTER_TYPE: &'static str = "COUNTER";

/// The row of a counter by its characters.
pub struct CounterRowModel {
    pub id: Seq<char>,
    pub version: u64,
    pub value: u64,
}

/// The row of a counter.
#[derive(Debug, Clone, PartialEq)]
pub struct CounterRow {
    pub id: String,
    /// The version that the table held when the row was read; 0 for a row
    /// that is not there yet.
    pub version: u64,
    /// The value handed out last; 0 where none was.
    pub value: u64,
}

impl View for CounterRow {
    type V = CounterRowModel;

    open spec fn view(&self) -> CounterRowModel {
        CounterRowModel { id: self.id@, version: self.version, value: self.value }
    }
}

impl CounterRow {
    /// The row of a counter that has handed out nothing.
    pub fn new(id: String) -> (row: CounterRow)
        ensures
            row@ == (CounterRowModel { id: id@, version: 0, value: 0 }),
    {
        CounterRow { id, version: 0, value: 0 }
    }
}

/// The row of a counter that an item stands for, or why it stands for none:
/// `Type` must hold `COUNTER`; `ID`, `Version` and `Value` must be there; then
/// the name must be a string and the version and the value numbers.
pub open spec fn counter_row_in(item: ItemModel) -> Result<CounterRowModel, ErrorModel> {
    if row_refused(item, COUNTER_TYPE@, ErrorModel::UnrecognisedCounterType) is Some {
        Err(row_refused(item, COUNTER_TYPE@, ErrorModel::UnrecognisedCounterType)->Some_0)
    } else if numbers_refused(item) is Some {
        Err(numbers_refused(item)->Some_0)
    } else {
        Ok(
            CounterRowModel {
                id: text_in(item["ID"@])->Ok_0,
                version: number_in(item["Version"@])->Ok_0,
                value: number_in(item["Value"@])->Ok_0,
            },
        )
    }
}

/// What a read of the table gives: the row, `None` where there is none, or
/// the error of the read.
pub open spec fn counter_row_read(outcome: Result<Option<Item>, ServiceError>) -> Result<
    Option<CounterRowModel>,
    ErrorModel,
> {
    match outcome {
        Err(failure) => Err(ErrorModel::GetItem(failure@)),
        Ok(None) => Ok(None),
        Ok(Some(item)) => match counter_row_in(item@) {
            Ok(row) => Ok(Some(row)),
            Err(error) => Err(error),
        },
    }
}

/// The value of the counter, from what a read of the table gave: 0 where
/// there is no row.
pub open spec fn value_read(outcome: Result<Option<Item>, ServiceError>) -> Result<u64, ErrorModel> {
    match counter_row_read(outcome) {
        Ok(Some(row)) => Ok(row.value),
        Ok(None) => Ok(0),
        Err(error) => Err(error),
    }
}

/// `put` writes the counter `id` with the value `value` and the version
/// after `version`, on the condition that the table holds `version`, or no
/// row.
pub open spec fn puts_counter(put: PutItemInput, table_name: Seq<char>, id: Seq<char>, version: u64, value: u64) -> bool {
    &&& put.item@ == row_model(id, COUNTER_TYPE@, (version + 1) as u64, value)
    &&& put.condition_expression matches Some(expression) && expression@ == version_condition()
    &&& put.expression_attribute_values matches Some(values) && values@ == condition_values(version)
    &&& put.table_name@ == table_name
}

/// A counter in the row `id` of the table `table_name`.
#[derive(Debug, Clone, PartialEq, Eq)]
pub struct Counter {
    pub table_name: String,
    pub id: String,
    /// The time to wait before a refused write is tried again, in
    /// milliseconds.
    pub retry_time: u64,
    /// The bound of the random share on top of `retry_time`, in
    /// milliseconds.
    pub jitter_millis: u64,
}

/// Where handing out the next value stands.
#[derive(Debug, PartialEq)]
pub enum NextValue {
    /// Nothing was asked yet.
    Start,
    /// The row was asked for.
    Reading,
    /// The write of this value was asked for.
    Writing(u64),
    /// The write was refused, and a wait was asked for.
    Sleeping,
    /// The value that was handed out, or the error that ended the operation.
    Done(Result<u64, ErrorKind>),
}

impl Counter {
    /// The waiting times can be computed: the jitter has a range to choose
    /// from, and the longest wait fits in 64 bits.
    pub open spec fn well_formed(&self) -> bool {
        self.jitter_millis > 0 && self.retry_time + self.jitter_millis <= u64::MAX
    }

    /// A counter in the row `id` of the table `table_name`, with 100
    /// milliseconds of jitter on top of `retry_time`.
    pub fn new(table_name: String, id: String, retry_time: u64) -> (counter: Counter)
        ensures
            counter.table_name == table_name,
            counter.id == id,
            counter.retry_time == retry_time,
            counter.jitter_millis == 100,
    {
        Counter { table_name, id, retry_time, jitter_millis: 100 }
    }

    /// What is handed to the table to delete the row, whatever it holds.
    pub fn remove(&self) -> (input: DeleteItemInput)
        ensures
            input.key@ == key_model(self.id@),
            input.table_name@ == self.table_name@,
    {
        delete_input(self.table_name.as_str(), self.id.as_str())
    }

    /// What is handed to the table to read the row, with strong consistency.
    pub fn read_input(&self) -> (input: GetItemInput)
        ensures
            input.consistent_read == Some(true),
            input.key@ == key_model(self.id@),
            input.table_name@ == self.table_name@,
    {
        get_input(self.table_name.as_str(), self.id.as_str(), true)
    }

    /// The row that an item stands for.
    pub fn decode(item: &Item) -> (row: Result<CounterRow, ErrorKind>)
        ensures
            match row {
                Ok(read) => counter_row_in(item@) == Ok::<CounterRowModel, ErrorModel>(read@),
                Err(error) => counter_row_in(item@) == Err::<CounterRowModel, ErrorModel>(error@),
            },
    {
        let kind = match item.get("Type") {
            Some(kind) => kind,
            None => {
                return Err(ErrorKind::MissingAttribute);
            },
        };
        let kind = match &kind.s {
            Some(kind) => kind,
            None => {
                return Err(ErrorKind::MissingAttribute);
            },
        };
        if !equal(kind.as_str(), COUNTER_TYPE) {
            return Err(ErrorKind::UnrecognisedCounterType);
        }
        let id = match item.get("ID") {
            Some(id) => id,
            None => {
                return Err(ErrorKind::MissingAttribute);
            },
        };
        let version = match item.get("Version") {
            Some(version) => version,
            None => {
                return Err(ErrorKind::MissingAttribute);
            },
        };
        let value = match item.get("Value") {
            Some(value) => value,
            None => {
                return Err(ErrorKind::MissingAttribute);
            },
        };
        let id = match read_text(id) {
            Ok(id) => id,
            Err(error) => {
                return Err(error);
            },
        };
        let version = match read_number(version) {
            Ok(version) => version,
            Err(error) => {
                return Err(error);
            },
        };
        let value = match read_number(value) {
            Ok(value) => value,
            Err(error) => {
                return Err(error);
            },
        };
        Ok(CounterRow { id, version, value })
    }

    /// What a read of the table gives: the row, `None` where there is none,
    /// or the error of the read.
    pub fn read(&self, outcome: Result<Option<Item>, ServiceError>) -> (row: Result<Option<CounterRow>, ErrorKind>)
        ensures
            match row {
                Ok(Some(read)) => counter_row_read(outcome) == Ok::<Option<CounterRowModel>, ErrorModel>(
                    Some(read@),
                ),
                Ok(None) => counter_row_read(outcome) == Ok::<Option<CounterRowModel>, ErrorModel>(None),
                Err(error) => counter_row_read(outcome) == Err::<Option<CounterRowModel>, ErrorModel>(error@),
            },
    {
        match outcome {
            Err(failure) => Err(ErrorKind::GetItem(failure)),
            Ok(None) => Ok(None),
            Ok(Some(item)) => match Counter::decode(&item) {
                Ok(row) => Ok(Some(row)),
                Err(error) => Err(error),
            },
        }
    }

    /// What is handed to the table to write `row`: the row with the version
    /// after the one that was read, on the condition that the table still
    /// holds the version that was read, or no row. `Overflow` where the next
    /// version does not fit in 64 bits.
    pub fn write(&self, row: &CounterRow) -> (input: Result<PutItemInput, ErrorKind>)
        ensures
            match input {
                Ok(put) => row.version < u64::MAX && puts_counter(
                    put,
                    self.table_name@,
                    self.id@,
                    row.version,
                    row.value,
                ),
                Err(error) => row.version == u64::MAX && error@ == ErrorModel::Overflow,
            },
    {
        if row.version == u64::MAX {
            return Err(ErrorKind::Overflow);
        }
        Ok(
            PutItemInput {
                item: row_attributes(self.id.as_str(), COUNTER_TYPE, row.version + 1, row.value),
                condition_expression: Some(condition()),
                expression_attribute_values: Some(condition_attributes(row.version)),
                table_name: self.table_name.clone(),
            },
        )
    }

    /// The value of the counter, from what a read of the table gave: 0 where
    /// there is no row.
    pub fn get_value(&self, outcome: Result<Option<Item>, ServiceError>) -> (value: Result<u64, ErrorKind>)
        ensures
            match value {
                Ok(found) => value_read(outcome) == Ok::<u64, ErrorModel>(found),
                Err(error) => value_read(outcome) == Err::<u64, ErrorModel>(error@),
            },
    {
        match self.read(outcome) {
            Ok(Some(row)) => Ok(row.value),
            Ok(None) => Ok(0),
            Err(error) => Err(error),
        }
    }

    /// What the step after a read comes to. An error of the read ends the
    /// operation, and so does a value or a version at the end of the 64-bit
    /// range, with `Overflow`. Else the write of the next value is asked for,
    /// on the condition that the row still has the version that was read; a
    /// row that is not there counts as one with version 0 and value 0.
    pub open spec fn after_read(
        &self,
        outcome: Result<Option<Item>, ServiceError>,
        next: (NextValue, Option<Call>),
    ) -> bool {
        match counter_row_read(outcome) {
            Err(error) => next.0 matches NextValue::Done(Err(found)) && found@ == error,
            Ok(read) => {
                let version = if read is Some { read->Some_0.version } else { 0 };
                let value = if read is Some { read->Some_0.value } else { 0 };
                if value == u64::MAX || version == u64::MAX {
                    next.0 matches NextValue::Done(Err(found)) && found@ == ErrorModel::Overflow
                } else {
                    &&& next.0 == NextValue::Writing((value + 1) as u64)
                    &&& next.1 matches Some(Call::PutItem(put)) && puts_counter(
                        put,
                        self.table_name@,
                        self.id@,
                        version,
                        (value + 1) as u64,
                    )
                }
            },
        }
    }

    /// One step of handing out the next value. The row is read; the value
    /// after the one it holds is written on the condition that the row is
    /// still as it was read; where it is not, the operation waits for the
    /// retry time and its jitter and begins again with the read, as often as
    /// it takes. A row that is not there counts as one with version 0 and
    /// value 0. Any other error ends the operation, and so does a value or a
    /// version at the end of the 64-bit range, with `Overflow`. A state that
    /// is `Done` stays; an event that does not answer the call that was asked
    /// for ends the operation with `UnexpectedEvent`.
    pub fn next_value(&self, state: NextValue, event: Event) -> (next: (NextValue, Option<Call>))
        requires
            self.well_formed(),
        ensures
            next.1 is None <==> next.0 is Done,
            match (state, event) {
                (NextValue::Done(result), _) => next.0 == state,
                (NextValue::Start, Event::Begin) => next.0 is Reading && asks_read(
                    next.1,
                    self.table_name@,
                    self.id@,
                    true,
                ),
                (NextValue::Reading, Event::Got(outcome)) => self.after_read(outcome, next),
                (NextValue::Writing(value), Event::Put(outcome)) => match outcome {
                    Ok(()) => next.0 == NextValue::Done(Ok(value)),
                    Err(failure) => if is_conditional_failure(failure@) {
                        next.0 is Sleeping && asks_wait(next.1, self.retry_time, self.jitter_millis)
                    } else {
                        next.0 matches NextValue::Done(Err(found)) && found@ == ErrorModel::PutItem(failure@)
                    },
                },
                (NextValue::Sleeping, Event::Slept) => next.0 is Reading && asks_read(
                    next.1,
                    self.table_name@,
                    self.id@,
                    true,
                ),
                _ => next.0 matches NextValue::Done(Err(found)) && found@ == ErrorModel::UnexpectedEvent,
            },
    {
        match (state, event) {
            (NextValue::Done(result), _) => (NextValue::Done(result), None),
            (NextValue::Start, Event::Begin) => (NextValue::Reading, Some(Call::GetItem(self.read_input()))),
            (NextValue::Reading, Event::Got(outcome)) => {
                let mut row = match self.read(outcome) {
                    Err(error) => {
                        return (NextValue::Done(Err(error)), None);
                    },
                    Ok(Some(row)) => row,
                    Ok(None) => CounterRow::new(self.id.clone()),
                };
                if row.value == u64::MAX {
                    return (NextValue::Done(Err(ErrorKind::Overflow)), None);
                }
                row.value = row.value + 1;
                match self.write(&row) {
                    Ok(put) => (NextValue::Writing(row.value), Some(Call::PutItem(put))),
                    Err(error) => (NextValue::Done(Err(error)), None),
                }
            },
            (NextValue::Writing(value), Event::Put(outcome)) => match after_put(
                outcome,
                self.retry_time,
                self.jitter_millis,
            ) {
                PutVerdict::Written => (NextValue::Done(Ok(value)), None),
                PutVerdict::Retry(millis) => (NextValue::Sleeping, Some(Call::Sleep(millis))),
                PutVerdict::Failed(error) => (NextValue::Done(Err(error)), None),
            },
            (NextValue::Sleeping, Event::Slept) => (NextValue::Reading, Some(Call::GetItem(self.read_input()))),
            _ => (NextValue::Done(Err(ErrorKind::UnexpectedEvent)), None),
        }
    }
}

} // verus!
