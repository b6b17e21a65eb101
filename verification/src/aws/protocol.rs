//! What the clients of one row reach together. Each client reads the row,
//! decides, and writes on the condition that the row still has the version
//! it read. Here the table's rule for that condition is stated, and what
//! follows from it for any number of clients, whatever the order of their
//! reads and writes and however old the state that a client read: the values
//! of a counter are handed out one by one, the fencing tokens rise, and a
//! queue stays coherent.

use crate::aws::call::Call;
use crate::aws::counter::{counter_row_in, value_read, Counter, CounterRowModel, NextValue, COUNTER_TYPE};
use crate::aws::error::{ErrorModel, ServiceError};
use crate::aws::item::{Item, ItemModel, PutItemInput};
use crate::aws::queue::{
    queue_found, queue_item, queue_row_read, Join, Leave, Queue, QueueRowModel, QUEUE_TYPE,
};
use crate::aws::number::{decimal, lemma_decimal_is_read_back, lemma_written_number_is_read};
use crate::aws::row::{condition_values, number_model, row_model, string_model};
use crate::model::{
    after_request, changes, coherent, empty_queue, lemma_join_keeps_coherent,
    lemma_leave_keeps_coherent, lemma_request_version, QueueModel, Request,
};
use vstd::prelude::*;

verus! {

/// The table's rule for the condition of every write: the write is done
/// where the table holds no row, or a row without a version, or a row whose
/// version is the one that the condition names.
pub open spec fn condition_holds(stored: Option<ItemModel>, values: ItemModel) -> bool {
    match stored {
        None => true,
        Some(item) => !item.contains_key("Version"@) || (values.contains_key(":version"@) && item["Version"@]
            == values[":version"@]),
    }
}

/// The names of a row's attributes differ from each other.
pub proof fn lemma_names_differ()
    ensures
        "ID"@ != "Version"@,
        "ID"@ != "Type"@,
        "ID"@ != "Value"@,
        "Version"@ != "Type"@,
        "Version"@ != "Value"@,
        "Type"@ != "Value"@,
{
    reveal_strlit("ID");
    reveal_strlit("Version");
    reveal_strlit("Type");
    reveal_strlit("Value");
    assert("ID"@.len() == 2 && "Version"@.len() == 7 && "Type"@.len() == 4 && "Value"@.len() == 5);
}

/// Different numbers are written in different digits.
pub proof fn lemma_decimal_injective(a: u64, b: u64)
    requires
        decimal(a as nat) == decimal(b as nat),
    ensures
        a == b,
{
    lemma_decimal_is_read_back(a as nat);
    lemma_decimal_is_read_back(b as nat);
}

/// The row of a counter is read back as it was written.
pub proof fn lemma_counter_row_read_back(id: Seq<char>, version: u64, value: u64)
    ensures
        counter_row_in(row_model(id, COUNTER_TYPE@, version, value)) == Ok::<CounterRowModel, ErrorModel>(
            CounterRowModel { id, version, value },
        ),
{
    lemma_names_differ();
    lemma_written_number_is_read(version);
    lemma_written_number_is_read(value);
    let item = row_model(id, COUNTER_TYPE@, version, value);
    assert(item["ID"@] == string_model(id));
    assert(item["Version"@] == number_model(version));
    assert(item["Type"@] == string_model(COUNTER_TYPE@));
    assert(item["Value"@] == number_model(value));
}

/// A written row lets a write pass where the condition names the row's
/// version, and no other.
pub proof fn lemma_condition_on_row(id: Seq<char>, kind: Seq<char>, version: u64, value: u64, expected: u64)
    ensures
        condition_holds(Some(row_model(id, kind, version, value)), condition_values(expected)) <==> version
            == expected,
{
    lemma_names_differ();
    let item = row_model(id, kind, version, value);
    assert(item["Version"@] == number_model(version));
    assert(condition_values(expected)[":version"@] == number_model(expected));
    if number_model(version) == number_model(expected) {
        lemma_decimal_injective(version, expected);
    }
}

/// The version and the value that a client goes by after reading `seen`:
/// those of the row, 0 and 0 where there is none. `None` where the item
/// cannot be read as a counter.
pub open spec fn counter_seen(seen: Option<ItemModel>) -> Option<(u64, u64)> {
    match seen {
        None => Some((0, 0)),
        Some(item) => match counter_row_in(item) {
            Ok(row) => Some((row.version, row.value)),
            Err(_) => None,
        },
    }
}

/// What the table holds under `id`, and the values that were handed out, in
/// the order in which it happened.
pub struct CounterRun {
    /// What the table held at first and after each write that it did.
    pub history: Seq<Option<ItemModel>>,
    /// The value that each of these writes handed out.
    pub values: Seq<u64>,
}

/// One attempt at the next value by a client that read `seen`, against a
/// table that holds `stored`: the item that the attempt writes and the value
/// that it hands out, where the table does the write.
pub open spec fn counter_attempt(id: Seq<char>, stored: Option<ItemModel>, seen: Option<ItemModel>) -> Option<
    (ItemModel, u64),
> {
    match counter_seen(seen) {
        Some((version, value)) => if value < u64::MAX && version < u64::MAX && condition_holds(
            stored,
            condition_values(version),
        ) {
            Some((row_model(id, COUNTER_TYPE@, (version + 1) as u64, (value + 1) as u64), (value + 1) as u64))
        } else {
            None
        },
        None => None,
    }
}

/// The run of the first `count` attempts at the next value on a fresh
/// counter. The attempt at index `i` is made by a client that read what the
/// table held after `seen_at[i]` writes, which may be any state that the
/// table has been in by then.
pub open spec fn counter_run(id: Seq<char>, seen_at: Seq<int>, count: int) -> CounterRun
    decreases count,
{
    if count <= 0 {
        CounterRun { history: seq![None], values: Seq::empty() }
    } else {
        let before = counter_run(id, seen_at, count - 1);
        let at = seen_at[count - 1];
        if 0 <= at < before.history.len() {
            match counter_attempt(id, before.history.last(), before.history[at]) {
                Some((item, value)) => CounterRun {
                    history: before.history.push(Some(item)),
                    values: before.values.push(value),
                },
                None => before,
            }
        } else {
            before
        }
    }
}

/// Counter monotonicity. Whatever the clients of a fresh counter read and in
/// whatever order their attempts reach the table, the values handed out are
/// 1, 2, 3 and so on in the order of the writes, none left out and none
/// twice, and after each write the table holds the value handed out last,
/// with the number of the writes as its version.
pub proof fn lemma_counter_values_are_consecutive(id: Seq<char>, seen_at: Seq<int>, count: int)
    requires
        0 <= count <= seen_at.len(),
    ensures
        ({
            let run = counter_run(id, seen_at, count);
            &&& run.history.len() == run.values.len() + 1
            &&& run.values.len() <= u64::MAX
            &&& run.history[0] is None
            &&& forall|i: int| 0 <= i < run.values.len() ==> #[trigger] run.values[i] == i + 1
            &&& forall|i: int|
                1 <= i < run.history.len() ==> #[trigger] run.history[i] == Some(
                    row_model(id, COUNTER_TYPE@, i as u64, i as u64),
                )
        }),
    decreases count,
{
    if count > 0 {
        lemma_counter_values_are_consecutive(id, seen_at, count - 1);
        let before = counter_run(id, seen_at, count - 1);
        let run = counter_run(id, seen_at, count);
        let at = seen_at[count - 1];
        let n = before.values.len() as int;
        if 0 <= at < before.history.len() {
            if at > 0 {
                lemma_counter_row_read_back(id, at as u64, at as u64);
            }
            assert(counter_seen(before.history[at]) == Some((at as u64, at as u64)));
            if n > 0 {
                lemma_condition_on_row(id, COUNTER_TYPE@, n as u64, n as u64, at as u64);
            }
            if counter_attempt(id, before.history.last(), before.history[at]) is Some {
                assert(at == n);
                assert(run.history.len() == n + 2);
                assert forall|i: int| 1 <= i < run.history.len() implies #[trigger] run.history[i] == Some(
                    row_model(id, COUNTER_TYPE@, i as u64, i as u64),
                ) by {
                    if i <= n {
                        assert(run.history[i] == before.history[i]);
                    }
                }
                assert forall|i: int| 0 <= i < run.values.len() implies #[trigger] run.values[i] == i + 1 by {
                    if i < n {
                        assert(run.values[i] == before.values[i]);
                    }
                }
            }
        }
    }
}

/// The step of `next_value` after a read is the attempt of the run. Where
/// the attempt writes, the step asks for the write of the attempt's item, on
/// a condition that the table lets pass, and the value that it will hand out
/// is the attempt's; where the attempt writes nothing, the step asks for no
/// write that the table would do.
pub proof fn lemma_next_value_makes_the_attempt(
    counter: Counter,
    seen: Option<Item>,
    stored: Option<ItemModel>,
    next: (NextValue, Option<Call>),
)
    requires
        next.1 is None <==> next.0 is Done,
        counter.after_read(Ok(seen), next),
    ensures
        match counter_attempt(counter.id@, stored, held_by(seen)) {
            Some((item, value)) => {
                &&& next.0 == NextValue::Writing(value)
                &&& next.1 matches Some(Call::PutItem(put)) && put.item@ == item && passes(stored, put)
            },
            None => !(next.1 matches Some(Call::PutItem(put)) && passes(stored, put)),
        },
{
}

/// The item that a read found, by its characters.
pub open spec fn held_by(found: Option<Item>) -> Option<ItemModel> {
    match found {
        Some(item) => Some(item@),
        None => None,
    }
}

/// The table does the write `put` where it holds `stored`.
pub open spec fn passes(stored: Option<ItemModel>, put: PutItemInput) -> bool {
    put.expression_attribute_values matches Some(values) && condition_holds(stored, values@)
}

/// What the table holds: the items under their names.
pub type TableModel = Map<Seq<char>, ItemModel>;

/// The item that the table holds under `id`, if it holds one.
pub open spec fn table_get(table: TableModel, id: Seq<char>) -> Option<ItemModel> {
    if table.contains_key(id) {
        Some(table[id])
    } else {
        None
    }
}

/// The table after a delete of `id`: the item under this name is gone,
/// whether there was one or not.
pub open spec fn table_delete(table: TableModel, id: Seq<char>) -> TableModel {
    table.remove(id)
}

/// The table after the conditional write `put` under `id`: the item is put
/// where the condition holds of what the table holds under this name, and
/// nothing changes where it does not.
pub open spec fn table_put(table: TableModel, id: Seq<char>, put: PutItemInput) -> TableModel {
    if passes(table_get(table, id), put) {
        table.insert(id, put.item@)
    } else {
        table
    }
}

/// `outcome` is what a read of `id` gives of the table.
pub open spec fn reads(outcome: Result<Option<Item>, ServiceError>, table: TableModel, id: Seq<char>) -> bool {
    outcome matches Ok(found) && held_by(found) == table_get(table, id)
}

/// Remove resets. After a delete the other rows of the table are as they
/// were, and a read of the deleted name gives the value 0 of a counter, and
/// of a queue no row, which is the empty queue of version 0. The next
/// attempt at a value makes the row anew: the table does its write, whatever
/// the client had read before, and a client that read after the delete hands
/// out 1.
pub proof fn lemma_removed_row_reads_as_fresh(
    table: TableModel,
    id: Seq<char>,
    outcome: Result<Option<Item>, ServiceError>,
)
    requires
        reads(outcome, table_delete(table, id), id),
    ensures
        forall|other: Seq<char>| other != id ==> #[trigger] table_get(table_delete(table, id), other) == table_get(table, other),
        value_read(outcome) == Ok::<u64, ErrorModel>(0),
        queue_row_read(outcome) == Ok::<Option<QueueRowModel>, ErrorModel>(None),
        queue_found(None) == empty_queue(),
        forall|put: PutItemInput|
            put.expression_attribute_values is Some ==> #[trigger] table_put(table_delete(table, id), id, put)
                == table_delete(table, id).insert(id, put.item@),
        counter_attempt(id, table_get(table_delete(table, id), id), None) == Some(
            (row_model(id, COUNTER_TYPE@, 1, 1), 1u64),
        ),
{
}

/// The names `Items` and `Version` differ.
pub proof fn lemma_items_is_no_version()
    ensures
        "Items"@ != "Version"@,
{
    reveal_strlit("Items");
    reveal_strlit("Version");
    assert("Items"@.len() == 5 && "Version"@.len() == 7);
}

/// The item that holds the queue `queue`; no item for the queue of version
/// 0, which stands for a row that is not there.
pub open spec fn held_queue(id: Seq<char>, queue: QueueModel) -> Option<ItemModel> {
    if queue.version == 0 {
        None
    } else {
        Some(queue_item(id, queue))
    }
}

/// The table does a write on the version `version` where it holds the queue
/// `stored` exactly if the run lets the write pass.
pub proof fn lemma_condition_on_queue(id: Seq<char>, stored: QueueModel, version: u64)
    ensures
        condition_holds(held_queue(id, stored), condition_values(version)) <==> queue_write_passes(stored, version),
{
    if stored.version != 0 {
        lemma_names_differ();
        lemma_items_is_no_version();
        lemma_condition_on_row(id, QUEUE_TYPE@, stored.version, stored.value, version);
        let item = queue_item(id, stored);
        assert(item["Version"@] == row_model(id, QUEUE_TYPE@, stored.version, stored.value)["Version"@]);
        assert(item.contains_key("Version"@));
    }
}

/// The request of a join.
pub open spec fn join_request(process_id: Seq<char>, tags: Map<Seq<char>, Seq<char>>) -> Request {
    Request::Join { process_id, tags }
}

/// The request of a leave.
pub open spec fn leave_request(process_id: Seq<char>) -> Request {
    Request::Leave { process_id }
}

/// The step of a join after a read is the attempt of the run. Where the
/// request changes the queue that was read, the step asks for the write of
/// the queue after the request, which the table does exactly if the run lets
/// it pass, and the token that it will give is the version of that queue;
/// where the request changes nothing, the step asks for no write.
pub proof fn lemma_join_makes_the_attempt(
    queue: Queue,
    process_id: Seq<char>,
    tags: Map<Seq<char>, Seq<char>>,
    read: Option<Item>,
    stored: QueueModel,
    next: (Join, Option<Call>),
)
    requires
        next.1 is None <==> next.0 is Done,
        queue.join_after_read(process_id, tags, Ok(read), next),
        queue_row_read(Ok(read)) is Ok,
    ensures
        ({
            let seen = queue_found(queue_row_read(Ok(read))->Ok_0);
            let request = join_request(process_id, tags);
            if changes(seen, request) {
                &&& next.0 matches Join::Writing(token, _) && token == after_request(seen, request).version
                &&& next.1 matches Some(Call::PutItem(put)) && put.item@ == queue_item(
                    queue.id@,
                    after_request(seen, request),
                ) && (passes(held_queue(queue.id@, stored), put) <==> queue_write_passes(stored, seen.version))
            } else {
                next.1 is None
            }
        }),
{
    let seen = queue_found(queue_row_read(Ok(read))->Ok_0);
    lemma_condition_on_queue(queue.id@, stored, seen.version);
}

/// The step of a leave after a read is the attempt of the run, as the step
/// of a join is.
pub proof fn lemma_leave_makes_the_attempt(
    queue: Queue,
    process_id: Seq<char>,
    read: Option<Item>,
    stored: QueueModel,
    next: (Leave, Option<Call>),
)
    requires
        next.1 is None <==> next.0 is Done,
        queue.leave_after_read(process_id, Ok(read), next),
        queue_row_read(Ok(read)) is Ok,
    ensures
        ({
            let seen = queue_found(queue_row_read(Ok(read))->Ok_0);
            let request = leave_request(process_id);
            if changes(seen, request) {
                &&& next.0 == Leave::Writing(after_request(seen, request).version)
                &&& next.1 matches Some(Call::PutItem(put)) && put.item@ == queue_item(
                    queue.id@,
                    after_request(seen, request),
                ) && (passes(held_queue(queue.id@, stored), put) <==> queue_write_passes(stored, seen.version))
            } else {
                next.1 is None
            }
        }),
{
    let seen = queue_found(queue_row_read(Ok(read))->Ok_0);
    lemma_condition_on_queue(queue.id@, stored, seen.version);
}

/// What the table holds under the name of a queue, and the tokens that were
/// given, in the order in which it happened.
pub struct QueueRun {
    /// The queue that the table held at first and after each write that it
    /// did; the queue that nobody has joined stands for no row.
    pub history: Seq<QueueModel>,
    /// The fencing token that each of these writes gave.
    pub tokens: Seq<u64>,
}

/// The table does the write of a client that read the version `version`,
/// where it holds `stored`: it holds no row, which is the queue of version
/// 0 here, or a row of this version.
pub open spec fn queue_write_passes(stored: QueueModel, version: u64) -> bool {
    stored.version == 0 || stored.version == version
}

/// One request by a client that read a state of the queue.
pub struct QueueAttempt {
    /// The number of writes after which the client read the row.
    pub seen_at: int,
    pub request: Request,
}

/// The run of the first `count` of `attempts` on a fresh queue. Each attempt
/// is made by a client that read what the table held after some of the
/// writes so far, decided on that, and wrote on the condition that the row
/// still has the version it read.
pub open spec fn queue_run(attempts: Seq<QueueAttempt>, count: int) -> QueueRun
    decreases count,
{
    if count <= 0 {
        QueueRun { history: seq![empty_queue()], tokens: Seq::empty() }
    } else {
        let before = queue_run(attempts, count - 1);
        let attempt = attempts[count - 1];
        if 0 <= attempt.seen_at < before.history.len() {
            let seen = before.history[attempt.seen_at];
            if changes(seen, attempt.request) && queue_write_passes(before.history.last(), seen.version) {
                let after = after_request(seen, attempt.request);
                QueueRun { history: before.history.push(after), tokens: before.tokens.push(after.version) }
            } else {
                before
            }
        } else {
            before
        }
    }
}

/// Fencing tokens rise, and the queue stays coherent. Whatever the clients
/// of a fresh queue read and in whatever order their requests reach the
/// table: a write is done only for a client that read the row as it is, so
/// the writes take effect one after the other; the tokens given are 1, 2, 3
/// and so on in the order of the writes; after each write no process stands
/// in the queue twice and the sequence numbers strictly increase from the
/// front; and the sequence number given last never falls.
pub proof fn lemma_queue_run(attempts: Seq<QueueAttempt>, count: int)
    requires
        0 <= count <= attempts.len(),
    ensures
        ({
            let run = queue_run(attempts, count);
            &&& run.history.len() == run.tokens.len() + 1
            &&& run.tokens.len() <= u64::MAX
            &&& forall|i: int| 0 <= i < run.history.len() ==> (#[trigger] run.history[i]).version == i
            &&& forall|i: int| 0 <= i < run.history.len() ==> coherent(#[trigger] run.history[i])
            &&& forall|i: int| 0 <= i < run.tokens.len() ==> #[trigger] run.tokens[i] == i + 1
            &&& forall|i: int, j: int| 0 <= i < j < run.tokens.len() ==> #[trigger] run.tokens[i] < #[trigger] run.tokens[j]
            &&& forall|i: int|
                0 <= i < run.tokens.len() ==> (#[trigger] run.history[i]).value <= run.history[i + 1].value
        }),
    decreases count,
{
    if count > 0 {
        lemma_queue_run(attempts, count - 1);
        let before = queue_run(attempts, count - 1);
        let run = queue_run(attempts, count);
        let attempt = attempts[count - 1];
        let n = before.tokens.len() as int;
        if 0 <= attempt.seen_at < before.history.len() {
            let seen = before.history[attempt.seen_at];
            assert(seen.version == attempt.seen_at);
            assert(before.history.last() == before.history[n]);
            if changes(seen, attempt.request) && queue_write_passes(before.history.last(), seen.version) {
                assert(attempt.seen_at == n);
                let after = after_request(seen, attempt.request);
                assert(coherent(seen));
                match attempt.request {
                    Request::Join { process_id, tags } => {
                        lemma_join_keeps_coherent(seen, process_id, tags);
                    },
                    Request::Leave { process_id } => {
                        lemma_leave_keeps_coherent(seen, process_id);
                    },
                }
                assert forall|i: int| 0 <= i < run.history.len() implies (#[trigger] run.history[i]).version == i
                    && coherent(run.history[i]) by {
                    if i <= n {
                        assert(run.history[i] == before.history[i]);
                    }
                }
                assert forall|i: int| 0 <= i < run.tokens.len() implies #[trigger] run.tokens[i] == i + 1 by {
                    if i < n {
                        assert(run.tokens[i] == before.tokens[i]);
                    }
                }
                assert forall|i: int| 0 <= i < run.tokens.len() implies (#[trigger] run.history[i]).value
                    <= run.history[i + 1].value by {
                    if i < n {
                        assert(run.history[i] == before.history[i]);
                        assert(run.history[i + 1] == before.history[i + 1]);
                    } else {
                        lemma_request_version(seen, attempt.request);
                    }
                }
            }
        }
    }
}

} // verus!
