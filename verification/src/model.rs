//! What a queue is, and what joining and leaving do to it. Both engines state
//! their contracts over these definitions.

use vstd::prelude::*;

verus! {

/// A participant as the queue keeps it.
pub struct PositionModel {
    pub process_id: Seq<char>,
    pub counter: u64,
    pub tags: Map<Seq<char>, Seq<char>>,
}

/// A participant as a caller sees it.
pub struct TicketModel {
    pub process_id: Seq<char>,
    pub counter: u64,
    pub position: int,
    pub tags: Map<Seq<char>, Seq<char>>,
}

/// The state of a queue: its participants from the front, its version, and
/// the sequence number given last.
pub struct QueueModel {
    pub items: Seq<PositionModel>,
    pub version: u64,
    pub value: u64,
}

/// The queue that nobody has joined yet.
pub open spec fn empty_queue() -> QueueModel {
    QueueModel { items: Seq::empty(), version: 0, value: 0 }
}

/// `process_id` is in `items`.
pub open spec fn is_member(items: Seq<PositionModel>, process_id: Seq<char>) -> bool {
    exists|i: int| 0 <= i < items.len() && (#[trigger] items[i]).process_id == process_id
}

/// The first index in `items` at which `process_id` stands; `items.len()` if
/// it stands nowhere.
pub open spec fn index_of(items: Seq<PositionModel>, process_id: Seq<char>) -> int
    decreases items.len(),
{
    if items.len() == 0 {
        0
    } else if items[0].process_id == process_id {
        0
    } else {
        1 + index_of(items.drop_first(), process_id)
    }
}

/// The ticket of the participant at `index`.
pub open spec fn ticket_at(items: Seq<PositionModel>, index: int) -> TicketModel {
    TicketModel {
        process_id: items[index].process_id,
        counter: items[index].counter,
        position: index,
        tags: items[index].tags,
    }
}

/// The tickets of all of `items`, from the front.
pub open spec fn tickets_of(items: Seq<PositionModel>) -> Seq<TicketModel> {
    Seq::new(items.len(), |i: int| ticket_at(items, i))
}

/// No process stands at two places of `items`.
pub open spec fn single_occupancy(items: Seq<PositionModel>) -> bool {
    forall|i: int, j: int|
        0 <= i < items.len() && 0 <= j < items.len() && (#[trigger] items[i]).process_id == (
        #[trigger] items[j]).process_id ==> i == j
}

/// The sequence numbers of `items` strictly increase from the front.
pub open spec fn counters_increase(items: Seq<PositionModel>) -> bool {
    forall|i: int, j: int| 0 <= i < j < items.len() ==> (#[trigger] items[i]).counter < (#[trigger] items[j]).counter
}

/// No participant has a sequence number above `value`.
pub open spec fn counters_bounded(items: Seq<PositionModel>, value: u64) -> bool {
    forall|i: int| 0 <= i < items.len() ==> (#[trigger] items[i]).counter <= value
}

/// What holds of every queue that was reached by joining and leaving.
pub open spec fn coherent(queue: QueueModel) -> bool {
    &&& single_occupancy(queue.items)
    &&& counters_increase(queue.items)
    &&& counters_bounded(queue.items, queue.value)
}

/// A join changes the queue: the process is not in it, and the next
/// sequence number and the next version can be given.
pub open spec fn join_changes(queue: QueueModel, process_id: Seq<char>) -> bool {
    &&& !is_member(queue.items, process_id)
    &&& queue.value < u64::MAX
    &&& queue.version < u64::MAX
}

/// The queue after `process_id` asked to join with `tags`. A participant
/// that is in the queue already leaves it as it is.
pub open spec fn joined(queue: QueueModel, process_id: Seq<char>, tags: Map<Seq<char>, Seq<char>>) -> QueueModel {
    if join_changes(queue, process_id) {
        QueueModel {
            items: queue.items.push(
                PositionModel { process_id, counter: (queue.value + 1) as u64, tags },
            ),
            version: (queue.version + 1) as u64,
            value: (queue.value + 1) as u64,
        }
    } else {
        queue
    }
}

/// A leave changes the queue: the process is in it and the next version can
/// be given.
pub open spec fn leave_changes(queue: QueueModel, process_id: Seq<char>) -> bool {
    &&& is_member(queue.items, process_id)
    &&& queue.version < u64::MAX
}

/// The queue after `process_id` asked to leave.
pub open spec fn left(queue: QueueModel, process_id: Seq<char>) -> QueueModel {
    if leave_changes(queue, process_id) {
        QueueModel {
            items: queue.items.remove(index_of(queue.items, process_id)),
            version: (queue.version + 1) as u64,
            value: queue.value,
        }
    } else {
        queue
    }
}

/// `index_of` finds a member at its first place, and gives the length for
/// anyone else.
pub proof fn lemma_index_of(items: Seq<PositionModel>, process_id: Seq<char>)
    ensures
        0 <= index_of(items, process_id) <= items.len(),
        is_member(items, process_id) <==> index_of(items, process_id) < items.len(),
        index_of(items, process_id) < items.len() ==> items[index_of(items, process_id)].process_id
            == process_id,
        forall|i: int| 0 <= i < index_of(items, process_id) ==> (#[trigger] items[i]).process_id != process_id,
    decreases items.len(),
{
    if items.len() == 0 {
    } else if items[0].process_id == process_id {
    } else {
        let tail = items.drop_first();
        lemma_index_of(tail, process_id);
        let k = index_of(tail, process_id);
        assert forall|i: int| 0 <= i < 1 + k implies (#[trigger] items[i]).process_id != process_id by {
            if i > 0 {
                assert(tail[i - 1].process_id != process_id);
            }
        }
        if k < tail.len() {
            assert(items[k + 1] == tail[k]);
        }
        if is_member(items, process_id) {
            let i = choose|i: int| 0 <= i < items.len() && (#[trigger] items[i]).process_id == process_id;
            assert(tail[i - 1].process_id == process_id);
        }
    }
}

/// The ticket that `process_id` holds in `queue`.
pub open spec fn ticket_of(queue: QueueModel, process_id: Seq<char>) -> TicketModel {
    ticket_at(queue.items, index_of(queue.items, process_id))
}

/// The first place of a process is the only index before which it does not
/// stand and at which it does.
pub proof fn lemma_index_of_first(items: Seq<PositionModel>, process_id: Seq<char>, index: int)
    requires
        0 <= index < items.len(),
        items[index].process_id == process_id,
        forall|i: int| 0 <= i < index ==> (#[trigger] items[i]).process_id != process_id,
    ensures
        index_of(items, process_id) == index,
        is_member(items, process_id),
{
    lemma_index_of(items, process_id);
}

/// Joining keeps a queue coherent: nobody stands in it twice and the
/// sequence numbers still increase from the front.
pub proof fn lemma_join_keeps_coherent(queue: QueueModel, process_id: Seq<char>, tags: Map<Seq<char>, Seq<char>>)
    requires
        coherent(queue),
    ensures
        coherent(joined(queue, process_id, tags)),
{
    if join_changes(queue, process_id) {
        let after = joined(queue, process_id, tags);
        let last = queue.items.len() as int;
        assert forall|i: int, j: int|
            0 <= i < after.items.len() && 0 <= j < after.items.len() && (#[trigger] after.items[i]).process_id == (
            #[trigger] after.items[j]).process_id implies i == j by {
            if i < last && j < last {
                assert(queue.items[i].process_id == queue.items[j].process_id);
            } else if i < last {
                assert(queue.items[i].process_id == process_id);
            } else if j < last {
                assert(queue.items[j].process_id == process_id);
            }
        }
        assert forall|i: int, j: int| 0 <= i < j < after.items.len() implies (#[trigger] after.items[i]).counter < (
        #[trigger] after.items[j]).counter by {
            if j < last {
                assert(queue.items[i].counter < queue.items[j].counter);
            } else {
                assert(queue.items[i].counter <= queue.value);
            }
        }
        assert forall|i: int| 0 <= i < after.items.len() implies (#[trigger] after.items[i]).counter
            <= after.value by {
            if i < last {
                assert(queue.items[i].counter <= queue.value);
            }
        }
    }
}

/// Leaving keeps a queue coherent: taking one participant out shifts the
/// others and leaves their order as it was.
pub proof fn lemma_leave_keeps_coherent(queue: QueueModel, process_id: Seq<char>)
    requires
        coherent(queue),
    ensures
        coherent(left(queue, process_id)),
{
    if leave_changes(queue, process_id) {
        lemma_index_of(queue.items, process_id);
        let k = index_of(queue.items, process_id);
        let after = left(queue, process_id);
        assert forall|i: int| 0 <= i < after.items.len() implies #[trigger] after.items[i] == queue.items[if i < k {
            i
        } else {
            i + 1
        }] by {}
        assert forall|i: int, j: int|
            0 <= i < after.items.len() && 0 <= j < after.items.len() && (#[trigger] after.items[i]).process_id == (
            #[trigger] after.items[j]).process_id implies i == j by {
            let a = if i < k { i } else { i + 1 };
            let b = if j < k { j } else { j + 1 };
            assert(queue.items[a].process_id == queue.items[b].process_id);
        }
        assert forall|i: int, j: int| 0 <= i < j < after.items.len() implies (#[trigger] after.items[i]).counter < (
        #[trigger] after.items[j]).counter by {
            let a = if i < k { i } else { i + 1 };
            let b = if j < k { j } else { j + 1 };
            assert(queue.items[a].counter < queue.items[b].counter);
        }
        assert forall|i: int| 0 <= i < after.items.len() implies (#[trigger] after.items[i]).counter
            <= after.value by {
            let a = if i < k { i } else { i + 1 };
            assert(queue.items[a].counter <= queue.value);
        }
    }
}

/// A join by a process that has just joined changes nothing: the queue, its
/// version and its last sequence number stay, and so does the ticket, with
/// the tags of the first join.
pub proof fn lemma_join_idempotent(
    queue: QueueModel,
    process_id: Seq<char>,
    tags: Map<Seq<char>, Seq<char>>,
    other_tags: Map<Seq<char>, Seq<char>>,
)
    ensures
        joined(joined(queue, process_id, tags), process_id, other_tags) == joined(queue, process_id, tags),
        ticket_of(joined(joined(queue, process_id, tags), process_id, other_tags), process_id) == ticket_of(
            joined(queue, process_id, tags),
            process_id,
        ),
        join_changes(queue, process_id) ==> ticket_of(joined(queue, process_id, tags), process_id) == (TicketModel {
            process_id,
            counter: (queue.value + 1) as u64,
            position: queue.items.len() as int,
            tags,
        }),
{
    if join_changes(queue, process_id) {
        let after = joined(queue, process_id, tags);
        let last = queue.items.len() as int;
        assert(after.items[last].process_id == process_id);
        assert forall|i: int| 0 <= i < last implies (#[trigger] after.items[i]).process_id != process_id by {
            assert(queue.items[i] == after.items[i]);
        }
        lemma_index_of_first(after.items, process_id, last);
    }
}

/// A process that has left a coherent queue is not in it any more.
pub proof fn lemma_left_is_gone(queue: QueueModel, process_id: Seq<char>)
    requires
        single_occupancy(queue.items),
        leave_changes(queue, process_id),
    ensures
        !is_member(left(queue, process_id).items, process_id),
{
    lemma_index_of(queue.items, process_id);
    let k = index_of(queue.items, process_id);
    let after = left(queue, process_id);
    if is_member(after.items, process_id) {
        let i = choose|i: int| 0 <= i < after.items.len() && (#[trigger] after.items[i]).process_id == process_id;
        let a = if i < k { i } else { i + 1 };
        assert(after.items[i] == queue.items[a]);
        assert(queue.items[a].process_id == queue.items[k].process_id);
    }
}

/// In a coherent queue the tickets come with their own index as position and
/// with sequence numbers that strictly increase with it.
pub proof fn lemma_tickets_coherent(queue: QueueModel)
    requires
        coherent(queue),
    ensures
        tickets_of(queue.items).len() == queue.items.len(),
        forall|i: int| 0 <= i < queue.items.len() ==> (#[trigger] tickets_of(queue.items)[i]).position == i,
        forall|i: int, j: int|
            0 <= i < j < queue.items.len() ==> (#[trigger] tickets_of(queue.items)[i]).counter < (
            #[trigger] tickets_of(queue.items)[j]).counter,
{
    assert forall|i: int, j: int| 0 <= i < j < queue.items.len() implies (#[trigger] tickets_of(
        queue.items,
    )[i]).counter < (#[trigger] tickets_of(queue.items)[j]).counter by {
        assert(queue.items[i].counter < queue.items[j].counter);
    }
}

/// One request to a queue.
pub enum Request {
    Join { process_id: Seq<char>, tags: Map<Seq<char>, Seq<char>> },
    Leave { process_id: Seq<char> },
}

/// The request changes the queue, and so gives a new fencing token.
pub open spec fn changes(queue: QueueModel, request: Request) -> bool {
    match request {
        Request::Join { process_id, tags } => join_changes(queue, process_id),
        Request::Leave { process_id } => leave_changes(queue, process_id),
    }
}

/// The queue after one request.
pub open spec fn after_request(queue: QueueModel, request: Request) -> QueueModel {
    match request {
        Request::Join { process_id, tags } => joined(queue, process_id, tags),
        Request::Leave { process_id } => left(queue, process_id),
    }
}

/// The queue after the first `count` of `requests`.
pub open spec fn after_requests(queue: QueueModel, requests: Seq<Request>, count: int) -> QueueModel
    decreases count,
{
    if count <= 0 {
        queue
    } else {
        after_request(after_requests(queue, requests, count - 1), requests[count - 1])
    }
}

/// A request that changes the queue raises its version by one, and the new
/// version is the fencing token; any other request leaves the version.
pub proof fn lemma_request_version(queue: QueueModel, request: Request)
    ensures
        changes(queue, request) ==> after_request(queue, request).version == queue.version + 1,
        !changes(queue, request) ==> after_request(queue, request) == queue,
        after_request(queue, request).value >= queue.value,
{
}

/// After any requests, a queue that was coherent is coherent, and its
/// version and its last sequence number are not below what they were.
pub proof fn lemma_requests_keep_coherent(queue: QueueModel, requests: Seq<Request>, count: int)
    requires
        coherent(queue),
        0 <= count <= requests.len(),
    ensures
        coherent(after_requests(queue, requests, count)),
        after_requests(queue, requests, count).version >= queue.version,
        after_requests(queue, requests, count).value >= queue.value,
    decreases count,
{
    if count > 0 {
        lemma_requests_keep_coherent(queue, requests, count - 1);
        let before = after_requests(queue, requests, count - 1);
        match requests[count - 1] {
            Request::Join { process_id, tags } => {
                lemma_join_keeps_coherent(before, process_id, tags);
            },
            Request::Leave { process_id } => {
                lemma_leave_keeps_coherent(before, process_id);
            },
        }
    }
}

/// The fencing tokens of the requests that change a queue strictly increase
/// in the order of the requests: of two such requests the later one gives
/// the greater token.
pub proof fn lemma_tokens_increase(queue: QueueModel, requests: Seq<Request>, earlier: int, later: int)
    requires
        0 <= earlier < later < requests.len(),
        changes(after_requests(queue, requests, earlier), requests[earlier]),
        changes(after_requests(queue, requests, later), requests[later]),
    ensures
        after_requests(queue, requests, earlier + 1).version < after_requests(queue, requests, later + 1).version,
    decreases later - earlier,
{
    lemma_request_version(after_requests(queue, requests, later), requests[later]);
    if earlier + 1 < later {
        lemma_versions_never_fall(queue, requests, earlier + 1, later);
    }
}

/// The version of a queue never falls from one request to a later one.
pub proof fn lemma_versions_never_fall(queue: QueueModel, requests: Seq<Request>, from: int, to: int)
    requires
        0 <= from <= to <= requests.len(),
    ensures
        after_requests(queue, requests, from).version <= after_requests(queue, requests, to).version,
    decreases to - from,
{
    if from < to {
        lemma_versions_never_fall(queue, requests, from, to - 1);
        lemma_request_version(after_requests(queue, requests, to - 1), requests[to - 1]);
    }
}

} // verus!
