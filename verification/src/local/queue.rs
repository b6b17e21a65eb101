//! A queue in memory.

use crate::error::ErrorKind;
use crate::model::{
    coherent, empty_queue, index_of, is_member, joined, leave_changes, left, lemma_index_of,
    lemma_index_of_first, lemma_join_keeps_coherent, lemma_leave_keeps_coherent, ticket_at, ticket_of,
    tickets_of, PositionModel, QueueModel,
};
use crate::string::equal;
use crate::tags::Tags;
use crate::{ticket_models, FencingToken, MonotonicQueue, Ticket};
use vstd::prelude::*;

verus! {

/// A participant as the queue keeps it.
#[derive(Debug, Clone)]
pub struct QueueTicket {
    pub process_id: String,
    pub counter: u64,
    pub tags: Tags,
}

impl View for QueueTicket {
    type V = PositionModel;

    open spec fn view(&self) -> PositionModel {
        PositionModel { process_id: self.process_id@, counter: self.counter, tags: self.tags@ }
    }
}

impl QueueTicket {
    pub fn new(process_id: String, counter: u64, tags: Tags) -> (ticket: QueueTicket)
        ensures
            ticket.process_id == process_id,
            ticket.counter == counter,
            ticket.tags == tags,
    {
        QueueTicket { process_id, counter, tags }
    }
}

/// The participants of `items`, each as the model has it.
pub open spec fn positions_of(items: Seq<QueueTicket>) -> Seq<PositionModel> {
    items.map_values(|t: QueueTicket| t@)
}

/// The state of a queue: the participants from the front, the version, and
/// the sequence number given last.
#[derive(Debug)]
pub struct QueueInner {
    items: Vec<QueueTicket>,
    version: u64,
    counter: u64,
}

impl View for QueueInner {
    type V = QueueModel;

    closed spec fn view(&self) -> QueueModel {
        QueueModel { items: positions_of(self.items@), version: self.version, value: self.counter }
    }
}

impl QueueInner {
    #[verifier::type_invariant]
    spec fn well_formed(&self) -> bool {
        coherent(self@)
    }

    /// The queue that nobody has joined yet.
    pub fn new() -> (queue: QueueInner)
        ensures
            queue@ == empty_queue(),
    {
        let queue = QueueInner { items: Vec::new(), counter: 0, version: 0 };
        assert(queue@.items =~= Seq::<PositionModel>::empty());
        queue
    }

    /// The index at which `process_id` stands, if it is in the queue.
    fn find(&self, process_id: &str) -> (found: Option<usize>)
        ensures
            coherent(self@),
            found is Some <==> is_member(self@.items, process_id@),
            found matches Some(index) ==> index == index_of(self@.items, process_id@) && index < self.items.len(),
    {
        proof {
            use_type_invariant(self);
        }
        let mut i: usize = 0;
        while i < self.items.len()
            invariant
                i <= self.items.len(),
                coherent(self@),
                forall|j: int| 0 <= j < i ==> (#[trigger] self@.items[j]).process_id != process_id@,
            decreases self.items.len() - i,
        {
            if equal(self.items[i].process_id.as_str(), process_id) {
                proof {
                    lemma_index_of_first(self@.items, process_id@, i as int);
                }
                return Some(i);
            }
            i += 1;
        }
        proof {
            lemma_index_of(self@.items, process_id@);
        }
        None
    }

    /// The ticket of the participant at `index`.
    fn ticket(&self, index: usize) -> (ticket: Ticket)
        requires
            index < self@.items.len(),
        ensures
            ticket@ == ticket_at(self@.items, index as int),
    {
        let item = &self.items[index];
        Ticket::new(item.process_id.clone(), item.counter, index, item.tags.clone())
    }

    /// Puts `process_id` at the back of the queue with the next sequence
    /// number and `tags`, and gives the new version. A process that is in the
    /// queue already gets the ticket it has, and nothing changes. Where the
    /// next sequence number or version does not fit in 64 bits, the call
    /// fails and nothing changes.
    pub fn join_queue(&mut self, process_id: String, tags: Tags) -> (result: Result<(FencingToken, Ticket), ErrorKind>)
        ensures
            coherent(old(self)@),
            coherent(final(self)@),
            final(self)@ == joined(old(self)@, process_id@, tags@),
            result is Ok <==> is_member(final(self)@.items, process_id@),
            result matches Ok((token, ticket)) ==> token == final(self)@.version && ticket@ == ticket_of(
                final(self)@,
                process_id@,
            ),
            result matches Err(error) ==> error is Overflow,
    {
        if let Some(index) = self.find(process_id.as_str()) {
            let ticket = self.ticket(index);
            return Ok((self.version, ticket));
        }
        if self.counter == u64::MAX || self.version == u64::MAX {
            return Err(ErrorKind::Overflow);
        }
        let ghost before = self@;
        let position = self.items.len();
        let counter: u64 = self.counter + 1;
        let ticket = Ticket::new(process_id.clone(), counter, position, tags.clone());
        let mut items: Vec<QueueTicket> = Vec::new();
        std::mem::swap(&mut self.items, &mut items);
        items.push(QueueTicket::new(process_id, counter, tags));
        proof {
            lemma_join_keeps_coherent(before, process_id@, tags@);
            assert(positions_of(items@) =~= joined(before, process_id@, tags@).items);
            crate::model::lemma_join_idempotent(before, process_id@, tags@, tags@);
            lemma_index_of(joined(before, process_id@, tags@).items, process_id@);
        }
        *self = QueueInner { items, version: self.version + 1, counter };
        Ok((self.version, ticket))
    }

    /// Takes `process_id` out of the queue and gives the new version; the
    /// process is then in the queue no more. The call fails with `NotFound`
    /// where the process is not in the queue, and with `Overflow` where the
    /// next version does not fit in 64 bits; then nothing changes.
    pub fn leave_queue(&mut self, process_id: &str) -> (result: Result<FencingToken, ErrorKind>)
        ensures
            coherent(old(self)@),
            coherent(final(self)@),
            final(self)@ == left(old(self)@, process_id@),
            result is Ok <==> leave_changes(old(self)@, process_id@),
            result matches Ok(token) ==> token == final(self)@.version && !is_member(
                final(self)@.items,
                process_id@,
            ),
            result matches Err(error) ==> if is_member(old(self)@.items, process_id@) {
                error is Overflow
            } else {
                error matches ErrorKind::NotFound(name) && name@ == process_id@
            },
    {
        let ghost before = self@;
        match self.find(process_id) {
            Some(index) => {
                if self.version == u64::MAX {
                    return Err(ErrorKind::Overflow);
                }
                let mut items: Vec<QueueTicket> = Vec::new();
                std::mem::swap(&mut self.items, &mut items);
                items.remove(index);
                proof {
                    lemma_leave_keeps_coherent(before, process_id@);
                    crate::model::lemma_left_is_gone(before, process_id@);
                    assert(positions_of(items@) =~= left(before, process_id@).items);
                }
                *self = QueueInner { items, version: self.version + 1, counter: self.counter };
                Ok(self.version)
            },
            None => Err(ErrorKind::NotFound(process_id.to_owned())),
        }
    }

    /// The version and the ticket of `process_id`; `NotFound` where the
    /// process is not in the queue.
    pub fn get_ticket(&self, process_id: &str) -> (result: Result<(FencingToken, Ticket), ErrorKind>)
        ensures
            coherent(self@),
            result is Ok <==> is_member(self@.items, process_id@),
            result matches Ok((token, ticket)) ==> token == self@.version && ticket@ == ticket_of(self@, process_id@),
            result matches Err(error) ==> error matches ErrorKind::NotFound(name) && name@ == process_id@,
    {
        match self.find(process_id) {
            Some(index) => Ok((self.version, self.ticket(index))),
            None => Err(ErrorKind::NotFound(process_id.to_owned())),
        }
    }

    /// The version and the tickets of all participants, from the front: the
    /// position of each is its index.
    pub fn get_tickets(&self) -> (result: Result<(FencingToken, Vec<Ticket>), ErrorKind>)
        ensures
            coherent(self@),
            result matches Ok((token, tickets)) && token == self@.version && ticket_models(tickets@) == tickets_of(
                self@.items,
            ),
    {
        proof {
            use_type_invariant(self);
        }
        let mut tickets: Vec<Ticket> = Vec::new();
        let mut i: usize = 0;
        while i < self.items.len()
            invariant
                i <= self.items.len(),
                tickets.len() == i,
                forall|j: int| 0 <= j < i ==> (#[trigger] tickets@[j])@ == ticket_at(self@.items, j),
            decreases self.items.len() - i,
        {
            tickets.push(self.ticket(i));
            i += 1;
        }
        assert(ticket_models(tickets@) =~= tickets_of(self@.items));
        Ok((self.version, tickets))
    }
}

/// A queue in memory.
#[derive(Debug)]
pub struct Queue {
    items: QueueInner,
}

impl View for Queue {
    type V = QueueModel;

    closed spec fn view(&self) -> QueueModel {
        self.items@
    }
}

impl Queue {
    /// The queue that nobody has joined yet.
    pub fn new() -> (queue: Queue)
        ensures
            queue@ == empty_queue(),
    {
        Queue { items: QueueInner::new() }
    }
}

impl MonotonicQueue for Queue {
    type Error = ErrorKind;

    /// Joins as `QueueInner::join_queue` does, with no tags where `tags` is
    /// `None`.
    fn join_queue(&mut self, process_id: String, tags: Option<Tags>) -> (result: Result<
        (FencingToken, Ticket),
        ErrorKind,
    >)
        ensures
            coherent(old(self)@),
            coherent(final(self)@),
            final(self)@ == joined(
                old(self)@,
                process_id@,
                match tags {
                    Some(given) => given@,
                    None => Map::empty(),
                },
            ),
            result is Ok <==> is_member(final(self)@.items, process_id@),
            result matches Ok((token, ticket)) ==> token == final(self)@.version && ticket@ == ticket_of(
                final(self)@,
                process_id@,
            ),
            result matches Err(error) ==> error is Overflow,
    {
        let tags = match tags {
            Some(given) => given,
            None => Tags::new(),
        };
        self.items.join_queue(process_id, tags)
    }

    fn leave_queue(&mut self, process_id: &str) -> (result: Result<FencingToken, ErrorKind>)
        ensures
            coherent(old(self)@),
            coherent(final(self)@),
            final(self)@ == left(old(self)@, process_id@),
            result is Ok <==> leave_changes(old(self)@, process_id@),
            result matches Ok(token) ==> token == final(self)@.version && !is_member(
                final(self)@.items,
                process_id@,
            ),
            result matches Err(error) ==> if is_member(old(self)@.items, process_id@) {
                error is Overflow
            } else {
                error matches ErrorKind::NotFound(name) && name@ == process_id@
            },
    {
        self.items.leave_queue(process_id)
    }

    fn get_ticket(&self, process_id: &str) -> (result: Result<(FencingToken, Ticket), ErrorKind>)
        ensures
            coherent(self@),
            result is Ok <==> is_member(self@.items, process_id@),
            result matches Ok((token, ticket)) ==> token == self@.version && ticket@ == ticket_of(self@, process_id@),
            result matches Err(error) ==> error matches ErrorKind::NotFound(name) && name@ == process_id@,
    {
        self.items.get_ticket(process_id)
    }

    fn get_tickets(&self) -> (result: Result<(FencingToken, Vec<Ticket>), ErrorKind>)
        ensures
            coherent(self@),
            result matches Ok((token, tickets)) && token == self@.version && ticket_models(tickets@) == tickets_of(
                self@.items,
            ),
    {
        self.items.get_tickets()
    }
}

} // verus!
