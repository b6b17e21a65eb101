//! Monotonic counters and FIFO queues for processes that coordinate through
//! one shared record per entity. Every change of an entity gives a fencing
//! token: the entity's version after the change.
//!
//! `local` holds the engine that keeps its state in memory. `aws` holds the
//! engine that keeps it in a table with conditional writes: the rows, their
//! encoding, and the decisions of each operation between two calls of the
//! table. `model` states what a queue is and what joining and leaving do to
//! it, for both engines. `tags` holds the tags of a participant, `time` the
//! jitter of the waiting times, and `cli` what the command line hands over.

use vstd::prelude::*;

pub mod string;
pub mod assoc;
pub mod cli;
pub mod tags;
pub mod model;
pub mod error;
pub mod time;
pub mod local;
pub mod aws;

use crate::model::TicketModel;
use crate::tags::Tags;

verus! {

/// The version of an entity after an operation: a later token is never
/// smaller than an earlier one.
pub type FencingToken = u64;

/// A counter that hands out strictly increasing values.
pub trait MonotonicCounter {
    type Error;

    /// The value handed out last, 0 if none was.
    fn get_value(&self) -> Result<u64, Self::Error>;

    /// Hands out the next value.
    fn next_value(&mut self) -> Result<u64, Self::Error>;
}

/// What a caller learns of one participant of a queue.
#[derive(Debug, Clone, PartialEq, PartialOrd)]
pub struct Ticket {
    pub process_id: String,
    /// The sequence number given at the join; it never changes.
    pub counter: u64,
    /// The participant's index in the queue when the ticket was read.
    pub position: usize,
    pub tags: Tags,
}

impl View for Ticket {
    type V = TicketModel;

    open spec fn view(&self) -> TicketModel {
        TicketModel {
            process_id: self.process_id@,
            counter: self.counter,
            position: self.position as int,
            tags: self.tags@,
        }
    }
}

impl Ticket {
    pub fn new(process_id: String, counter: u64, position: usize, tags: Tags) -> (ticket: Ticket)
        ensures
            ticket.process_id == process_id,
            ticket.counter == counter,
            ticket.position == position,
            ticket.tags == tags,
            ticket@ == (TicketModel { process_id: process_id@, counter, position: position as int, tags: tags@ }),
    {
        Ticket { process_id, counter, position, tags }
    }
}

/// The tickets of `tickets`, each as the model has it.
pub open spec fn ticket_models(tickets: Seq<Ticket>) -> Seq<TicketModel> {
    tickets.map_values(|t: Ticket| t@)
}

/// A queue of named participants in the order in which they joined.
pub trait MonotonicQueue {
    type Error;

    /// Puts `process_id` at the back of the queue, with `tags` (none if
    /// `None`). A participant that is in the queue already keeps its place
    /// and its tags.
    fn join_queue(&mut self, process_id: String, tags: Option<Tags>) -> Result<
        (FencingToken, Ticket),
        Self::Error,
    >;

    /// Takes `process_id` out of the queue.
    fn leave_queue(&mut self, process_id: &str) -> Result<FencingToken, Self::Error>;

    /// The ticket of `process_id`.
    fn get_ticket(&self, process_id: &str) -> Result<(FencingToken, Ticket), Self::Error>;

    /// The tickets of all participants, from the front of the queue.
    fn get_tickets(&self) -> Result<(FencingToken, Vec<Ticket>), Self::Error>;
}

} // verus!
