//! The errors of the engine that keeps its state in memory.

use vstd::prelude::*;
use vstd::string::*;

verus! {

#[derive(Debug, Clone, PartialEq, Eq)]
pub enum ErrorKind {
    /// No ticket is held by the process of this name.
    NotFound(String),
    /// The next value or version does not fit in 64 bits.
    Overflow,
}

impl ErrorKind {
    /// The error in words.
    pub fn message(&self) -> (text: String)
        ensures
            self matches ErrorKind::NotFound(process_id) ==> text@ == "ticket not found for process_id "@
                + process_id@,
            self is Overflow ==> text@ == "the next value does not fit in 64 bits"@,
    {
        match self {
            ErrorKind::NotFound(process_id) => {
                let mut text = "ticket not found for process_id ".to_owned();
                text.append(process_id.as_str());
                text
            },
            ErrorKind::Overflow => "the next value does not fit in 64 bits".to_owned(),
        }
    }
}

} // verus!
