//! The error taxonomy of the runtime. Message-carrying errors return the
//! original value so the caller can reuse it: the mailbox hands envelopes
//! back, the context hands messages back.

use vstd::prelude::*;

verus! {

/// No live recipient, or every mailbox was closed. Carries the value back.
#[derive(Debug, PartialEq)]
pub struct SendError<T>(pub T);

/// Non-blocking send failure.
#[derive(Debug, PartialEq)]
pub enum TrySendError<T> {
    /// The mailbox is full; the value is returned.
    Full(T),
    /// The mailbox is closed; the value is returned.
    Closed(T),
}

/// Non-blocking receive failure.
#[derive(Clone, Copy, PartialEq, Eq, Structural, Debug)]
pub enum TryRecvError {
    /// The mailbox is open but holds nothing right now.
    Empty,
    /// The mailbox is closed and drained.
    Closed,
}

impl TryRecvError {
    pub fn is_closed(&self) -> (r: bool)
        ensures
            r == (*self == TryRecvError::Closed),
    {
        match self {
            TryRecvError::Closed => true,
            TryRecvError::Empty => false,
        }
    }
}

/// Request resolution failure.
#[derive(Debug, PartialEq)]
pub enum RequestError<T> {
    /// The request could not be delivered; the value is returned.
    Closed(T),
    /// Every recipient dropped its token.
    Ignored,
}

} // verus!
