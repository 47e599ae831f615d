//! The errors that the endpoints of a channel report.
use vstd::prelude::*;

verus! {

/// Error returned by [`Receiver::try_recv`](crate::Receiver::try_recv).
#[derive(Debug, PartialEq, Eq, Structural)]
pub enum TryRecvError {
    /// This channel is currently empty, but the sender has not yet disconnected, so data may yet
    /// become available.
    Empty,
    /// The sender has become disconnected, and there will never be any more data received on it.
    Disconnected,
}

impl Clone for TryRecvError {
    fn clone(&self) -> (copy: Self)
        ensures
            copy == *self,
    {
        match self {
            TryRecvError::Empty => TryRecvError::Empty,
            TryRecvError::Disconnected => TryRecvError::Disconnected,
        }
    }
}

impl TryRecvError {
    /// What the error says to a reader.
    pub open spec fn text(self) -> Seq<char> {
        match self {
            TryRecvError::Empty => "receiving on an empty channel"@,
            TryRecvError::Disconnected => "receiving on a closed channel"@,
        }
    }

    /// Describes the error.
    pub fn to_string(&self) -> (text: String)
        ensures
            text@ == self.text(),
    {
        match self {
            TryRecvError::Empty => "receiving on an empty channel".to_owned(),
            TryRecvError::Disconnected => "receiving on a closed channel".to_owned(),
        }
    }
}

/// An error returned when awaiting the message via [`Receiver`](crate::Receiver).
///
/// This error indicates that the corresponding [`Sender`](crate::Sender) disconnected before sending
/// any message, or that the message was already received.
#[derive(Debug, PartialEq, Eq, Structural)]
pub enum RecvError {
    /// The sender has become disconnected, and there will never be any more data received on it.
    Disconnected,
}

impl Clone for RecvError {
    fn clone(&self) -> (copy: Self)
        ensures
            copy == *self,
    {
        RecvError::Disconnected
    }
}

impl RecvError {
    /// Describes the error.
    pub fn to_string(&self) -> (text: String)
        ensures
            text@ == "receiving on a closed channel"@,
    {
        "receiving on a closed channel".to_owned()
    }
}

/// Error returned by [`Sender::send`](crate::Sender::send): the receiver is gone, and the error
/// owns the message that nobody will receive.
#[derive(Debug)]
pub struct SendError<T> {
    message: T,
}

impl<T> View for SendError<T> {
    type V = T;

    /// The message that was not sent.
    closed spec fn view(&self) -> T {
        self.message
    }
}

impl<T> SendError<T> {
    /// Wraps the message that could not be sent.
    pub(crate) fn new(message: T) -> (error: Self)
        ensures
            error@ == message,
    {
        SendError { message }
    }

    /// Borrows the message that was not sent.
    pub fn as_inner(&self) -> (message: &T)
        ensures
            *message == self@,
    {
        &self.message
    }

    /// Gives the message back.
    pub fn into_inner(self) -> (message: T)
        ensures
            message == self@,
    {
        self.message
    }
}

} // verus!
