//! The state machine of a one-shot channel.
//!
//! A [`Channel`] is what the two endpoints share. Each of its `&mut self` methods is one
//! indivisible step of one endpoint: it looks at the state, decides, and moves to the next state.
//! What has to happen outside the step (waking a task, dropping a value, freeing the channel) is
//! what the step returns, so that no code of the user runs in the middle of one.
//!
//! Every step has a specification of the same name with the suffix `_step`: from the state before
//! to the state after and the value returned.
use std::sync::Mutex;
use std::task::{Poll, Waker};
use vstd::prelude::*;

use crate::error::{RecvError, TryRecvError};

verus! {

/// The code of [`Channel::Empty`].
pub const EMPTY: u8 = 0b011;

/// The code of [`Channel::Receiving`].
pub const RECEIVING: u8 = 0b000;

/// The code of [`Channel::Awaking`].
pub const AWAKING: u8 = 0b001;

/// The code of [`Channel::Message`].
pub const MESSAGE: u8 = 0b100;

/// The code of [`Channel::Disconnected`].
pub const DISCONNECTED: u8 = 0b010;

/// The shared state of a one-shot channel for messages `T` and wakers `W`.
///
/// A value stands in the state exactly while it is published, that is, while the other endpoint may
/// take it; whoever moves the state on takes the value with it.
pub enum Channel<T, W> {
    /// No message or waker is published.
    Empty,
    /// The receiver has published a waker. It may reclaim it by returning to `Empty`, or the sender
    /// may move to `Awaking` and take it.
    Receiving(W),
    /// The sender owns the waker and any unpublished message while it publishes either a message or
    /// a disconnect. The receiver can only leave, by moving to `Disconnected`.
    Awaking,
    /// The sender has published a message and no longer accesses the channel.
    Message(T),
    /// No message can subsequently be received.
    Disconnected,
}

/// Something that an endpoint does to the channel or to a task.
///
/// The endpoints record their events in order: see [`Recv::events`](crate::Recv::events) and
/// [`Sender::events`](crate::Sender::events).
pub enum Event<T, W> {
    /// It locks the channel. What it does there is not in the record.
    Opened,
    /// It locks the channel and takes a step that finds the channel in the first state and leaves it in
    /// the second.
    Stepped(Channel<T, W>, Channel<T, W>),
    /// It uses the waker up to wake its task.
    Woke(W),
    /// It wakes the task of the waker, which it leaves to its owner.
    WokeByRef(W),
}

/// Whether there is a call of [`Mutex::new`] on this state of the channel that gave the mutex. What
/// the mutex holds later it does not say.
pub open spec fn made_around<T>(mutex: Mutex<Channel<T, Waker>>, state: Channel<T, Waker>) -> bool {
    call_ensures(Mutex::<Channel<T, Waker>>::new, (state,), mutex)
}

/// What [`Channel::begin_poll`] leaves to its caller.
pub enum PollStep<T, W> {
    /// The poll is complete.
    Ready(Result<T, RecvError>),
    /// The sender has not sent anything. The caller owns the waker of an earlier poll, if there was
    /// one, and goes on with [`Channel::register_waker`].
    Register(Option<W>),
    /// The sender is publishing. The caller wakes its own task, to poll again.
    WakeAgain,
}

/// What [`Channel::register_waker`] leaves to its caller.
pub enum Registration<T, W> {
    /// The sender will find the waker.
    Registered,
    /// The sender got there first: the poll is complete and the waker is not needed.
    Ready(Result<T, RecvError>, W),
    /// Another waker is registered, or in the hands of the sender, so that the channel does not accept
    /// one. The caller keeps its own.
    Occupied(W),
}

/// What [`Channel::disconnect`] leaves to the receiver.
pub enum Cleanup<T, W> {
    /// The sender is still there. It is responsible for freeing the channel.
    LeftToSender,
    /// The sender is gone. The receiver frees the channel, in which nothing is left.
    Deallocate,
    /// The sender is gone. The receiver drops the message and frees the channel.
    DropMessage(T),
    /// The sender is still there, and a waker is left to drop.
    DropWaker(W),
}

/// What [`Channel::begin_send`] leaves to the sender.
pub enum SendStep<T, W> {
    /// The message is published. The receiver owns it and the channel.
    Sent,
    /// The sender owns the waker, and publishes the message with
    /// [`Channel::finish_sender_awakening`].
    Wake(W, T),
    /// The receiver is gone. The sender keeps the message and frees the channel.
    Refused(T),
}

/// What [`Channel::begin_disconnect`] leaves to the sender.
pub enum DisconnectStep<W> {
    /// The disconnect is published. The receiver frees the channel.
    LeftToReceiver,
    /// The sender owns the waker, and publishes the disconnect with
    /// [`Channel::finish_sender_awakening`].
    Wake(W),
    /// The receiver is gone. The sender frees the channel.
    Deallocate,
}

/// What [`Channel::finish_sender_awakening`] leaves to the sender.
pub struct Handover<T> {
    /// Whether the receiver still owns the cleanup of the channel. If it has left meanwhile, the
    /// sender does.
    pub receiver_owns_allocation: bool,
    /// The message, where it was not published.
    pub unpublished: Option<T>,
}

impl<T, W> Channel<T, W> {
    /// The number that stands for the state.
    pub open spec fn code(self) -> u8 {
        match self {
            Channel::Empty => EMPTY,
            Channel::Receiving(_) => RECEIVING,
            Channel::Awaking => AWAKING,
            Channel::Message(_) => MESSAGE,
            Channel::Disconnected => DISCONNECTED,
        }
    }

    /// Whether the channel is closed.
    pub open spec fn closed(self) -> bool {
        self is Disconnected
    }

    /// The message in the channel, if there is one.
    pub open spec fn message(self) -> Option<T> {
        match self {
            Channel::Message(message) => Some(message),
            _ => None,
        }
    }

    /// What a poll answers in this state: the message, the disconnect, or that neither is there.
    pub open spec fn poll_answer(self) -> Poll<Result<T, RecvError>> {
        match self {
            Channel::Message(message) => Poll::Ready(Ok(message)),
            Channel::Disconnected => Poll::Ready(Err(RecvError::Disconnected)),
            _ => Poll::Pending,
        }
    }

    /// The step of [`Channel::try_recv`].
    pub open spec fn try_recv_step(self) -> (Self, Result<T, TryRecvError>) {
        match self {
            Channel::Message(message) => (Channel::Disconnected, Ok(message)),
            Channel::Disconnected => (self, Err(TryRecvError::Disconnected)),
            _ => (self, Err(TryRecvError::Empty)),
        }
    }

    /// The step of [`Channel::begin_poll`].
    pub open spec fn begin_poll_step(self) -> (Self, PollStep<T, W>) {
        match self {
            Channel::Empty => (self, PollStep::Register(None)),
            Channel::Receiving(waker) => (Channel::Empty, PollStep::Register(Some(waker))),
            Channel::Awaking => (self, PollStep::WakeAgain),
            Channel::Message(message) => (Channel::Disconnected, PollStep::Ready(Ok(message))),
            Channel::Disconnected => (self, PollStep::Ready(Err(RecvError::Disconnected))),
        }
    }

    /// The step of [`Channel::register_waker`].
    pub open spec fn register_waker_step(self, waker: W) -> (Self, Registration<T, W>) {
        match self {
            Channel::Empty => (Channel::Receiving(waker), Registration::Registered),
            Channel::Message(message) => (
                Channel::Disconnected,
                Registration::Ready(Ok(message), waker),
            ),
            Channel::Disconnected => (
                self,
                Registration::Ready(Err(RecvError::Disconnected), waker),
            ),
            _ => (self, Registration::Occupied(waker)),
        }
    }

    /// The step of [`Channel::reclaim_waker`].
    pub open spec fn reclaim_waker_step(self) -> (Self, Option<W>) {
        match self {
            Channel::Receiving(waker) => (Channel::Empty, Some(waker)),
            _ => (self, None),
        }
    }

    /// The step of [`Channel::disconnect`].
    pub open spec fn disconnect_step(self) -> (Self, Cleanup<T, W>) {
        (
            Channel::Disconnected,
            match self {
                Channel::Empty | Channel::Awaking => Cleanup::LeftToSender,
                Channel::Receiving(waker) => Cleanup::DropWaker(waker),
                Channel::Message(message) => Cleanup::DropMessage(message),
                Channel::Disconnected => Cleanup::Deallocate,
            },
        )
    }

    /// The step of [`Channel::begin_send`].
    pub open spec fn begin_send_step(self, message: T) -> (Self, SendStep<T, W>) {
        match self {
            Channel::Empty => (Channel::Message(message), SendStep::Sent),
            Channel::Receiving(waker) => (Channel::Awaking, SendStep::Wake(waker, message)),
            _ => (self, SendStep::Refused(message)),
        }
    }

    /// The step of [`Channel::begin_disconnect`].
    pub open spec fn begin_disconnect_step(self) -> (Self, DisconnectStep<W>) {
        match self {
            Channel::Empty => (Channel::Disconnected, DisconnectStep::LeftToReceiver),
            Channel::Receiving(waker) => (Channel::Awaking, DisconnectStep::Wake(waker)),
            _ => (self, DisconnectStep::Deallocate),
        }
    }

    /// The state that publishes a message, or without one a disconnect.
    pub open spec fn published(message: Option<T>) -> Self {
        match message {
            Some(message) => Channel::Message(message),
            None => Channel::Disconnected,
        }
    }

    /// The step of [`Channel::finish_sender_awakening`].
    pub open spec fn finish_sender_awakening_step(self, message: Option<T>) -> (Self, Handover<T>) {
        match self {
            Channel::Awaking => (
                Self::published(message),
                Handover { receiver_owns_allocation: true, unpublished: None },
            ),
            _ => (self, Handover { receiver_owns_allocation: false, unpublished: message }),
        }
    }

    /// A channel in which nothing has happened yet.
    pub fn new() -> (channel: Self)
        ensures
            channel == Channel::<T, W>::Empty,
    {
        Channel::Empty
    }

    /// The number that stands for the state.
    pub fn state(&self) -> (code: u8)
        ensures
            code == self.code(),
    {
        match self {
            Channel::Empty => EMPTY,
            Channel::Receiving(_) => RECEIVING,
            Channel::Awaking => AWAKING,
            Channel::Message(_) => MESSAGE,
            Channel::Disconnected => DISCONNECTED,
        }
    }

    /// Whether no message can subsequently be received.
    pub fn is_closed(&self) -> (closed: bool)
        ensures
            closed == self.closed(),
        opens_invariants none
        no_unwind
    {
        match self {
            Channel::Disconnected => true,
            _ => false,
        }
    }

    /// Whether there is a message, ready to be received.
    pub fn has_message(&self) -> (has: bool)
        ensures
            has == (self.message() is Some),
        opens_invariants none
        no_unwind
    {
        match self {
            Channel::Message(_) => true,
            _ => false,
        }
    }

    /// Moves to the state `next` and returns the one before.
    fn swap(&mut self, next: Self) -> (previous: Self)
        ensures
            previous == *old(self),
            *final(self) == next,
        opens_invariants none
        no_unwind
    {
        let mut state = next;
        std::mem::swap(self, &mut state);
        state
    }

    /// Receives the message if there is one.
    ///
    /// While the sender is there and has not sent anything, in whichever state, the answer is
    /// [`TryRecvError::Empty`].
    pub fn try_recv(&mut self) -> (result: Result<T, TryRecvError>)
        ensures
            (*final(self), result) == old(self).try_recv_step(),
        opens_invariants none
        no_unwind
    {
        match self.swap(Channel::Disconnected) {
            Channel::Message(message) => Ok(message),
            Channel::Disconnected => Err(TryRecvError::Disconnected),
            state => {
                *self = state;
                Err(TryRecvError::Empty)
            },
        }
    }

    /// Starts to poll for the message.
    ///
    /// A waker that an earlier poll has registered is taken back: its place is for the waker of
    /// this poll.
    pub fn begin_poll(&mut self) -> (step: PollStep<T, W>)
        ensures
            (*final(self), step) == old(self).begin_poll_step(),
        opens_invariants none
        no_unwind
    {
        match self.swap(Channel::Empty) {
            Channel::Empty => PollStep::Register(None),
            Channel::Receiving(waker) => PollStep::Register(Some(waker)),
            Channel::Awaking => {
                *self = Channel::Awaking;
                PollStep::WakeAgain
            },
            Channel::Message(message) => {
                *self = Channel::Disconnected;
                PollStep::Ready(Ok(message))
            },
            Channel::Disconnected => {
                *self = Channel::Disconnected;
                PollStep::Ready(Err(RecvError::Disconnected))
            },
        }
    }

    /// Whether a waker may be registered: none is registered, and none is in the hands of the sender.
    pub fn accepts_waker(&self) -> (accepts: bool)
        ensures
            accepts == (!(*self is Receiving) && !(*self is Awaking)),
        opens_invariants none
        no_unwind
    {
        match self {
            Channel::Receiving(_) | Channel::Awaking => false,
            _ => true,
        }
    }

    /// Publishes the waker of the receiver, or completes the poll where the sender has published
    /// something since [`Channel::begin_poll`].
    pub fn register_waker(&mut self, waker: W) -> (registration: Registration<T, W>)
        requires
            !(*old(self) is Receiving),
            !(*old(self) is Awaking),
        ensures
            (*final(self), registration) == old(self).register_waker_step(waker),
            !(registration is Occupied),
        opens_invariants none
        no_unwind
    {
        match self.swap(Channel::Disconnected) {
            Channel::Message(message) => Registration::Ready(Ok(message), waker),
            Channel::Disconnected => Registration::Ready(Err(RecvError::Disconnected), waker),
            _ => {
                *self = Channel::Receiving(waker);
                Registration::Registered
            },
        }
    }

    /// Takes a registered waker back, so that the sender cannot find it any more.
    pub fn reclaim_waker(&mut self) -> (waker: Option<W>)
        ensures
            (*final(self), waker) == old(self).reclaim_waker_step(),
        opens_invariants none
        no_unwind
    {
        match self.swap(Channel::Empty) {
            Channel::Receiving(waker) => Some(waker),
            state => {
                *self = state;
                None
            },
        }
    }

    /// Closes the channel for the receiver, which is leaving.
    pub fn disconnect(&mut self) -> (cleanup: Cleanup<T, W>)
        ensures
            (*final(self), cleanup) == old(self).disconnect_step(),
        opens_invariants none
        no_unwind
    {
        match self.swap(Channel::Disconnected) {
            Channel::Empty | Channel::Awaking => Cleanup::LeftToSender,
            Channel::Receiving(waker) => Cleanup::DropWaker(waker),
            Channel::Message(message) => Cleanup::DropMessage(message),
            Channel::Disconnected => Cleanup::Deallocate,
        }
    }

    /// Starts to send the message. Where a receiver is waiting, the sender takes its waker first
    /// and publishes the message with [`Channel::finish_sender_awakening`].
    pub fn begin_send(&mut self, message: T) -> (step: SendStep<T, W>)
        ensures
            (*final(self), step) == old(self).begin_send_step(message),
        opens_invariants none
        no_unwind
    {
        match self.swap(Channel::Awaking) {
            Channel::Empty => {
                *self = Channel::Message(message);
                SendStep::Sent
            },
            Channel::Receiving(waker) => SendStep::Wake(waker, message),
            state => {
                *self = state;
                SendStep::Refused(message)
            },
        }
    }

    /// Starts to disconnect the sender, which is leaving without having sent anything. Where a
    /// receiver is waiting, the sender takes its waker first and publishes the disconnect with
    /// [`Channel::finish_sender_awakening`].
    pub fn begin_disconnect(&mut self) -> (step: DisconnectStep<W>)
        ensures
            (*final(self), step) == old(self).begin_disconnect_step(),
        opens_invariants none
        no_unwind
    {
        match self.swap(Channel::Awaking) {
            Channel::Empty => {
                *self = Channel::Disconnected;
                DisconnectStep::LeftToReceiver
            },
            Channel::Receiving(waker) => DisconnectStep::Wake(waker),
            state => {
                *self = state;
                DisconnectStep::Deallocate
            },
        }
    }

    /// Ends `Awaking`: publishes the message, or without one the disconnect. Where the receiver has
    /// left meanwhile, nothing is published.
    pub fn finish_sender_awakening(&mut self, message: Option<T>) -> (handover: Handover<T>)
        ensures
            (*final(self), handover) == old(self).finish_sender_awakening_step(message),
        opens_invariants none
        no_unwind
    {
        match self {
            Channel::Awaking => {
                *self =
                match message {
                    Some(message) => Channel::Message(message),
                    None => Channel::Disconnected,
                };
                Handover { receiver_owns_allocation: true, unpublished: None }
            },
            _ => Handover { receiver_owns_allocation: false, unpublished: message },
        }
    }
}

/// Each state has a code of its own.
pub proof fn law_codes_differ<T, W>(a: Channel<T, W>, b: Channel<T, W>)
    requires
        a.code() == b.code(),
    ensures
        a is Empty <==> b is Empty,
        a is Receiving <==> b is Receiving,
        a is Awaking <==> b is Awaking,
        a is Message <==> b is Message,
        a is Disconnected <==> b is Disconnected,
{
}

/// A sender that finds the receiver there moves the state on by adding one to its code when it
/// sends, and by flipping the lowest bit of its code when it disconnects.
pub proof fn law_sender_arithmetic<T, W>(channel: Channel<T, W>, message: T)
    requires
        channel is Empty || channel is Receiving,
    ensures
        channel.begin_send_step(message).0.code() == channel.code() + 1,
        channel.begin_disconnect_step().0.code() == channel.code() ^ 1,
{
    assert(EMPTY ^ 1 == DISCONNECTED) by (bit_vector);
    assert(RECEIVING ^ 1 == AWAKING) by (bit_vector);
}

/// A message is received once: after that the channel is closed and empty, and every attempt to
/// receive fails.
pub proof fn law_received_once<T, W>(channel: Channel<T, W>)
    requires
        channel.try_recv_step().1 is Ok,
    ensures
        channel.message() == Some(channel.try_recv_step().1->Ok_0),
        channel.try_recv_step().0.closed(),
        channel.try_recv_step().0.message() is None,
        channel.try_recv_step().0.try_recv_step().1 == Err::<T, TryRecvError>(
            TryRecvError::Disconnected,
        ),
        channel.try_recv_step().0.poll_answer() == Poll::<Result<T, RecvError>>::Ready(
            Err(RecvError::Disconnected),
        ),
{
}

/// A poll that no step of the sender interrupts answers for the state that it has found. If the
/// message or the disconnect is there, the channel is then closed, and otherwise, unless the sender
/// is publishing, it holds the waker of this poll.
pub proof fn law_uninterrupted_poll<T, W>(channel: Channel<T, W>, waker: W)
    ensures
        match channel.begin_poll_step() {
            (after, PollStep::Ready(result)) => {
                &&& channel.poll_answer() == Poll::Ready(result)
                &&& after.closed()
            },
            (after, PollStep::Register(_)) => {
                &&& channel.poll_answer() is Pending
                &&& after.register_waker_step(waker) == (
                    Channel::<T, W>::Receiving(waker),
                    Registration::<T, W>::Registered,
                )
            },
            (after, PollStep::WakeAgain) => {
                &&& channel.poll_answer() is Pending
                &&& channel is Awaking
                &&& after == channel
            },
        },
{
}

/// A send that no step of the receiver interrupts succeeds if the channel is empty or a receiver is
/// waiting, and then only. The channel then holds the message.
pub proof fn law_uninterrupted_send<T, W>(channel: Channel<T, W>, message: T)
    ensures
        match channel.begin_send_step(message) {
            (after, SendStep::Sent) => {
                &&& channel is Empty
                &&& after == Channel::<T, W>::Message(message)
            },
            (after, SendStep::Wake(waker, held)) => {
                &&& channel == Channel::<T, W>::Receiving(waker)
                &&& after.finish_sender_awakening_step(Some(held)) == (
                    Channel::<T, W>::Message(message),
                    Handover::<T> { receiver_owns_allocation: true, unpublished: None },
                )
            },
            (after, SendStep::Refused(back)) => {
                &&& !(channel is Empty) && !(channel is Receiving)
                &&& after == channel
                &&& back == message
            },
        },
{
}

/// A future that is dropped, and that no step of the sender interrupts, closes the channel and takes
/// out of it whatever it held.
pub proof fn law_uninterrupted_drop<T, W>(channel: Channel<T, W>)
    ensures
        ({
            let (between, waker) = channel.reclaim_waker_step();
            let (after, cleanup) = between.disconnect_step();
            &&& after.closed()
            &&& waker == match channel {
                Channel::Receiving(waker) => Some(waker),
                _ => None,
            }
            &&& cleanup == match channel {
                Channel::Message(message) => Cleanup::<T, W>::DropMessage(message),
                Channel::Disconnected => Cleanup::Deallocate,
                _ => Cleanup::LeftToSender,
            }
        }),
{
}

} // verus!
