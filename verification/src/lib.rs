//! A one-shot channel is used for sending a single message between asynchronous tasks. The
//! [`channel()`] function is used to create a [`Sender`] and [`Receiver`] pair that form the channel.
//!
//! The sender is used by the producer to send the value. The receiver is used by the consumer to
//! receive the value: it can be asked for the message with [`Receiver::try_recv`], or awaited. The
//! sender and receiver can be used by separate tasks, on separate threads.
//!
//! If the sender disconnects without sending, the receiver will fail with [`RecvError`]. If the
//! receiver is dropped before receiving, the sender will fail with [`SendError`].
//!
//! What the endpoints share is a [`Channel`], behind a lock that is held for one step at a time.
//! What a step does in each state is the contract of the [`Channel`] method that takes it. The
//! endpoints record what they do, and their contracts fix the record: which steps they take on their
//! channel and which wakers they wake, in order, and no more. What follows where the steps of two
//! endpoints interleave, in whichever order, is proved in [`protocol`] and [`calls`] of a model of the
//! endpoints, and [`refinement`] ties their contracts to it.
use std::task::Waker;
use vstd::prelude::*;

pub mod attempt;
pub mod calls;
pub mod channel;
pub mod door;
mod error;
pub mod platform;
pub mod protocol;
pub mod receiver;
pub mod refinement;
pub mod sender;
pub mod shared;

pub use crate::channel::{
    Channel, Cleanup, DisconnectStep, Event, Handover, PollStep, Registration, SendStep, AWAKING,
    DISCONNECTED, EMPTY, MESSAGE, RECEIVING,
};
pub use crate::error::{RecvError, SendError, TryRecvError};
pub use crate::receiver::{Receiver, Recv};
pub use crate::sender::{Awakened, Awakening, Sender, Sending};

verus! {

/// What the two endpoints of a new channel have in common: the channel, which was made empty. The sender
/// has done nothing yet.
pub open spec fn created<T>(sender: Sender<T>, receiver: Receiver<T>) -> bool {
    &&& sender.channel() == receiver.channel()
    &&& sender.events() == Seq::<Event<T, Waker>>::empty()
    &&& crate::channel::made_around(receiver.channel(), Channel::Empty)
}

/// Creates a new oneshot channel and returns the [`Sender`] and [`Receiver`].
pub fn channel<T>() -> (endpoints: (Sender<T>, Receiver<T>))
    ensures
        created(endpoints.0, endpoints.1),
{
    let (hold, shared) = crate::shared::pair();
    (Sender::new(hold), Receiver::new(shared))
}

} // verus!
