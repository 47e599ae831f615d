//! The sending endpoint of a channel.
use std::sync::Mutex;
use std::task::Waker;
use vstd::prelude::*;

use crate::channel::{Channel, DisconnectStep, Event, Handover, SendStep};
use crate::error::SendError;
use crate::platform::release;
use crate::shared::Hold;

verus! {

/// What the sender does when it sends the message, by its record before and after, and what comes back.
///
/// Where a receiver is waiting, the sender takes its waker and goes on.
pub open spec fn sent<T>(
    mutex: Mutex<Channel<T, Waker>>,
    before: Seq<Event<T, Waker>>,
    after: Seq<Event<T, Waker>>,
    message: T,
    back: Option<T>,
) -> bool {
    exists|found: Channel<T, Waker>|
        {
            let (left, step) = found.begin_send_step(message);
            let between = before.push(Event::Stepped(found, left));
            &&& #[trigger] crate::shared::stepped(mutex, found, found.begin_send_step(message).0)
            &&& match step {
                SendStep::Sent => {
                    &&& after == between
                    &&& back is None
                },
                SendStep::Wake(waker, message) => published(
                    mutex,
                    between,
                    after,
                    waker,
                    Some(message),
                    back,
                ),
                SendStep::Refused(message) => {
                    &&& after == between
                    &&& back == Some(message)
                },
            }
        }
}

/// What the sender does when it leaves without having sent anything, by its record before and after.
///
/// Where a receiver is waiting, the sender takes its waker and goes on.
pub open spec fn left_by_sender<T>(
    mutex: Mutex<Channel<T, Waker>>,
    before: Seq<Event<T, Waker>>,
    after: Seq<Event<T, Waker>>,
) -> bool {
    exists|found: Channel<T, Waker>|
        {
            let (left, step) = found.begin_disconnect_step();
            let between = before.push(Event::Stepped(found, left));
            &&& #[trigger] crate::shared::stepped(mutex, found, found.begin_disconnect_step().0)
            &&& match step {
                DisconnectStep::LeftToReceiver => after == between,
                DisconnectStep::Wake(waker) => published(mutex, between, after, waker, None, None),
                DisconnectStep::Deallocate => after == between,
            }
        }
}

/// What a sender that owns the waker of the receiver does, by its record before and after, and what
/// comes back.
///
/// It publishes the message, or without one the disconnect, and then wakes the receiver. Where the
/// receiver has left meanwhile, it drops the waker, and the message comes back.
pub open spec fn published<T>(
    mutex: Mutex<Channel<T, Waker>>,
    before: Seq<Event<T, Waker>>,
    after: Seq<Event<T, Waker>>,
    waker: Waker,
    message: Option<T>,
    back: Option<T>,
) -> bool {
    exists|found: Channel<T, Waker>|
        {
            let (left, handover) = found.finish_sender_awakening_step(message);
            let between = before.push(Event::Stepped(found, left));
            &&& #[trigger] crate::shared::stepped(
                mutex,
                found,
                found.finish_sender_awakening_step(message).0,
            )
            &&& back == handover.unpublished
            &&& if handover.receiver_owns_allocation {
                &&& after == between.push(Event::Woke(waker))
                &&& crate::shared::woken(waker)
            } else {
                &&& after == between
                &&& crate::platform::released(waker)
            }
        }
}

/// Sends a value to the associated [`Receiver`](crate::Receiver).
///
/// A sender ends with [`Sender::send`] or [`Sender::disconnect`]. One that merely goes out of scope
/// leaves the receiver waiting: a destructor must not unwind, and to disconnect may mean to wake a
/// task, which is for its executor to do, in whichever way.
#[must_use]
#[verifier::reject_recursive_types(T)]
pub struct Sender<T> {
    hold: Hold<T>,
}

impl<T> Unpin for Sender<T> {

}

/// How far [`Sender::begin_send`] has got.
///
/// One that is [`Sending::Awaking`] is to be finished: see [`Awakening`].
#[must_use]
#[verifier::reject_recursive_types(T)]
pub enum Sending<T> {
    /// The message is sent.
    Sent,
    /// A receiver is waiting. The message is sent by [`Awakening::finish`].
    Awaking(Awakening<T>),
    /// The receiver is gone.
    Refused(SendError<T>),
}

/// A sender that owns the waker of a waiting receiver, and has yet to publish what the receiver is
/// waiting for: a message, or without one the disconnect.
///
/// It ends with [`Awakening::finish`]. One that merely goes out of scope leaves the channel as it is,
/// with the sender publishing: every poll then wakes its own task, and none completes.
#[must_use]
#[verifier::reject_recursive_types(T)]
pub struct Awakening<T> {
    sender: Sender<T>,
    waker: Waker,
    message: Option<T>,
}

/// What [`Awakening::finish`] leaves to its caller.
///
/// If the receiver is still there, it is waiting, and is not woken unless the caller wakes it.
#[must_use]
pub struct Awakened<T> {
    /// The waker of the receiver.
    pub waker: Waker,
    /// Whether the receiver is still there. It is then for the caller to wake it.
    pub receiver_owns_allocation: bool,
    /// The message, where the receiver has left before it was published.
    pub unpublished: Option<T>,
}

impl<T> Awakened<T> {
    /// What the last step of the sender left to it.
    pub open spec fn handover(self) -> Handover<T> {
        Handover {
            receiver_owns_allocation: self.receiver_owns_allocation,
            unpublished: self.unpublished,
        }
    }
}

impl<T> Sending<T> {
    /// Whether the send of the sender has got as far as its first step has left it. If that was the
    /// last one, the sender is gone.
    pub open spec fn follows(
        self,
        sender: Sender<T>,
        event: Event<T, Waker>,
        step: SendStep<T, Waker>,
    ) -> bool {
        match step {
            SendStep::Sent => {
                &&& self is Sent
                &&& sender.gone_after(sender.events().push(event))
            },
            SendStep::Wake(waker, message) => {
                &&& self matches Sending::Awaking(awakening)
                &&& awakening.channel() == sender.channel()
                &&& awakening.events() == sender.events().push(event)
                &&& awakening.waker() == waker
                &&& awakening.message() == Some(message)
            },
            SendStep::Refused(message) => {
                &&& self matches Sending::Refused(error)
                &&& error@ == message
                &&& sender.gone_after(sender.events().push(event))
            },
        }
    }
}

impl<T> Awakening<T> {
    /// The channel that the sender belongs to.
    pub closed spec fn channel(&self) -> Mutex<Channel<T, Waker>> {
        self.sender.channel()
    }

    /// What the sender has done, in order.
    pub closed spec fn events(&self) -> Seq<Event<T, Waker>> {
        self.sender.events()
    }

    /// The waker of the receiver.
    pub closed spec fn waker(&self) -> Waker {
        self.waker
    }

    /// The message to publish.
    pub closed spec fn message(&self) -> Option<T> {
        self.message
    }

    /// Publishes the message or the disconnect. Where the receiver has left meanwhile, the message
    /// is given back.
    pub fn finish(self) -> (awakened: Awakened<T>)
        ensures
            awakened.waker == self.waker(),
            exists|found: Channel<T, Waker>, last: Sender<T>|
                {
                    let (left, handover) = found.finish_sender_awakening_step(self.message());
                    &&& #[trigger] crate::shared::stepped(
                        self.channel(),
                        found,
                        found.finish_sender_awakening_step(self.message()).0,
                    )
                    &&& #[trigger] crate::platform::released(last)
                    &&& last.channel() == self.channel()
                    &&& last.events() == self.events().push(Event::Stepped(found, left))
                    &&& awakened.handover() == handover
                },
    {
        let Awakening { sender, waker, message } = self;
        assert(self.channel() == sender.hold.channel());
        let mut sender = sender;
        let handover = sender.hold.finish_sender_awakening(message);
        release(sender);
        Awakened {
            waker,
            receiver_owns_allocation: handover.receiver_owns_allocation,
            unpublished: handover.unpublished,
        }
    }
}

impl<T> Sender<T> {
    /// The channel that the sender belongs to.
    pub closed spec fn channel(&self) -> Mutex<Channel<T, Waker>> {
        self.hold.channel()
    }

    /// What the sender has done, in order.
    pub closed spec fn events(&self) -> Seq<Event<T, Waker>> {
        self.hold.events()
    }

    /// Whether the sender has let go of its channel when its record was `events`, so that it does
    /// nothing more.
    pub open spec fn gone_after(self, events: Seq<Event<T, Waker>>) -> bool {
        exists|last: Sender<T>|
            {
                &&& #[trigger] crate::platform::released(last)
                &&& last.channel() == self.channel()
                &&& last.events() == events
            }
    }

    /// The sender of the channel.
    pub(crate) fn new(hold: Hold<T>) -> (sender: Self)
        ensures
            sender.channel() == hold.channel(),
            sender.events() == hold.events(),
        opens_invariants none
        no_unwind
    {
        Sender { hold }
    }

    /// Returns true if the associated [`Receiver`](crate::Receiver) was dropped before receiving a
    /// message. A message that is sent then is given back.
    pub fn is_closed(&self) -> (closed: bool)
        ensures
            crate::shared::observed_closed(self.channel(), closed),
        opens_invariants none
        no_unwind
    {
        self.hold.is_closed()
    }

    /// Starts to send the message.
    pub fn begin_send(self, message: T) -> (sending: Sending<T>)
        ensures
            exists|found: Channel<T, Waker>|
                {
                    let (left, step) = found.begin_send_step(message);
                    &&& #[trigger] crate::shared::stepped(
                        self.channel(),
                        found,
                        found.begin_send_step(message).0,
                    )
                    &&& sending.follows(self, Event::Stepped(found, left), step)
                },
    {
        assert(self.channel() == self.hold.channel());
        let mut sender = self;
        match sender.hold.begin_send(message) {
            SendStep::Sent => {
                release(sender);
                Sending::Sent
            },
            SendStep::Wake(waker, message) => Sending::Awaking(
                Awakening { sender, waker, message: Some(message) },
            ),
            SendStep::Refused(message) => {
                release(sender);
                Sending::Refused(SendError::new(message))
            },
        }
    }

    /// Sends the message, and wakes the receiver if it is waiting.
    ///
    /// If the receiver is gone, or leaves before the message is published, the error gives the
    /// message back.
    pub fn send(self, message: T) -> (result: Result<(), SendError<T>>)
        ensures
            result matches Err(error) ==> error@ == message,
            exists|events: Seq<Event<T, Waker>>|
                {
                    &&& #[trigger] self.gone_after(events)
                    &&& sent(
                        self.channel(),
                        self.events(),
                        events,
                        message,
                        match result {
                            Ok(()) => None,
                            Err(error) => Some(error@),
                        },
                    )
                },
    {
        let mut sender = self;
        let back = sender.deliver(message);
        let ghost events = sender.events();
        release(sender);
        assert(self.gone_after(events));
        match back {
            Some(message) => Err(SendError::new(message)),
            None => Ok(()),
        }
    }

    /// Disconnects without sending anything, and wakes the receiver if it is waiting.
    pub fn disconnect(self)
        ensures
            exists|events: Seq<Event<T, Waker>>|
                {
                    &&& #[trigger] self.gone_after(events)
                    &&& left_by_sender(self.channel(), self.events(), events)
                },
    {
        let mut sender = self;
        sender.leave();
        let ghost events = sender.events();
        // The channel is freed with the last hold on it.
        release(sender);
        assert(self.gone_after(events));
    }

    /// Sends the message. It comes back if the receiver is gone, or leaves before it is published.
    fn deliver(&mut self, message: T) -> (back: Option<T>)
        ensures
            final(self).channel() == old(self).channel(),
            sent(old(self).channel(), old(self).events(), final(self).events(), message, back),
    {
        match self.hold.begin_send(message) {
            SendStep::Sent => None,
            SendStep::Wake(waker, message) => self.publish(waker, Some(message)),
            SendStep::Refused(message) => Some(message),
        }
    }

    /// Tells the receiver that nothing will be sent.
    fn leave(&mut self)
        ensures
            final(self).channel() == old(self).channel(),
            left_by_sender(old(self).channel(), old(self).events(), final(self).events()),
    {
        match self.hold.begin_disconnect() {
            DisconnectStep::LeftToReceiver | DisconnectStep::Deallocate => {},
            DisconnectStep::Wake(waker) => {
                release(self.publish(waker, None));
            },
        }
    }

    /// Publishes the message or the disconnect, and wakes the receiver. Where the receiver has left
    /// meanwhile, the message comes back.
    fn publish(&mut self, waker: Waker, message: Option<T>) -> (back: Option<T>)
        ensures
            final(self).channel() == old(self).channel(),
            published(
                old(self).channel(),
                old(self).events(),
                final(self).events(),
                waker,
                message,
                back,
            ),
    {
        let handover = self.hold.finish_sender_awakening(message);
        if handover.receiver_owns_allocation {
            self.hold.wake(waker);
        } else {
            release(waker);
        }
        handover.unpublished
    }
}

} // verus!
