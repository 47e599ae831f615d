//! The receiving endpoint of a channel.
use std::cell::Cell;
use std::future::{Future, IntoFuture};
use std::marker::PhantomData;
use std::pin::Pin;
use std::sync::Mutex;
use std::task::{Context, Poll, Waker};
use vstd::prelude::*;

use crate::channel::{Channel, Event, PollStep, Registration};
use crate::error::{RecvError, TryRecvError};
use crate::platform::release;
use crate::shared::{Hold, Shared};

verus! {

/// What a receiver that closes its channel does, by its record before and after.
///
/// It drops whatever was in the channel.
pub open spec fn closed_by_receiver<T>(
    mutex: Mutex<Channel<T, Waker>>,
    before: Seq<Event<T, Waker>>,
    after: Seq<Event<T, Waker>>,
) -> bool {
    exists|found: Channel<T, Waker>|
        {
            let (left, cleanup) = found.disconnect_step();
            &&& #[trigger] crate::shared::stepped(mutex, found, found.disconnect_step().0)
            &&& after == before.push(Event::Stepped(found, left))
            &&& crate::platform::released(cleanup)
        }
}

/// What a receiver that is not a future does to its channel when it is dropped: through a hold that
/// is gone with it, it closes the channel, and does no more.
pub open spec fn left_by_receiver<T>(mutex: Mutex<Channel<T, Waker>>) -> bool {
    exists|last: Hold<T>|
        {
            &&& #[trigger] crate::platform::released(last)
            &&& last.channel() == mutex
            &&& closed_by_receiver(mutex, Seq::empty(), last.events())
        }
}

/// What a future does to its channel when it is dropped, by its record before and after.
///
/// It takes back its waker first, so that the sender cannot take it too, and drops it. The channel is
/// then empty for a moment, in which the sender may still send or disconnect. Then it closes the
/// channel.
pub open spec fn left_by_future<T>(
    mutex: Mutex<Channel<T, Waker>>,
    before: Seq<Event<T, Waker>>,
    after: Seq<Event<T, Waker>>,
) -> bool {
    exists|found: Channel<T, Waker>|
        {
            let (left, waker) = found.reclaim_waker_step();
            &&& #[trigger] crate::shared::stepped(mutex, found, found.reclaim_waker_step().0)
            &&& crate::platform::released(waker)
            &&& closed_by_receiver(mutex, before.push(Event::Stepped(found, left)), after)
        }
}

/// What an attempt to receive does to the channel, and what it answers.
pub open spec fn tried<T>(
    mutex: Mutex<Channel<T, Waker>>,
    result: Result<T, TryRecvError>,
) -> bool {
    exists|found: Channel<T, Waker>|
        {
            &&& #[trigger] crate::shared::stepped(mutex, found, found.try_recv_step().0)
            &&& result == found.try_recv_step().1
        }
}

/// What a poll on behalf of the task with this waker does, by the record before and after it, and what
/// it answers.
///
/// Where the message or the disconnect is there, it answers with that. Where the sender is
/// publishing, it wakes the task, which is to poll again. Otherwise it drops the waker of an earlier
/// poll, and goes on with a clone of this one.
pub open spec fn polled<T>(
    mutex: Mutex<Channel<T, Waker>>,
    before: Seq<Event<T, Waker>>,
    after: Seq<Event<T, Waker>>,
    waker: Waker,
    poll: Poll<Result<T, RecvError>>,
) -> bool {
    exists|found: Channel<T, Waker>|
        {
            let (left, step) = found.begin_poll_step();
            let between = before.push(Event::Stepped(found, left));
            &&& #[trigger] crate::shared::stepped(mutex, found, found.begin_poll_step().0)
            &&& match step {
                PollStep::Ready(result) => {
                    &&& after == between
                    &&& poll == Poll::Ready(result)
                },
                PollStep::Register(earlier) => {
                    &&& crate::platform::released(earlier)
                    &&& exists|clone: Waker|
                        {
                            &&& #[trigger] crate::platform::is_clone(waker, clone)
                            &&& registered(mutex, between, after, clone, poll)
                        }
                },
                PollStep::WakeAgain => {
                    &&& after == between.push(Event::WokeByRef(waker))
                    &&& crate::shared::woken_by_ref(waker)
                    &&& poll is Pending
                },
            }
        }
}

/// What a poll that has found nothing to receive does, by the record before and after, and what it
/// answers.
///
/// It leaves the waker for the sender to find. Where the message or the disconnect has come
/// meanwhile, it drops the waker and answers with that.
pub open spec fn registered<T>(
    mutex: Mutex<Channel<T, Waker>>,
    before: Seq<Event<T, Waker>>,
    after: Seq<Event<T, Waker>>,
    waker: Waker,
    poll: Poll<Result<T, RecvError>>,
) -> bool {
    exists|found: Channel<T, Waker>|
        {
            let (left, registration) = found.register_waker_step(waker);
            let between = before.push(Event::Stepped(found, left));
            &&& #[trigger] crate::shared::stepped(mutex, found, found.register_waker_step(waker).0)
            &&& match registration {
                Registration::Registered => {
                    &&& after == between
                    &&& poll is Pending
                },
                Registration::Ready(result, unused) => {
                    &&& after == between
                    &&& crate::platform::released(unused)
                    &&& poll == Poll::Ready(result)
                },
                Registration::Occupied(own) => {
                    &&& after == between.push(Event::Woke(own))
                    &&& crate::shared::woken(own)
                    &&& poll is Pending
                },
            }
        }
}

/// What a receiver that is not a future has of the channel, which it closes when it is dropped.
#[verifier::reject_recursive_types(T)]
struct Half<T> {
    /// The hold on the channel, unless a future has taken it over.
    shared: Option<Shared<T>>,
    /// Keeps two threads from receiving at a time.
    not_sync: PhantomData<Cell<()>>,
}

impl<T> Half<T> {
    /// The hold on the channel, if it is still here.
    pub closed spec fn hold(&self) -> Option<Shared<T>> {
        self.shared
    }
}

impl<T> Drop for Half<T> {
    /// Closes the channel, unless a future has taken it over. A message that was sent and not received
    /// is dropped.
    fn drop(&mut self)
        ensures
            final(self).hold() is None,
            old(self).hold() matches Some(shared) ==> left_by_receiver(shared.channel()),
        opens_invariants none
        no_unwind
    {
        let mut shared: Option<Shared<T>> = None;
        std::mem::swap(&mut shared, &mut self.shared);
        if let Some(shared) = shared {
            let mut hold = shared.into_hold();
            release(hold.disconnect());
            release(hold);
        }
    }
}

/// Takes out what is there. This does not unwind, as [`Option::unwrap`] might.
fn kept<V>(value: Option<V>) -> (out: V)
    requires
        value is Some,
    ensures
        out == value->0,
    decreases value,
    opens_invariants none
    no_unwind
{
    match value {
        Some(out) => out,
        None => kept(None),
    }
}

/// Receives a value from the associated [`Sender`](crate::Sender).
#[verifier::reject_recursive_types(T)]
pub struct Receiver<T> {
    half: Half<T>,
}

impl<T> Receiver<T> {
    /// The channel that the receiver belongs to.
    pub closed spec fn channel(&self) -> Mutex<Channel<T, Waker>> {
        self.half.hold()->0.channel()
    }

    /// No future has taken over from a receiver that is still there.
    #[verifier::type_invariant]
    spec fn holds(self) -> bool {
        self.half.hold() is Some
    }

    /// The receiver of the channel.
    pub(crate) fn new(shared: Shared<T>) -> (receiver: Self)
        ensures
            receiver.channel() == shared.channel(),
        opens_invariants none
        no_unwind
    {
        Receiver { half: Half { shared: Some(shared), not_sync: PhantomData } }
    }

    /// The hold on the channel.
    fn shared(&self) -> (shared: &Shared<T>)
        ensures
            shared.channel() == self.channel(),
        opens_invariants none
        no_unwind
    {
        proof {
            use_type_invariant(self);
        }
        match &self.half.shared {
            Some(shared) => shared,
            None => kept(None),
        }
    }

    /// Returns true if the associated [`Sender`](crate::Sender) disconnected before sending a
    /// message, or if the message has already been received.
    ///
    /// If `true` is returned, all future calls to receive the message are guaranteed to return
    /// [`RecvError`]. Future calls to this method are also guaranteed to return `true`.
    pub fn is_closed(&self) -> (closed: bool)
        ensures
            crate::shared::observed_closed(self.channel(), closed),
        opens_invariants none
        no_unwind
    {
        self.shared().is_closed()
    }

    /// Returns true if there is a message in the channel, ready to be received.
    ///
    /// If `true` is returned, the next call to receive the message is guaranteed to return the
    /// message immediately.
    pub fn has_message(&self) -> (has: bool)
        ensures
            crate::shared::observed_message(self.channel(), has),
        opens_invariants none
        no_unwind
    {
        self.shared().has_message()
    }

    /// Checks if there is a message in the channel without waiting for one. Returns:
    ///
    /// * `Ok(message)` if there was a message in the channel.
    /// * `Err(TryRecvError::Empty)` if the [`Sender`](crate::Sender) is alive, but has not yet sent
    ///   a message.
    /// * `Err(TryRecvError::Disconnected)` if the [`Sender`](crate::Sender) disconnected before
    ///   sending anything or if the message has already been extracted by a previous `try_recv`
    ///   call.
    ///
    /// If a message is returned, the channel is disconnected and any subsequent receive operation
    /// using this receiver will return an error: [`TryRecvError::Disconnected`] for `try_recv`, or
    /// [`RecvError::Disconnected`] for the future.
    pub fn try_recv(&self) -> (result: Result<T, TryRecvError>)
        ensures
            tried(self.channel(), result),
    {
        self.shared().try_recv()
    }
}

impl<T> IntoFuture for Receiver<T> {
    type Output = Result<T, RecvError>;

    type IntoFuture = Recv<T>;

    /// Turns the receiver into a future of the message, which takes over the receiver's part of the
    /// channel.
    fn into_future(self) -> (recv: Recv<T>)
        ensures
            turned(self, recv),
        opens_invariants none
        no_unwind
    {
        proof {
            use_type_invariant(&self);
        }
        let mut half = self.half;
        let mut shared: Option<Shared<T>> = None;
        std::mem::swap(&mut shared, &mut half.shared);
        Recv { hold: kept(shared).into_hold(), not_sync: PhantomData }
    }
}

/// What becomes of a receiver that is turned into a future: the future belongs to the same channel, and
/// has done nothing yet.
pub open spec fn turned<T>(receiver: Receiver<T>, recv: Recv<T>) -> bool {
    &&& recv.channel() == receiver.channel()
    &&& recv.events() == Seq::<Event<T, Waker>>::empty()
}

/// A future that completes when the message is sent from the associated [`Sender`](crate::Sender),
/// or the [`Sender`](crate::Sender) disconnects before sending a message.
#[verifier::reject_recursive_types(T)]
pub struct Recv<T> {
    hold: Hold<T>,
    /// Keeps two threads from receiving at a time.
    not_sync: PhantomData<Cell<()>>,
}

impl<T> Unpin for Recv<T> {

}

impl<T> Recv<T> {
    /// The channel that the future belongs to.
    pub closed spec fn channel(&self) -> Mutex<Channel<T, Waker>> {
        self.hold.channel()
    }

    /// What the future has done, in order.
    pub closed spec fn events(&self) -> Seq<Event<T, Waker>> {
        self.hold.events()
    }

    /// Polls for the message on behalf of the task with this waker.
    fn poll_with(&mut self, waker: &Waker) -> (poll: Poll<Result<T, RecvError>>)
        ensures
            final(self).channel() == old(self).channel(),
            polled(old(self).channel(), old(self).events(), final(self).events(), *waker, poll),
    {
        match self.hold.begin_poll() {
            PollStep::Ready(result) => Poll::Ready(result),
            PollStep::Register(earlier) => {
                let clone = waker.clone();
                assert(crate::platform::is_clone(*waker, clone));
                release(earlier);
                self.register(clone)
            },
            PollStep::WakeAgain => {
                self.hold.wake_by_ref(waker);
                Poll::Pending
            },
        }
    }

    /// Goes on with a poll that has found nothing to receive.
    fn register(&mut self, waker: Waker) -> (poll: Poll<Result<T, RecvError>>)
        ensures
            final(self).channel() == old(self).channel(),
            registered(old(self).channel(), old(self).events(), final(self).events(), waker, poll),
    {
        match self.hold.register_waker(waker) {
            Registration::Registered => Poll::Pending,
            Registration::Ready(result, unused) => {
                release(unused);
                Poll::Ready(result)
            },
            Registration::Occupied(own) => {
                self.hold.wake(own);
                Poll::Pending
            },
        }
    }
}

impl<T> Drop for Recv<T> {
    /// Closes the channel. A waker that is registered is dropped, and so is a message that was sent
    /// and not received.
    fn drop(&mut self)
        ensures
            left_by_future(old(self).channel(), old(self).events(), final(self).events()),
        opens_invariants none
        no_unwind
    {
        release(self.hold.reclaim_waker());
        release(self.hold.disconnect());
    }
}

impl<T> Future for Recv<T> {
    type Output = Result<T, RecvError>;

    /// Polls the future in the pin on behalf of the task in the context.
    fn poll(self: Pin<&mut Self>, cx: &mut Context<'_>) -> (poll: Poll<Result<T, RecvError>>)
        ensures
            exists|recv: &mut Recv<T>, waker: &Waker|
                {
                    &&& #[trigger] call_ensures(Pin::<&mut Recv<T>>::get_mut, (self,), recv)
                    &&& #[trigger] call_ensures(Context::<'_>::waker, (&*old(cx),), waker)
                    &&& (*final(recv)).channel() == (*recv).channel()
                    &&& polled(
                        (*recv).channel(),
                        (*recv).events(),
                        (*final(recv)).events(),
                        *waker,
                        poll,
                    )
                },
    {
        self.get_mut().poll_with(cx.waker())
    }
}

} // verus!
