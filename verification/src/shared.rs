//! The channel as its two endpoints share it.
//!
//! A step is taken under the lock. What it finds there is the doing of the other endpoint as much as
//! of this one. That it was taken means that the mutex of this channel was locked, that under this one
//! lock the state that was found was replaced by the state in which the step leaves it, and that the
//! value returned is the one that the step gives. The lock is free again afterwards: the values that a
//! step hands out are released, and tasks are woken, by the caller.
//!
//! An endpoint that goes through several steps has a [`Hold`] on the channel, which only it has, and
//! which records what is done through it: every step and every wake-up, in order. An endpoint has no
//! other way to the channel, and none to wake a task. So a contract that fixes the record fixes what
//! the endpoint has done, in which order, and that it has done no more: to lock the channel at all is to
//! write in the record, and what only looks at the channel cannot change it.
//!
//! A receiver that is not a future takes its steps through a shared reference, in which no record can
//! grow. It can only look, or try to receive. What looks, and what is done when the receiver is dropped
//! or becomes a future, does not unwind, and so cannot try to receive, which is not said to be so.
use std::sync::{Mutex, MutexGuard};
use std::task::Waker;
use vstd::prelude::*;

use crate::channel::{
    Channel, Cleanup, DisconnectStep, Event, Handover, PollStep, Registration, SendStep,
};
use crate::error::TryRecvError;
use crate::door::{Door, Journal};
use crate::platform::{exchange, held, lock, unlock};

verus! {

/// The turn of an endpoint to change the channel. Only what is in here can take one, and only under a
/// lock that a [`Journal`] has written down, or that is good for an [`Attempt`](crate::attempt::Attempt)
/// alone.
#[derive(Clone, Copy)]
pub struct Turn {
    taken: (),
}

/// Whether the mutex was locked, the state `found` was taken out from behind the guard that the lock
/// gave, the state `left` was put back behind this guard, and the guard was released: one step, which
/// the other endpoint cannot come between.
///
/// That this was done means that the calls of it are at hand, by [`call_ensures`]. When the step was
/// taken, and how often, is for the record of a [`Hold`] to say.
pub closed spec fn stepped<T>(
    mutex: Mutex<Channel<T, Waker>>,
    found: Channel<T, Waker>,
    left: Channel<T, Waker>,
) -> bool {
    exists|
        taken: MutexGuard<'_, Channel<T, Waker>>,
        open: MutexGuard<'_, Channel<T, Waker>>,
        released: MutexGuard<'_, Channel<T, Waker>>,
        between: Channel<T, Waker>,
        turn: Turn,
    |
        {
            &&& #[trigger] call_ensures(lock::<Channel<T, Waker>>, (&mutex,), taken)
            &&& #[trigger] call_ensures(
                exchange::<T>,
                (taken, Channel::<T, Waker>::Disconnected, turn),
                (open, found),
            )
            &&& #[trigger] call_ensures(
                exchange::<T>,
                (open, left, turn),
                (released, between),
            )
            &&& call_ensures(unlock::<Channel<T, Waker>>, (&mutex, released), ())
        }
}

/// Whether the mutex was locked, the state `found` was behind the guard that the lock gave, and the
/// guard was released as it was.
pub closed spec fn seen<T>(mutex: Mutex<Channel<T, Waker>>, found: Channel<T, Waker>) -> bool {
    exists|taken: MutexGuard<'_, Channel<T, Waker>>|
        {
            &&& #[trigger] call_ensures(lock::<Channel<T, Waker>>, (&mutex,), taken)
            &&& call_ensures(held::<Channel<T, Waker>>, (&taken,), &found)
            &&& call_ensures(unlock::<Channel<T, Waker>>, (&mutex, taken), ())
        }
}

/// A step is made of these calls.
pub(crate) proof fn lemma_stepped<T>(
    mutex: Mutex<Channel<T, Waker>>,
    turn: Turn,
    taken: MutexGuard<'_, Channel<T, Waker>>,
    open: MutexGuard<'_, Channel<T, Waker>>,
    released: MutexGuard<'_, Channel<T, Waker>>,
    found: Channel<T, Waker>,
    left: Channel<T, Waker>,
    between: Channel<T, Waker>,
)
    requires
        call_ensures(lock::<Channel<T, Waker>>, (&mutex,), taken),
        call_ensures(
            exchange::<T>,
            (taken, Channel::<T, Waker>::Disconnected, turn),
            (open, found),
        ),
        call_ensures(exchange::<T>, (open, left, turn), (released, between)),
        call_ensures(unlock::<Channel<T, Waker>>, (&mutex, released), ()),
    ensures
        stepped(mutex, found, left),
{
}

/// A look is made of these calls.
pub(crate) proof fn lemma_seen<T>(
    mutex: Mutex<Channel<T, Waker>>,
    taken: MutexGuard<'_, Channel<T, Waker>>,
    found: Channel<T, Waker>,
)
    requires
        call_ensures(lock::<Channel<T, Waker>>, (&mutex,), taken),
        call_ensures(held::<Channel<T, Waker>>, (&taken,), &found),
        call_ensures(unlock::<Channel<T, Waker>>, (&mutex, taken), ()),
    ensures
        seen(mutex, found),
{
}

/// What a look at whether the channel is closed does, and what it answers: the channel is left as it
/// was found.
pub open spec fn observed_closed<T>(mutex: Mutex<Channel<T, Waker>>, closed: bool) -> bool {
    exists|found: Channel<T, Waker>|
        {
            &&& #[trigger] seen(mutex, found)
            &&& closed == found.closed()
        }
}

/// What a look at whether there is a message does, and what it answers: the channel is left as it was
/// found.
pub open spec fn observed_message<T>(mutex: Mutex<Channel<T, Waker>>, has: bool) -> bool {
    exists|found: Channel<T, Waker>|
        {
            &&& #[trigger] seen(mutex, found)
            &&& has == (found.message() is Some)
        }
}

/// A hold on the channel through which no record is kept: that of a receiver which is not a future, and
/// which receives through a shared reference.
#[verifier::reject_recursive_types(T)]
pub struct Shared<T> {
    door: Door<T>,
}

/// A new channel, with the hold of its sender and that of its receiver. There are no others.
pub(crate) fn pair<T>() -> (holds: (Hold<T>, Shared<T>))
    ensures
        holds.0.channel() == holds.1.channel(),
        holds.0.events() == Seq::<Event<T, Waker>>::empty(),
        crate::channel::made_around(holds.1.channel(), Channel::Empty),
{
    let (door, other) = crate::door::doors();
    (Shared { door: other }.into_hold(), Shared { door })
}

impl<T> Shared<T> {
    /// The channel that is shared.
    pub closed spec fn channel(&self) -> Mutex<Channel<T, Waker>> {
        self.door.channel()
    }

    /// See [`Channel::is_closed`].
    pub(crate) fn is_closed(&self) -> (closed: bool)
        ensures
            observed_closed(self.channel(), closed),
        opens_invariants none
        no_unwind
    {
        self.door.is_closed()
    }

    /// See [`Channel::has_message`].
    pub(crate) fn has_message(&self) -> (has: bool)
        ensures
            observed_message(self.channel(), has),
        opens_invariants none
        no_unwind
    {
        self.door.has_message()
    }

    /// See [`Channel::try_recv`].
    pub(crate) fn try_recv(&self) -> (result: Result<T, TryRecvError>)
        ensures
            exists|found: Channel<T, Waker>|
                {
                    &&& #[trigger] stepped(self.channel(), found, found.try_recv_step().0)
                    &&& result == found.try_recv_step().1
                },
    {
        assert(self.channel() == self.door.channel());
        self.door.attempt().try_recv(Turn { taken: () })
    }

    /// The hold goes on with a record, which is empty.
    pub(crate) fn into_hold(self) -> (hold: Hold<T>)
        ensures
            hold.channel() == self.channel(),
            hold.events() == Seq::<Event<T, Waker>>::empty(),
        opens_invariants none
        no_unwind
    {
        Hold { journal: self.door.journal() }
    }
}

/// [`Waker::wake`] wakes the task, and uses the waker up. It returns nothing, and nothing is claimed.
#[verifier::external_body]
fn wake(waker: Waker) {
    waker.wake()
}

/// [`Waker::wake_by_ref`] wakes the task, and leaves the waker as it is. It returns nothing, and
/// nothing is claimed.
#[verifier::external_body]
fn wake_by_ref(waker: &Waker) {
    waker.wake_by_ref()
}

/// Whether there is a call of [`Waker::wake`] on the waker, which wakes its task and uses it up. When the
/// task was woken is for the record of a [`Hold`] to say.
pub closed spec fn woken(waker: Waker) -> bool {
    call_ensures(wake, (waker,), ())
}

/// Whether there is a call of [`Waker::wake_by_ref`] on the waker, which wakes its task. When and how
/// often the task was woken is for the record of a [`Hold`] to say.
pub closed spec fn woken_by_ref(waker: Waker) -> bool {
    call_ensures(wake_by_ref, (&waker,), ())
}

/// One endpoint's hold on the channel, with the record of what is done through it.
#[verifier::reject_recursive_types(T)]
pub struct Hold<T> {
    journal: Journal<T>,
}

impl<T> Hold<T> {
    /// The channel that is held.
    pub closed spec fn channel(&self) -> Mutex<Channel<T, Waker>> {
        self.journal.channel()
    }

    /// What has been done through this hold, in order.
    pub closed spec fn events(&self) -> Seq<Event<T, Waker>> {
        self.journal.log()
    }

    /// See [`Channel::is_closed`].
    pub(crate) fn is_closed(&self) -> (closed: bool)
        ensures
            observed_closed(self.channel(), closed),
        opens_invariants none
        no_unwind
    {
        self.journal.is_closed()
    }

    /// See [`Channel::begin_poll`].
    pub(crate) fn begin_poll(&mut self) -> (step: PollStep<T, Waker>)
        ensures
            final(self).channel() == old(self).channel(),
            exists|found: Channel<T, Waker>|
                {
                    let (left, handed) = found.begin_poll_step();
                    &&& #[trigger] stepped(old(self).channel(), found, found.begin_poll_step().0)
                    &&& final(self).events() == old(self).events().push(Event::Stepped(found, left))
                    &&& step == handed
                },
        opens_invariants none
        no_unwind
    {
        let turn = Turn { taken: () };
        let (guard, exit) = self.journal.enter();
        let (guard, mut state) = exchange(guard, Channel::Disconnected, turn);
        let ghost found = state;
        let step = state.begin_poll();
        let ghost left = state;
        let (guard, _) = exchange(guard, state, turn);
        exit.leave(guard);
        assert(stepped(old(self).channel(), found, found.begin_poll_step().0));
        self.journal.settle(Ghost(found), Ghost(left));
        assert(self.events() == old(self).events().push(Event::Stepped(found, left)));
        step
    }

    /// See [`Channel::register_waker`]. Where the channel does not accept a waker, it is left as it is,
    /// and the waker is handed back.
    pub(crate) fn register_waker(&mut self, waker: Waker) -> (registration: Registration<T, Waker>)
        ensures
            final(self).channel() == old(self).channel(),
            exists|found: Channel<T, Waker>|
                {
                    let (left, handed) = found.register_waker_step(waker);
                    &&& #[trigger] stepped(
                        old(self).channel(),
                        found,
                        found.register_waker_step(waker).0,
                    )
                    &&& final(self).events() == old(self).events().push(Event::Stepped(found, left))
                    &&& registration == handed
                },
        opens_invariants none
        no_unwind
    {
        let turn = Turn { taken: () };
        let (guard, exit) = self.journal.enter();
        let (guard, mut state) = exchange(guard, Channel::Disconnected, turn);
        let ghost found = state;
        let registration = if state.accepts_waker() {
            state.register_waker(waker)
        } else {
            Registration::Occupied(waker)
        };
        let ghost left = state;
        let (guard, _) = exchange(guard, state, turn);
        exit.leave(guard);
        assert(stepped(old(self).channel(), found, found.register_waker_step(waker).0));
        self.journal.settle(Ghost(found), Ghost(left));
        assert(self.events() == old(self).events().push(Event::Stepped(found, left)));
        registration
    }

    /// See [`Channel::reclaim_waker`].
    pub(crate) fn reclaim_waker(&mut self) -> (waker: Option<Waker>)
        ensures
            final(self).channel() == old(self).channel(),
            exists|found: Channel<T, Waker>|
                {
                    let (left, handed) = found.reclaim_waker_step();
                    &&& #[trigger] stepped(old(self).channel(), found, found.reclaim_waker_step().0)
                    &&& final(self).events() == old(self).events().push(Event::Stepped(found, left))
                    &&& waker == handed
                },
        opens_invariants none
        no_unwind
    {
        let turn = Turn { taken: () };
        let (guard, exit) = self.journal.enter();
        let (guard, mut state) = exchange(guard, Channel::Disconnected, turn);
        let ghost found = state;
        let waker = state.reclaim_waker();
        let ghost left = state;
        let (guard, _) = exchange(guard, state, turn);
        exit.leave(guard);
        assert(stepped(old(self).channel(), found, found.reclaim_waker_step().0));
        self.journal.settle(Ghost(found), Ghost(left));
        assert(self.events() == old(self).events().push(Event::Stepped(found, left)));
        waker
    }

    /// See [`Channel::disconnect`].
    pub(crate) fn disconnect(&mut self) -> (cleanup: Cleanup<T, Waker>)
        ensures
            final(self).channel() == old(self).channel(),
            exists|found: Channel<T, Waker>|
                {
                    let (left, handed) = found.disconnect_step();
                    &&& #[trigger] stepped(old(self).channel(), found, found.disconnect_step().0)
                    &&& final(self).events() == old(self).events().push(Event::Stepped(found, left))
                    &&& cleanup == handed
                },
        opens_invariants none
        no_unwind
    {
        let turn = Turn { taken: () };
        let (guard, exit) = self.journal.enter();
        let (guard, mut state) = exchange(guard, Channel::Disconnected, turn);
        let ghost found = state;
        let cleanup = state.disconnect();
        let ghost left = state;
        let (guard, _) = exchange(guard, state, turn);
        exit.leave(guard);
        assert(stepped(old(self).channel(), found, found.disconnect_step().0));
        self.journal.settle(Ghost(found), Ghost(left));
        assert(self.events() == old(self).events().push(Event::Stepped(found, left)));
        cleanup
    }

    /// See [`Channel::begin_send`].
    pub(crate) fn begin_send(&mut self, message: T) -> (step: SendStep<T, Waker>)
        ensures
            final(self).channel() == old(self).channel(),
            exists|found: Channel<T, Waker>|
                {
                    let (left, handed) = found.begin_send_step(message);
                    &&& #[trigger] stepped(old(self).channel(), found, found.begin_send_step(message).0)
                    &&& final(self).events() == old(self).events().push(Event::Stepped(found, left))
                    &&& step == handed
                },
        opens_invariants none
        no_unwind
    {
        let turn = Turn { taken: () };
        let (guard, exit) = self.journal.enter();
        let (guard, mut state) = exchange(guard, Channel::Disconnected, turn);
        let ghost found = state;
        let step = state.begin_send(message);
        let ghost left = state;
        let (guard, _) = exchange(guard, state, turn);
        exit.leave(guard);
        assert(stepped(old(self).channel(), found, found.begin_send_step(message).0));
        self.journal.settle(Ghost(found), Ghost(left));
        assert(self.events() == old(self).events().push(Event::Stepped(found, left)));
        step
    }

    /// See [`Channel::begin_disconnect`].
    pub(crate) fn begin_disconnect(&mut self) -> (step: DisconnectStep<Waker>)
        ensures
            final(self).channel() == old(self).channel(),
            exists|found: Channel<T, Waker>|
                {
                    let (left, handed) = found.begin_disconnect_step();
                    &&& #[trigger] stepped(old(self).channel(), found, found.begin_disconnect_step().0)
                    &&& final(self).events() == old(self).events().push(Event::Stepped(found, left))
                    &&& step == handed
                },
        opens_invariants none
        no_unwind
    {
        let turn = Turn { taken: () };
        let (guard, exit) = self.journal.enter();
        let (guard, mut state) = exchange(guard, Channel::Disconnected, turn);
        let ghost found = state;
        let step = state.begin_disconnect();
        let ghost left = state;
        let (guard, _) = exchange(guard, state, turn);
        exit.leave(guard);
        assert(stepped(old(self).channel(), found, found.begin_disconnect_step().0));
        self.journal.settle(Ghost(found), Ghost(left));
        assert(self.events() == old(self).events().push(Event::Stepped(found, left)));
        step
    }

    /// See [`Channel::finish_sender_awakening`].
    pub(crate) fn finish_sender_awakening(&mut self, message: Option<T>) -> (handover: Handover<T>)
        ensures
            final(self).channel() == old(self).channel(),
            exists|found: Channel<T, Waker>|
                {
                    let (left, handed) = found.finish_sender_awakening_step(message);
                    &&& #[trigger] stepped(
                        old(self).channel(),
                        found,
                        found.finish_sender_awakening_step(message).0,
                    )
                    &&& final(self).events() == old(self).events().push(Event::Stepped(found, left))
                    &&& handover == handed
                },
        opens_invariants none
        no_unwind
    {
        let turn = Turn { taken: () };
        let (guard, exit) = self.journal.enter();
        let (guard, mut state) = exchange(guard, Channel::Disconnected, turn);
        let ghost found = state;
        let handover = state.finish_sender_awakening(message);
        let ghost left = state;
        let (guard, _) = exchange(guard, state, turn);
        exit.leave(guard);
        assert(stepped(old(self).channel(), found, found.finish_sender_awakening_step(message).0));
        self.journal.settle(Ghost(found), Ghost(left));
        assert(self.events() == old(self).events().push(Event::Stepped(found, left)));
        handover
    }

    /// Wakes the task of the waker, and records it. The waker is used up.
    pub(crate) fn wake(&mut self, waker: Waker)
        ensures
            final(self).channel() == old(self).channel(),
            final(self).events() == old(self).events().push(Event::Woke(waker)),
            woken(waker),
    {
        wake(waker);
        self.journal.note(Ghost(Event::Woke(waker)));
    }

    /// Wakes the task of the waker, and records it.
    pub(crate) fn wake_by_ref(&mut self, waker: &Waker)
        ensures
            final(self).channel() == old(self).channel(),
            final(self).events() == old(self).events().push(Event::WokeByRef(*waker)),
            woken_by_ref(*waker),
    {
        wake_by_ref(waker);
        self.journal.note(Ghost(Event::WokeByRef(*waker)));
    }
}

} // verus!
