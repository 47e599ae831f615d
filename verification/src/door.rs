//! The way to the lock of a channel.
//!
//! The mutex is in here, and nothing outside can lock it but by what a door offers. Nothing in here can
//! change what the mutex protects: that takes a [`Turn`](crate::shared::Turn), which nothing in here
//! can make. So the channel is changed in two ways only: through [`Door::attempt`], by an attempt to
//! receive; and through [`Journal::enter`], which leaves its mark in the journal, and the mark stays
//! until a step is written down in its place.
use std::sync::{Arc, Mutex, MutexGuard};
use std::task::Waker;
use vstd::prelude::*;

use crate::attempt::Attempt;
use crate::channel::{Channel, Event};
use crate::platform::{held, lock, unlock};

verus! {

/// A way to the channel through a shared reference: to look at it, and to try to receive.
#[verifier::reject_recursive_types(T)]
pub struct Door<T> {
    channel: Arc<Mutex<Channel<T, Waker>>>,
}

/// The way out for whoever has locked the channel.
#[verifier::reject_recursive_types(T)]
pub struct Exit<'a, T> {
    channel: &'a Mutex<Channel<T, Waker>>,
}

/// A way to the channel that keeps a journal of every time that it is taken.
#[verifier::reject_recursive_types(T)]
pub struct Journal<T> {
    door: Door<T>,
    log: Ghost<Seq<Event<T, Waker>>>,
}

/// Makes a channel, with a door for each endpoint.
pub(crate) fn doors<T>() -> (doors: (Door<T>, Door<T>))
    ensures
        doors.0.channel() == doors.1.channel(),
        crate::channel::made_around(doors.0.channel(), Channel::Empty),
{
    let channel = Arc::new(Mutex::new(Channel::new()));
    let other = channel.clone();
    (Door { channel }, Door { channel: other })
}

impl<T> Door<T> {
    /// The channel that the door leads to.
    pub closed spec fn channel(&self) -> Mutex<Channel<T, Waker>> {
        *self.channel
    }

    /// See [`Channel::is_closed`].
    pub(crate) fn is_closed(&self) -> (closed: bool)
        ensures
            crate::shared::observed_closed(self.channel(), closed),
        opens_invariants none
        no_unwind
    {
        let guard = lock(&self.channel);
        let channel = held(&guard);
        let ghost found = *channel;
        let closed = channel.is_closed();
        let ghost taken = guard;
        unlock(&self.channel, guard);
        proof {
            crate::shared::lemma_seen(self.channel(), taken, found);
        }
        closed
    }

    /// See [`Channel::has_message`].
    pub(crate) fn has_message(&self) -> (has: bool)
        ensures
            crate::shared::observed_message(self.channel(), has),
        opens_invariants none
        no_unwind
    {
        let guard = lock(&self.channel);
        let channel = held(&guard);
        let ghost found = *channel;
        let has = channel.has_message();
        let ghost taken = guard;
        unlock(&self.channel, guard);
        proof {
            crate::shared::lemma_seen(self.channel(), taken, found);
        }
        has
    }

    /// Locks the channel for an attempt to receive, and for nothing else.
    ///
    /// What only looks at the channel does not unwind, and so cannot come this way.
    pub(crate) fn attempt(&self) -> (attempt: Attempt<'_, T>)
        ensures
            attempt.channel() == self.channel(),
            attempt.locked(),
    {
        let guard = lock(&self.channel);
        Attempt::new(guard, Exit { channel: &self.channel })
    }

    /// The same way, from now on with a journal, which is empty.
    pub(crate) fn journal(self) -> (journal: Journal<T>)
        ensures
            journal.channel() == self.channel(),
            journal.log() == Seq::<Event<T, Waker>>::empty(),
        opens_invariants none
        no_unwind
    {
        Journal { door: self, log: Ghost(Seq::empty()) }
    }
}

impl<'a, T> Exit<'a, T> {
    /// The channel that was locked.
    pub closed spec fn channel(&self) -> Mutex<Channel<T, Waker>> {
        *self.channel
    }

    /// Unlocks the channel.
    pub(crate) fn leave(self, guard: MutexGuard<'a, Channel<T, Waker>>)
        ensures
            call_ensures(unlock::<Channel<T, Waker>>, (&self.channel(), guard), ()),
        opens_invariants none
        no_unwind
    {
        unlock(self.channel, guard);
    }
}

impl<T> Journal<T> {
    /// The channel that the journal is about.
    pub closed spec fn channel(&self) -> Mutex<Channel<T, Waker>> {
        self.door.channel()
    }

    /// What has been done this way, in order.
    pub closed spec fn log(&self) -> Seq<Event<T, Waker>> {
        self.log@
    }

    /// See [`Channel::is_closed`].
    pub(crate) fn is_closed(&self) -> (closed: bool)
        ensures
            crate::shared::observed_closed(self.channel(), closed),
        opens_invariants none
        no_unwind
    {
        self.door.is_closed()
    }

    /// Locks the channel, and writes that down.
    pub(crate) fn enter(&mut self) -> (inside: (MutexGuard<'_, Channel<T, Waker>>, Exit<'_, T>))
        ensures
            final(self).channel() == old(self).channel(),
            final(self).log() == old(self).log().push(Event::Opened),
            call_ensures(lock::<Channel<T, Waker>>, (&old(self).channel(),), inside.0),
            inside.1.channel() == old(self).channel(),
        opens_invariants none
        no_unwind
    {
        self.log = Ghost(self.log@.push(Event::Opened));
        let channel: &Mutex<Channel<T, Waker>> = &self.door.channel;
        (lock(channel), Exit { channel })
    }

    /// Writes down which step was taken the last time that the channel was locked.
    pub(crate) fn settle(
        &mut self,
        Ghost(found): Ghost<Channel<T, Waker>>,
        Ghost(left): Ghost<Channel<T, Waker>>,
    )
        requires
            old(self).log().len() > 0,
            old(self).log().last() is Opened,
            crate::shared::stepped(old(self).channel(), found, left),
        ensures
            final(self).channel() == old(self).channel(),
            final(self).log() == old(self).log().drop_last().push(Event::Stepped(found, left)),
        opens_invariants none
        no_unwind
    {
        self.log = Ghost(self.log@.drop_last().push(Event::Stepped(found, left)));
    }

    /// Writes down that a task was woken.
    pub(crate) fn note(&mut self, Ghost(event): Ghost<Event<T, Waker>>)
        requires
            event is Woke || event is WokeByRef,
        ensures
            final(self).channel() == old(self).channel(),
            final(self).log() == old(self).log().push(event),
        opens_invariants none
        no_unwind
    {
        self.log = Ghost(self.log@.push(event));
    }
}

} // verus!
