//! An attempt to receive, under the lock.
//!
//! An attempt comes from [`Door::attempt`](crate::door::Door::attempt) with the channel locked. All that
//! can be done with it is to take the one step of [`Channel::try_recv`]: the guard is in here, and there
//! is no way from here to the mutex.
use std::sync::{Mutex, MutexGuard};
use std::task::Waker;
use vstd::prelude::*;

use crate::channel::Channel;
use crate::error::TryRecvError;
use crate::door::Exit;
use crate::platform::{exchange, lock};
use crate::shared::Turn;

verus! {

/// An attempt to receive from a channel that is locked for it.
#[verifier::reject_recursive_types(T)]
pub struct Attempt<'a, T> {
    guard: MutexGuard<'a, Channel<T, Waker>>,
    exit: Exit<'a, T>,
}

impl<'a, T> Attempt<'a, T> {
    /// The channel of the attempt.
    pub closed spec fn channel(&self) -> Mutex<Channel<T, Waker>> {
        self.exit.channel()
    }

    /// Whether the channel was locked for the attempt.
    pub closed spec fn locked(&self) -> bool {
        call_ensures(lock::<Channel<T, Waker>>, (&self.exit.channel(),), self.guard)
    }

    /// An attempt with this guard of the channel.
    pub(crate) fn new(
        guard: MutexGuard<'a, Channel<T, Waker>>,
        exit: Exit<'a, T>,
    ) -> (attempt: Attempt<'a, T>)
        requires
            call_ensures(lock::<Channel<T, Waker>>, (&exit.channel(),), guard),
        ensures
            attempt.channel() == exit.channel(),
            attempt.locked(),
    {
        Attempt { guard, exit }
    }

    /// Receives the message if there is one, and unlocks the channel.
    pub(crate) fn try_recv(self, turn: Turn) -> (result: Result<T, TryRecvError>)
        requires
            self.locked(),
        ensures
            exists|found: Channel<T, Waker>|
                {
                    &&& #[trigger] crate::shared::stepped(
                        self.channel(),
                        found,
                        found.try_recv_step().0,
                    )
                    &&& result == found.try_recv_step().1
                },
    {
        let Attempt { guard, exit } = self;
        let ghost taken = guard;
        let (guard, mut state) = exchange(guard, Channel::Disconnected, turn);
        let ghost open = guard;
        let ghost found = state;
        let result = state.try_recv();
        let ghost left = state;
        let (guard, between) = exchange(guard, state, turn);
        let ghost released = guard;
        exit.leave(guard);
        proof {
            crate::shared::lemma_stepped(
                self.channel(),
                turn,
                taken,
                open,
                released,
                found,
                left,
                between,
            );
        }
        assert(crate::shared::stepped(self.channel(), found, found.try_recv_step().0));
        result
    }
}

} // verus!
