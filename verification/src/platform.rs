//! The parts of the standard library that the endpoints call: the lock round the shared state, the
//! wakers of tasks, and the pins in which futures are polled. To wake a task is for
//! [`shared`](crate::shared), which keeps the record of it.
//!
//! The predicates [`is_clone`] and [`released`] are built on [`call_ensures`], which Verus gives at a
//! call: whoever states one has made the call. When it was made, in which order with others, and how
//! often, they do not say.
use std::cell::Cell;
use std::pin::Pin;
use std::sync::{Mutex, MutexGuard};
use std::task::{Context, Poll, Waker};
use vstd::prelude::*;

use crate::channel::Channel;
use crate::shared::Turn;

verus! {

/// [`std::sync::Mutex`], whose contents any holder of the lock may have changed.
#[verifier::external_type_specification]
#[verifier::external_body]
#[verifier::reject_recursive_types(T)]
pub struct ExMutex<T: ?Sized>(Mutex<T>);

/// [`std::sync::MutexGuard`], which unlocks its mutex when it goes out of scope.
#[verifier::external_type_specification]
#[verifier::external_body]
#[verifier::reject_recursive_types(T)]
pub struct ExMutexGuard<'a, T: ?Sized + 'a>(MutexGuard<'a, T>);

/// [`std::cell::Cell`], which threads cannot share.
#[verifier::external_type_specification]
#[verifier::external_body]
#[verifier::reject_recursive_types(T)]
pub struct ExCell<T: ?Sized>(Cell<T>);

/// [`std::task::Waker`], the handle by which a task is woken.
#[verifier::external_type_specification]
#[verifier::external_body]
pub struct ExWaker(Waker);

/// [`std::task::Context`], which holds the waker of the task that polls.
#[verifier::external_type_specification]
#[verifier::external_body]
pub struct ExContext<'a>(Context<'a>);

/// [`std::pin::Pin`], in which a future is polled.
#[verifier::external_type_specification]
#[verifier::external_body]
#[verifier::reject_recursive_types(Ptr)]
pub struct ExPin<Ptr>(Pin<Ptr>);

/// [`std::task::Poll`], with its two variants.
#[verifier::external_type_specification]
pub struct ExPoll<T>(Poll<T>);

/// [`Mutex::new`] makes a mutex around the value. Nothing is claimed of what the mutex holds later,
/// which is for whoever locks it to see.
pub assume_specification<T>[ Mutex::<T>::new ](value: T) -> (mutex: Mutex<T>);

/// [`Waker::clone`] makes another handle to the same task. Nothing is claimed of it: a waker has no
/// contents to speak of.
pub assume_specification[ <Waker as Clone>::clone ](waker: &Waker) -> (copy: Waker);

/// Whether there is a call of [`Waker::clone`] on the waker that gave `clone`.
pub open spec fn is_clone(waker: Waker, clone: Waker) -> bool {
    call_ensures(<Waker as Clone>::clone, (&waker,), clone)
}

/// Takes the value out of the caller's hands. It is dropped here.
fn end<V>(value: V)
    opens_invariants none
    no_unwind
{
}

/// Whether there is a call that took the value over to drop it.
pub closed spec fn released<V>(value: V) -> bool {
    call_ensures(end::<V>, (value,), ())
}

/// Drops the value.
pub(crate) fn release<V>(value: V)
    ensures
        released(value),
    opens_invariants none
    no_unwind
{
    end(value)
}

/// [`Context::waker`] borrows the waker of the task that polls.
pub assume_specification<'a>[ Context::<'a>::waker ](context: &Context<'a>) -> (waker: &'a Waker);

/// [`Pin::get_mut`] borrows what is pinned, to change it. Nothing is claimed of what that is.
pub assume_specification<'a, T: ?Sized>[ Pin::<&'a mut T>::get_mut ](pin: Pin<&'a mut T>) -> (pinned:
    &'a mut T) where T: Unpin;

/// [`Mutex::lock`] waits for the lock and takes it, also where another holder has panicked. Nothing
/// is claimed of what is behind the guard, which depends on who held the lock before. It is claimed
/// that the call does not unwind: of its panics the documentation knows one, that the thread holds
/// the lock already, and nothing is called under this library's locks that could lock them again.
#[verifier::external_body]
pub(crate) fn lock<'a, V>(mutex: &'a Mutex<V>) -> (guard: MutexGuard<'a, V>)
    opens_invariants none
    no_unwind
{
    match mutex.lock() {
        Ok(guard) => guard,
        Err(poisoned) => poisoned.into_inner(),
    }
}

/// [`MutexGuard`]'s `deref` borrows what the lock protects, and does not unwind. Nothing is claimed
/// of what that is: it is what the guard has behind it.
#[verifier::external_body]
pub(crate) fn held<'a, 'b, V>(guard: &'a MutexGuard<'b, V>) -> (value: &'a V)
    opens_invariants none
    no_unwind
{
    &**guard
}

/// [`MutexGuard`]'s `deref_mut` borrows what the lock protects, to change it, and does not unwind. It
/// is claimed that it borrows what [`held`] gives of the guard, and that [`held`] gives what has
/// become of it when the borrow ends.
#[verifier::external_body]
fn contents<'a, 'b, V>(guard: &'a mut MutexGuard<'b, V>) -> (contents: &'a mut V)
    ensures
        call_ensures(held::<V>, (&*old(guard),), &*contents),
        call_ensures(held::<V>, (&*final(guard),), &*final(contents)),
    opens_invariants none
    no_unwind
{
    &mut **guard
}

/// Puts the state `next` behind the guard, and gives out the one that was there. This is the one way to
/// change what a lock protects, and it is for whoever has the turn.
pub(crate) fn exchange<'a, T>(
    guard: MutexGuard<'a, Channel<T, Waker>>,
    next: Channel<T, Waker>,
    turn: Turn,
) -> (out: (MutexGuard<'a, Channel<T, Waker>>, Channel<T, Waker>))
    ensures
        call_ensures(held::<Channel<T, Waker>>, (&guard,), &out.1),
        call_ensures(held::<Channel<T, Waker>>, (&out.0,), &next),
    opens_invariants none
    no_unwind
{
    let mut guard = guard;
    let mut state = next;
    let channel = contents(&mut guard);
    std::mem::swap(channel, &mut state);
    (guard, state)
}

/// [`std::mem::drop`] of a guard releases the lock of the mutex that the guard was taken of, and does
/// not unwind. Nothing is claimed: what was behind the guard stays in the mutex. The call names the
/// mutex, so that a contract can say whose lock was released.
#[verifier::external_body]
pub(crate) fn unlock<'a, V>(mutex: &'a Mutex<V>, guard: MutexGuard<'a, V>)
    opens_invariants none
    no_unwind
{
    std::mem::drop(guard)
}

} // verus!
