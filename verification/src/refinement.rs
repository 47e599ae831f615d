//! How the endpoints take the actions of the [`protocol`](crate::protocol).
//!
//! The contracts of the endpoints fix their records: which steps they have taken on the channel behind
//! their mutex and which wakers they have woken, in order, and that they have done no more. They also
//! name the values that were dropped. The laws here take such a contract.
//!
//! Some are about one step, and say of the state that was found: in whichever system the channel had
//! that state and the endpoint had got to this point, what was done is the action, and what the system
//! records of the action is what came of the call. Each step is taken under one lock, so that no step
//! of the other endpoint comes between what it finds and what it leaves.
//!
//! Others are about a whole call, in whichever run of the system the endpoint has done what its record
//! says, with the steps of the other endpoint before, between and after its own. And some are about a
//! call that the other endpoint does not disturb.
//!
//! [`Receiver::is_closed`](crate::Receiver::is_closed),
//! [`Receiver::has_message`](crate::Receiver::has_message),
//! [`Receiver::try_recv`](crate::Receiver::try_recv) and
//! [`Sender::is_closed`](crate::Sender::is_closed) take a shared reference, through which no record
//! can grow. Those that look have no way to change the channel. An attempt to receive has no way to
//! change it but by trying to receive; that it tries once only is not part of its contract, since two
//! attempts are what two calls of it are.
use std::sync::Mutex;
use std::task::{Poll, Waker};
use vstd::prelude::*;

use crate::channel::{
    Channel, Cleanup, DisconnectStep, Event, PollStep, Registration, SendStep,
};
use crate::error::{RecvError, TryRecvError};
use crate::protocol::{Action, ReceiverPhase, SenderPhase, System};
use crate::receiver::{Receiver, Recv};
use crate::sender::Sender;

verus! {

/// Whether the waker `own` is for the task of this waker: it is the waker itself, or a clone of it.
pub open spec fn of_task(waker: Waker, own: Waker) -> bool {
    own == waker || crate::platform::is_clone(waker, own)
}

/// What the system `t` records of a poll that was started in the system `s` and is over.
pub open spec fn records_poll<T, W>(
    s: System<T, W>,
    t: System<T, W>,
    poll: Poll<Result<T, RecvError>>,
) -> bool {
    &&& t.receiver is Future
    &&& poll is Pending <==> t.pending is Some
    &&& t.received == match poll {
        Poll::Ready(Ok(message)) => s.received.push(message),
        _ => s.received,
    }
}

/// What the system `t` records of a message that came back to the sender, which is done.
pub open spec fn records_send<T, W>(s: System<T, W>, t: System<T, W>, back: Option<T>) -> bool {
    &&& t.sender is Gone
    &&& t.returned == match back {
        Some(message) => s.returned.push(message),
        None => s.returned,
    }
}

/// [`Receiver::is_closed`](crate::Receiver::is_closed) leaves the channel as it finds it. It returns
/// true if the sender disconnected before sending a message, or the message has already been
/// received, and then only. Once it has returned true, the channel stays closed whatever happens, no
/// message is received, and every attempt to receive fails.
pub proof fn law_receiver_is_closed<T>(mutex: Mutex<Channel<T, Waker>>, closed: bool)
    requires
        crate::shared::observed_closed(mutex, closed),
    ensures
        exists|found: Channel<T, Waker>|
            {
                &&& #[trigger] crate::shared::seen(mutex, found)
                &&& forall|s: System<T, Waker>| #[trigger]
                    s.reachable() && s.channel == found && !(s.receiver is Gone) ==> {
                        closed <==> s.sender is Gone && (s.offered is None || s.received.len() == 1)
                    }
                &&& closed ==> forall|s: System<T, Waker>, actions: Seq<Action<T, Waker>>|
                    s.reachable() && s.channel == found && !(s.receiver is Gone)
                        && #[trigger] s.all_enabled(actions) ==> {
                        let t = s.run(actions);
                        &&& t.channel.closed()
                        &&& t.received == s.received
                        &&& t.channel.try_recv_step().1 == Err::<T, TryRecvError>(
                            TryRecvError::Disconnected,
                        )
                        &&& t.channel.poll_answer() == Poll::<Result<T, RecvError>>::Ready(
                            Err(RecvError::Disconnected),
                        )
                    }
            },
{
    let found = choose|found: Channel<T, Waker>|
        {
            &&& #[trigger] crate::shared::seen(mutex, found)
            &&& closed == found.closed()
        };
    assert forall|s: System<T, Waker>| #[trigger]
        s.reachable() && s.channel == found && !(s.receiver is Gone) implies (closed <==> s.sender
        is Gone && (s.offered is None || s.received.len() == 1)) by {
        crate::protocol::law_receiver_observes(s);
    }
    if closed {
        assert forall|s: System<T, Waker>, actions: Seq<Action<T, Waker>>|
            s.reachable() && s.channel == found && !(s.receiver is Gone)
                && #[trigger] s.all_enabled(actions) implies {
            let t = s.run(actions);
            &&& t.channel.closed()
            &&& t.received == s.received
            &&& t.channel.try_recv_step().1 == Err::<T, TryRecvError>(TryRecvError::Disconnected)
            &&& t.channel.poll_answer() == Poll::<Result<T, RecvError>>::Ready(
                Err(RecvError::Disconnected),
            )
        } by {
            crate::protocol::law_closed_for_good(s, actions);
        }
    }
}

/// [`Receiver::has_message`](crate::Receiver::has_message) leaves the channel as it finds it. It
/// returns true if a message was sent and has not been received, and then only. Once it has returned
/// true, the message waits: whatever happens before the next attempt to receive, that attempt returns
/// the message at once.
pub proof fn law_receiver_has_message<T>(mutex: Mutex<Channel<T, Waker>>, has: bool)
    requires
        crate::shared::observed_message(mutex, has),
    ensures
        exists|found: Channel<T, Waker>|
            {
                &&& #[trigger] crate::shared::seen(mutex, found)
                &&& forall|s: System<T, Waker>| #[trigger]
                    s.reachable() && s.channel == found && !(s.receiver is Gone) ==> {
                        has <==> s.accepted && s.received.len() == 0
                    }
                &&& has ==> forall|s: System<T, Waker>, actions: Seq<Action<T, Waker>>|
                    s.reachable() && s.channel == found && #[trigger] s.all_enabled(actions) && (
                    forall|i: int|
                        0 <= i < actions.len() ==> !crate::protocol::takes(#[trigger] actions[i])) ==> {
                        let t = s.run(actions);
                        &&& t.channel == found
                        &&& t.channel.try_recv_step().1 is Ok
                        &&& t.channel.poll_answer() is Ready
                    }
            },
{
    let found = choose|found: Channel<T, Waker>|
        {
            &&& #[trigger] crate::shared::seen(mutex, found)
            &&& has == (found.message() is Some)
        };
    assert forall|s: System<T, Waker>| #[trigger]
        s.reachable() && s.channel == found && !(s.receiver is Gone) implies (has <==> s.accepted
        && s.received.len() == 0) by {
        crate::protocol::law_receiver_observes(s);
    }
    if has {
        assert forall|s: System<T, Waker>, actions: Seq<Action<T, Waker>>|
            s.reachable() && s.channel == found && #[trigger] s.all_enabled(actions) && (forall|
                i: int,
            |
                0 <= i < actions.len() ==> !crate::protocol::takes(#[trigger] actions[i])) implies {
            let t = s.run(actions);
            &&& t.channel == found
            &&& t.channel.try_recv_step().1 is Ok
            &&& t.channel.poll_answer() is Ready
        } by {
            crate::protocol::law_message_waits(s, actions, found.message()->0);
        }
    }
}

/// [`Sender::is_closed`](crate::Sender::is_closed) leaves the channel as it finds it. It returns true
/// if the receiver is gone, and then only.
pub proof fn law_sender_is_closed<T>(mutex: Mutex<Channel<T, Waker>>, closed: bool)
    requires
        crate::shared::observed_closed(mutex, closed),
    ensures
        exists|found: Channel<T, Waker>|
            {
                &&& #[trigger] crate::shared::seen(mutex, found)
                &&& forall|s: System<T, Waker>| #[trigger]
                    s.reachable() && s.channel == found && s.sender is Live ==> {
                        closed <==> s.receiver is Gone
                    }
            },
{
    let found = choose|found: Channel<T, Waker>|
        {
            &&& #[trigger] crate::shared::seen(mutex, found)
            &&& closed == found.closed()
        };
    assert forall|s: System<T, Waker>| #[trigger]
        s.reachable() && s.channel == found && s.sender is Live implies (closed <==> s.receiver
        is Gone) by {
        crate::protocol::law_sender_observes(s);
    }
}

/// [`Receiver::try_recv`](crate::Receiver::try_recv) takes the action [`Action::TryRecv`], and
/// returns the message that the system records as received.
pub proof fn law_try_recv_acts<T>(
    mutex: Mutex<Channel<T, Waker>>,
    result: Result<T, TryRecvError>,
)
    requires
        crate::receiver::tried(mutex, result),
    ensures
        exists|found: Channel<T, Waker>, left: Channel<T, Waker>|
            {
                &&& #[trigger] crate::shared::stepped(mutex, found, left)
                &&& forall|s: System<T, Waker>|
                    s.channel == found && s.receiver is Direct ==> {
                        let t = #[trigger] s.next(Action::TryRecv);
                        &&& s.enabled(Action::TryRecv)
                        &&& t.channel == left
                        &&& t.received == match result {
                            Ok(message) => s.received.push(message),
                            Err(_) => s.received,
                        }
                    }
            },
{
}

/// A new channel is the system in which nothing has happened yet: the mutex was made around its state,
/// and the sender has done what it has done in no steps at all.
pub proof fn law_channel_starts<T>(sender: Sender<T>, receiver: Receiver<T>)
    requires
        crate::created(sender, receiver),
    ensures
        sender.channel() == receiver.channel(),
        crate::channel::made_around(receiver.channel(), System::<T, Waker>::init().channel),
        sender.events() == System::<T, Waker>::init().deeds(Seq::empty(), true),
        System::<T, Waker>::init().sender is Live,
        System::<T, Waker>::init().receiver is Direct,
        System::<T, Waker>::init().reachable(),
{
    let none = Seq::<Action<T, Waker>>::empty();
    assert(System::<T, Waker>::init().all_enabled(none));
}

/// [`Receiver::into_future`](crate::Receiver) takes the action [`Action::IntoFuture`], and does nothing
/// to the channel.
pub proof fn law_into_future_acts<T>(receiver: Receiver<T>, recv: Recv<T>)
    requires
        crate::receiver::turned(receiver, recv),
    ensures
        recv.channel() == receiver.channel(),
        forall|s: System<T, Waker>|
            s.receiver is Direct ==> {
                let t = #[trigger] s.next(Action::IntoFuture);
                &&& s.enabled(Action::IntoFuture)
                &&& t == (System { receiver: ReceiverPhase::Future, ..s })
                &&& recv.events() == s.deed(Action::IntoFuture)
            },
{
}

/// A poll takes the action [`Action::Poll`] with the waker of its task, or, if it goes on, with a
/// clone of it. A poll that does not go on has done no more, and answers what the system records. One
/// that meets a sender that is publishing has woken its task.
pub proof fn law_poll_acts<T>(
    mutex: Mutex<Channel<T, Waker>>,
    before: Seq<Event<T, Waker>>,
    after: Seq<Event<T, Waker>>,
    waker: Waker,
    poll: Poll<Result<T, RecvError>>,
)
    requires
        crate::receiver::polled(mutex, before, after, waker, poll),
    ensures
        exists|found: Channel<T, Waker>, own: Waker|
            {
                &&& #[trigger] crate::shared::stepped(mutex, found, found.begin_poll_step().0)
                &&& #[trigger] of_task(waker, own)
                &&& forall|s: System<T, Waker>|
                    s.channel == found && s.receiver is Future ==> {
                        let t = #[trigger] s.next(Action::Poll(own));
                        let between = before + s.deed(Action::Poll(own));
                        &&& s.enabled(Action::Poll(own))
                        &&& t.receiver is Registering ==> {
                            &&& t.receiver == ReceiverPhase::Registering(own)
                            &&& crate::platform::is_clone(waker, own)
                            &&& crate::platform::released(s.registered())
                            &&& crate::receiver::registered(mutex, between, after, own, poll)
                        }
                        &&& !(t.receiver is Registering) ==> {
                            &&& after == between
                            &&& records_poll(s, t, poll)
                        }
                        &&& t.pending is Some ==> {
                            &&& t.pending == Some(waker)
                            &&& t.woken
                            &&& after.contains(Event::WokeByRef(waker))
                            &&& crate::shared::woken_by_ref(waker)
                        }
                    }
            },
{
    let found = choose|found: Channel<T, Waker>|
        {
            let (left, step) = found.begin_poll_step();
            let between = before.push(Event::Stepped(found, left));
            &&& #[trigger] crate::shared::stepped(mutex, found, found.begin_poll_step().0)
            &&& match step {
                PollStep::Ready(result) => {
                    &&& after == between
                    &&& poll == Poll::Ready(result)
                },
                PollStep::Register(earlier) => {
                    &&& crate::platform::released(earlier)
                    &&& exists|clone: Waker|
                        {
                            &&& #[trigger] crate::platform::is_clone(waker, clone)
                            &&& crate::receiver::registered(mutex, between, after, clone, poll)
                        }
                },
                PollStep::WakeAgain => {
                    &&& after == between.push(Event::WokeByRef(waker))
                    &&& crate::shared::woken_by_ref(waker)
                    &&& poll is Pending
                },
            }
        };
    let left = found.begin_poll_step().0;
    let between = before.push(Event::Stepped(found, left));
    let own = if found.begin_poll_step().1 is Register {
        choose|clone: Waker|
            {
                &&& #[trigger] crate::platform::is_clone(waker, clone)
                &&& crate::receiver::registered(mutex, between, after, clone, poll)
            }
    } else {
        waker
    };
    assert(crate::shared::stepped(mutex, found, found.begin_poll_step().0));
    assert(of_task(waker, own));
    assert forall|s: System<T, Waker>| s.channel == found && s.receiver is Future implies {
        let t = #[trigger] s.next(Action::Poll(own));
        let step = before + s.deed(Action::Poll(own));
        &&& t.receiver is Registering ==> step == between
        &&& !(t.receiver is Registering) ==> after == step && records_poll(s, t, poll)
        &&& t.pending is Some ==> after.contains(Event::WokeByRef(waker))
    } by {
        let step = before + s.deed(Action::Poll(own));
        if s.next(Action::Poll(own)).receiver is Registering {
            assert(step =~= between);
        } else {
            assert(step =~= after);
            if found.begin_poll_step().1 is WakeAgain {
                assert(after.last() == Event::<T, Waker>::WokeByRef(waker));
            }
        }
    }
}

/// A poll that goes on takes the action [`Action::Register`] with its clone, does no more, and answers
/// what the system records. A clone that is not registered is dropped, or used up in waking the task,
/// as the system records.
pub proof fn law_register_acts<T>(
    mutex: Mutex<Channel<T, Waker>>,
    before: Seq<Event<T, Waker>>,
    after: Seq<Event<T, Waker>>,
    own: Waker,
    poll: Poll<Result<T, RecvError>>,
)
    requires
        crate::receiver::registered(mutex, before, after, own, poll),
    ensures
        exists|found: Channel<T, Waker>|
            {
                &&& #[trigger] crate::shared::stepped(mutex, found, found.register_waker_step(own).0)
                &&& forall|s: System<T, Waker>|
                    s.channel == found && s.receiver == ReceiverPhase::Registering(own)
                        && s.pending is None ==> {
                        let t = #[trigger] s.next(Action::Register);
                        &&& s.enabled(Action::Register)
                        &&& after == before + s.deed(Action::Register)
                        &&& records_poll(s, t, poll)
                        &&& t.pending is Some ==> t.pending == Some(own)
                        &&& t.registered() == Some(own) || {
                            &&& t.dropped == s.dropped.insert(own)
                            &&& crate::platform::released(own)
                        } || {
                            &&& t.spent == s.spent.insert(own)
                            &&& after.contains(Event::Woke(own))
                            &&& crate::shared::woken(own)
                        }
                    }
            },
{
    let found = choose|found: Channel<T, Waker>|
        {
            let (left, registration) = found.register_waker_step(own);
            let between = before.push(Event::Stepped(found, left));
            &&& #[trigger] crate::shared::stepped(mutex, found, found.register_waker_step(own).0)
            &&& match registration {
                Registration::Registered => {
                    &&& after == between
                    &&& poll is Pending
                },
                Registration::Ready(result, unused) => {
                    &&& after == between
                    &&& crate::platform::released(unused)
                    &&& poll == Poll::Ready(result)
                },
                Registration::Occupied(own) => {
                    &&& after == between.push(Event::Woke(own))
                    &&& crate::shared::woken(own)
                    &&& poll is Pending
                },
            }
        };
    assert(crate::shared::stepped(mutex, found, found.register_waker_step(own).0));
    if found.register_waker_step(own).1 is Occupied {
        assert(after.last() == Event::<T, Waker>::Woke(own));
    }
    assert forall|s: System<T, Waker>|
        s.channel == found && s.receiver == ReceiverPhase::Registering(own)
            && s.pending is None implies after == before + #[trigger] s.deed(Action::Register) by {
        assert(after =~= before + s.deed(Action::Register));
    }
}

/// A receiver that closes the channel as it is dropped takes the action [`Action::DropReceiver`], or as
/// a future [`Action::DropRecv`], and does no more. What the system records as dropped has been
/// dropped.
pub proof fn law_close_acts<T>(
    mutex: Mutex<Channel<T, Waker>>,
    before: Seq<Event<T, Waker>>,
    after: Seq<Event<T, Waker>>,
)
    requires
        crate::receiver::closed_by_receiver(mutex, before, after),
    ensures
        exists|found: Channel<T, Waker>|
            {
                &&& #[trigger] crate::shared::stepped(mutex, found, found.disconnect_step().0)
                &&& crate::platform::released(found.disconnect_step().1)
                &&& forall|s: System<T, Waker>|
                    s.channel == found ==> {
                        let t = #[trigger] s.leave();
                        &&& s.next(Action::DropReceiver) == t
                        &&& s.next(Action::DropRecv) == t
                        &&& after == before + s.deed(Action::DropReceiver)
                        &&& after == before + s.deed(Action::DropRecv)
                        &&& t.channel.closed()
                        &&& t.receiver is Gone
                        &&& t.discarded == match found.disconnect_step().1 {
                            Cleanup::DropMessage(message) => s.discarded.push(message),
                            _ => s.discarded,
                        }
                    }
            },
{
    let found = choose|found: Channel<T, Waker>|
        {
            let (left, cleanup) = found.disconnect_step();
            &&& #[trigger] crate::shared::stepped(mutex, found, found.disconnect_step().0)
            &&& after == before.push(Event::Stepped(found, left))
            &&& crate::platform::released(cleanup)
        };
    assert(crate::shared::stepped(mutex, found, found.disconnect_step().0));
    assert forall|s: System<T, Waker>| s.channel == found implies {
        let t = #[trigger] s.leave();
        &&& after == before + s.deed(Action::DropReceiver)
        &&& after == before + s.deed(Action::DropRecv)
    } by {
        assert(after =~= before + s.deed(Action::DropReceiver));
        assert(after =~= before + s.deed(Action::DropRecv));
    }
}

/// A future that is dropped takes the action [`Action::ReclaimWaker`]: it takes back its waker, and
/// drops it. Then it closes the channel.
pub proof fn law_reclaim_acts<T>(
    mutex: Mutex<Channel<T, Waker>>,
    before: Seq<Event<T, Waker>>,
    after: Seq<Event<T, Waker>>,
)
    requires
        crate::receiver::left_by_future(mutex, before, after),
    ensures
        exists|found: Channel<T, Waker>|
            {
                &&& #[trigger] crate::shared::stepped(mutex, found, found.reclaim_waker_step().0)
                &&& forall|s: System<T, Waker>|
                    s.channel == found && s.receiver is Future ==> {
                        let t = #[trigger] s.next(Action::ReclaimWaker);
                        &&& s.enabled(Action::ReclaimWaker)
                        &&& t.receiver is Leaving
                        &&& t.registered() is None
                        &&& crate::platform::released(s.registered())
                        &&& crate::receiver::closed_by_receiver(
                            mutex,
                            before + s.deed(Action::ReclaimWaker),
                            after,
                        )
                    }
            },
{
    let found = choose|found: Channel<T, Waker>|
        {
            let (left, waker) = found.reclaim_waker_step();
            &&& #[trigger] crate::shared::stepped(mutex, found, found.reclaim_waker_step().0)
            &&& crate::platform::released(waker)
            &&& crate::receiver::closed_by_receiver(
                mutex,
                before.push(Event::Stepped(found, left)),
                after,
            )
        };
    assert(crate::shared::stepped(mutex, found, found.reclaim_waker_step().0));
    let between = before.push(Event::Stepped(found, found.reclaim_waker_step().0));
    assert forall|s: System<T, Waker>| s.channel == found && s.receiver is Future implies before
        + #[trigger] s.deed(Action::ReclaimWaker) == between by {
        assert(before + s.deed(Action::ReclaimWaker) =~= between);
    }
}

/// [`Sender::send`](crate::Sender::send) takes the action [`Action::Send`]. If that does not end the
/// send, it goes on to publish the message with the waker that it has taken. Otherwise it has done no
/// more, and the message comes back as the system records.
pub proof fn law_send_acts<T>(
    mutex: Mutex<Channel<T, Waker>>,
    before: Seq<Event<T, Waker>>,
    after: Seq<Event<T, Waker>>,
    message: T,
    back: Option<T>,
)
    requires
        crate::sender::sent(mutex, before, after, message, back),
    ensures
        exists|found: Channel<T, Waker>|
            {
                &&& #[trigger] crate::shared::stepped(mutex, found, found.begin_send_step(message).0)
                &&& forall|s: System<T, Waker>|
                    s.channel == found && s.sender is Live ==> {
                        let t = #[trigger] s.next(Action::Send(message));
                        let between = before + s.deed(Action::Send(message));
                        &&& s.enabled(Action::Send(message))
                        &&& t.sender is Publishing ==> crate::sender::published(
                            mutex,
                            between,
                            after,
                            t.sender->Publishing_0,
                            t.sender->Publishing_1,
                            back,
                        )
                        &&& !(t.sender is Publishing) ==> {
                            &&& after == between
                            &&& records_send(s, t, back)
                            &&& back is None ==> t.accepted
                        }
                    }
            },
{
    let found = choose|found: Channel<T, Waker>|
        {
            let (left, step) = found.begin_send_step(message);
            let between = before.push(Event::Stepped(found, left));
            &&& #[trigger] crate::shared::stepped(mutex, found, found.begin_send_step(message).0)
            &&& match step {
                SendStep::Sent => {
                    &&& after == between
                    &&& back is None
                },
                SendStep::Wake(waker, message) => crate::sender::published(
                    mutex,
                    between,
                    after,
                    waker,
                    Some(message),
                    back,
                ),
                SendStep::Refused(message) => {
                    &&& after == between
                    &&& back == Some(message)
                },
            }
        };
    assert(crate::shared::stepped(mutex, found, found.begin_send_step(message).0));
    let between = before.push(Event::Stepped(found, found.begin_send_step(message).0));
    assert forall|s: System<T, Waker>| s.channel == found && s.sender is Live implies before
        + #[trigger] s.deed(Action::Send(message)) == between by {
        assert(before + s.deed(Action::Send(message)) =~= between);
    }
}

/// [`Sender::disconnect`](crate::Sender::disconnect) takes the action [`Action::DropSender`]. If
/// that does not end it, it goes on to publish the disconnect with the waker that it has taken.
/// Otherwise it has done no more.
pub proof fn law_disconnect_acts<T>(
    mutex: Mutex<Channel<T, Waker>>,
    before: Seq<Event<T, Waker>>,
    after: Seq<Event<T, Waker>>,
)
    requires
        crate::sender::left_by_sender(mutex, before, after),
    ensures
        exists|found: Channel<T, Waker>|
            {
                &&& #[trigger] crate::shared::stepped(mutex, found, found.begin_disconnect_step().0)
                &&& forall|s: System<T, Waker>|
                    s.channel == found && s.sender is Live ==> {
                        let t = #[trigger] s.next(Action::DropSender);
                        let between = before + s.deed(Action::DropSender);
                        &&& s.enabled(Action::DropSender)
                        &&& t.sender is Publishing ==> crate::sender::published(
                            mutex,
                            between,
                            after,
                            t.sender->Publishing_0,
                            t.sender->Publishing_1,
                            None,
                        )
                        &&& !(t.sender is Publishing) ==> {
                            &&& after == between
                            &&& t.sender is Gone
                        }
                    }
            },
{
    let found = choose|found: Channel<T, Waker>|
        {
            let (left, step) = found.begin_disconnect_step();
            let between = before.push(Event::Stepped(found, left));
            &&& #[trigger] crate::shared::stepped(mutex, found, found.begin_disconnect_step().0)
            &&& match step {
                DisconnectStep::LeftToReceiver => after == between,
                DisconnectStep::Wake(waker) => crate::sender::published(
                    mutex,
                    between,
                    after,
                    waker,
                    None,
                    None,
                ),
                DisconnectStep::Deallocate => after == between,
            }
        };
    assert(crate::shared::stepped(mutex, found, found.begin_disconnect_step().0));
    let between = before.push(Event::Stepped(found, found.begin_disconnect_step().0));
    assert forall|s: System<T, Waker>| s.channel == found && s.sender is Live implies before
        + #[trigger] s.deed(Action::DropSender) == between by {
        assert(before + s.deed(Action::DropSender) =~= between);
    }
}

/// A sender that publishes takes the action [`Action::FinishAwakening`], and does no more. The message
/// comes back as the system records. The waker has been used up in waking the receiver, or has been
/// dropped, as the system records.
pub proof fn law_publish_acts<T>(
    mutex: Mutex<Channel<T, Waker>>,
    before: Seq<Event<T, Waker>>,
    after: Seq<Event<T, Waker>>,
    waker: Waker,
    message: Option<T>,
    back: Option<T>,
)
    requires
        crate::sender::published(mutex, before, after, waker, message, back),
    ensures
        exists|found: Channel<T, Waker>|
            {
                &&& #[trigger] crate::shared::stepped(
                    mutex,
                    found,
                    found.finish_sender_awakening_step(message).0,
                )
                &&& forall|s: System<T, Waker>|
                    s.channel == found && s.sender == SenderPhase::Publishing(waker, message) ==> {
                        let t = #[trigger] s.next(Action::FinishAwakening);
                        &&& s.enabled(Action::FinishAwakening)
                        &&& after == before + s.deed(Action::FinishAwakening)
                        &&& records_send(s, t, back)
                        &&& message is Some && back is None ==> t.accepted
                        &&& {
                            &&& t.spent == s.spent.insert(waker)
                            &&& after.contains(Event::Woke(waker))
                            &&& crate::shared::woken(waker)
                            &&& s.pending == Some(waker) ==> t.woken
                        } || {
                            &&& t.dropped == s.dropped.insert(waker)
                            &&& crate::platform::released(waker)
                        }
                    }
            },
{
    let found = choose|found: Channel<T, Waker>|
        {
            let (left, handover) = found.finish_sender_awakening_step(message);
            let between = before.push(Event::Stepped(found, left));
            &&& #[trigger] crate::shared::stepped(
                mutex,
                found,
                found.finish_sender_awakening_step(message).0,
            )
            &&& back == handover.unpublished
            &&& if handover.receiver_owns_allocation {
                &&& after == between.push(Event::Woke(waker))
                &&& crate::shared::woken(waker)
            } else {
                &&& after == between
                &&& crate::platform::released(waker)
            }
        };
    assert(crate::shared::stepped(mutex, found, found.finish_sender_awakening_step(message).0));
    if found.finish_sender_awakening_step(message).1.receiver_owns_allocation {
        assert(after.last() == Event::<T, Waker>::Woke(waker));
    }
    assert forall|s: System<T, Waker>|
        s.channel == found && s.sender == SenderPhase::Publishing(
            waker,
            message,
        ) implies after == before + #[trigger] s.deed(Action::FinishAwakening) by {
        assert(after =~= before + s.deed(Action::FinishAwakening));
    }
}

/// What an endpoint has done since its record was `before`.
pub open spec fn since<T>(
    before: Seq<Event<T, Waker>>,
    after: Seq<Event<T, Waker>>,
) -> Seq<Event<T, Waker>> {
    after.skip(before.len() as int)
}

/// A poll in the course of a run, in which the sender takes whichever steps it takes, before, between
/// and after those of the poll. At the end of the run the system records what the poll answers.
///
/// No wake-up is lost: if the poll was not complete, and the sender is done, then the task has been
/// woken, by the poll itself or by the sender, and the next poll is complete.
pub proof fn law_poll_in_run<T>(
    mutex: Mutex<Channel<T, Waker>>,
    before: Seq<Event<T, Waker>>,
    after: Seq<Event<T, Waker>>,
    waker: Waker,
    poll: Poll<Result<T, RecvError>>,
    s: System<T, Waker>,
    actions: Seq<Action<T, Waker>>,
    own: Waker,
)
    requires
        crate::receiver::polled(mutex, before, after, waker, poll),
        s.reachable(),
        s.receiver is Future,
        s.all_enabled(actions),
        crate::calls::of_poll(crate::calls::part(actions, false), own),
        s.deeds(actions, false) == since(before, after),
    ensures
        s.run(actions).reachable(),
        records_poll(s, s.run(actions), poll),
        poll is Pending ==> {
            &&& s.run(actions).pending == Some(own)
            &&& of_task(waker, own)
        },
        poll is Pending && s.run(actions).sender is Gone ==> {
            &&& {
                ||| {
                    &&& since(before, after).contains(Event::WokeByRef(waker))
                    &&& crate::shared::woken_by_ref(waker)
                }
                ||| s.deeds(actions, true).contains(Event::Woke(own))
            }
            &&& s.run(actions).channel.poll_answer() is Ready
        },
{
    let t = s.run(actions);
    let done = since(before, after);
    crate::calls::law_poll_run(s, actions, own);
    let n = before.len() as int;
    let found = done[0]->Stepped_0;
    let left = found.begin_poll_step().0;
    let between = before.push(Event::Stepped(found, left));
    assert(done[0] == after[n]);
    assert(found.begin_poll_step().1 is WakeAgain ==> done[1] == after[n + 1]);
    if found.begin_poll_step().1 is Register {
        let clone = choose|clone: Waker|
            {
                &&& #[trigger] crate::platform::is_clone(waker, clone)
                &&& crate::receiver::registered(mutex, between, after, clone, poll)
            };
        assert(crate::receiver::registered(mutex, between, after, clone, poll));
        assert(done.drop_first()[0] == after[n + 1]);
    }
    if poll is Pending && t.sender is Gone {
        crate::protocol::law_no_lost_wakeup(t, own);
        crate::protocol::law_answers(t);
    }
}

/// A send in the course of a run, in which the receiver takes whichever steps it takes. At the end of
/// the run the sender is done, and the system records what came of the message.
pub proof fn law_send_in_run<T>(
    mutex: Mutex<Channel<T, Waker>>,
    before: Seq<Event<T, Waker>>,
    after: Seq<Event<T, Waker>>,
    message: T,
    back: Option<T>,
    s: System<T, Waker>,
    actions: Seq<Action<T, Waker>>,
)
    requires
        crate::sender::sent(mutex, before, after, message, back),
        s.reachable(),
        s.sender is Live,
        s.all_enabled(actions),
        crate::calls::of_send(crate::calls::part(actions, true), message),
        s.deeds(actions, true) == since(before, after),
    ensures
        s.run(actions).reachable(),
        records_send(s, s.run(actions), back),
        s.run(actions).offered == Some(message),
        s.run(actions).accepted == (back is None),
{
    let done = since(before, after);
    crate::calls::law_send_run(s, actions, message);
    crate::protocol::law_reachable_inv(s);
    let n = before.len() as int;
    assert(done[0] == after[n]);
    assert(done.len() > 1 ==> done.drop_first()[0] == after[n + 1]);
}

/// A disconnect of the sender in the course of a run, in which the receiver takes whichever steps it
/// takes. At the end of the run the sender is done, and has sent nothing.
pub proof fn law_disconnect_in_run<T>(
    mutex: Mutex<Channel<T, Waker>>,
    before: Seq<Event<T, Waker>>,
    after: Seq<Event<T, Waker>>,
    s: System<T, Waker>,
    actions: Seq<Action<T, Waker>>,
)
    requires
        crate::sender::left_by_sender(mutex, before, after),
        s.reachable(),
        s.sender is Live,
        s.all_enabled(actions),
        crate::calls::of_disconnect(crate::calls::part(actions, true)),
        s.deeds(actions, true) == since(before, after),
    ensures
        s.run(actions).reachable(),
        records_send(s, s.run(actions), None),
        s.run(actions).offered is None,
{
    let done = since(before, after);
    crate::calls::law_disconnect_run(s, actions);
    crate::protocol::law_reachable_inv(s);
    let n = before.len() as int;
    assert(done[0] == after[n]);
    assert(done.len() > 1 ==> done.drop_first()[0] == after[n + 1]);
}

/// The drop of a receiver in the course of a run, in which the sender takes whichever steps it takes.
/// At the end of the run the receiver is gone, the channel is closed, and the message that the system
/// records as dropped, if there is one, has been dropped.
pub proof fn law_drop_in_run<T>(
    mutex: Mutex<Channel<T, Waker>>,
    before: Seq<Event<T, Waker>>,
    after: Seq<Event<T, Waker>>,
    future: bool,
    s: System<T, Waker>,
    actions: Seq<Action<T, Waker>>,
)
    requires
        if future {
            crate::receiver::left_by_future(mutex, before, after)
        } else {
            crate::receiver::closed_by_receiver(mutex, before, after)
        },
        s.reachable(),
        s.all_enabled(actions),
        crate::calls::of_drop(crate::calls::part(actions, false), future),
        s.deeds(actions, false) == since(before, after),
    ensures
        s.run(actions).reachable(),
        s.run(actions).receiver is Gone,
        s.run(actions).channel.closed(),
        s.run(actions).received == s.received,
        s.run(actions).discarded == s.discarded || exists|message: T|
            {
                &&& s.run(actions).discarded == s.discarded.push(message)
                &&& #[trigger] crate::platform::released(Cleanup::<T, Waker>::DropMessage(message))
            },
{
    let done = since(before, after);
    crate::calls::law_drop_run(s, actions, future);
    let n = before.len() as int;
    assert(done[0] == after[n]);
    assert(done.len() > 1 ==> done.drop_first()[0] == after[n + 1]);
}

/// The record of a poll holds the events of a future that is polled, with the waker of the task or a
/// clone of it.
proof fn lemma_polled_events<T>(
    mutex: Mutex<Channel<T, Waker>>,
    before: Seq<Event<T, Waker>>,
    after: Seq<Event<T, Waker>>,
    waker: Waker,
    poll: Poll<Result<T, RecvError>>,
) -> (own: Waker)
    requires
        crate::receiver::polled(mutex, before, after, waker, poll),
    ensures
        of_task(waker, own),
        crate::calls::polls(since(before, after), own),
{
    let done = since(before, after);
    let n = before.len() as int;
    let found = after[n]->Stepped_0;
    let between = before.push(Event::Stepped(found, found.begin_poll_step().0));
    assert(done[0] == after[n]);
    if found.begin_poll_step().1 is Register {
        let own = choose|clone: Waker|
            {
                &&& #[trigger] crate::platform::is_clone(waker, clone)
                &&& crate::receiver::registered(mutex, between, after, clone, poll)
            };
        assert(crate::receiver::registered(mutex, between, after, own, poll));
        assert(done.drop_first()[0] == after[n + 1]);
        own
    } else {
        waker
    }
}

/// What a sender does that sends the message, or without one disconnects, by its record before and
/// after, and what comes back.
pub open spec fn ended<T>(
    mutex: Mutex<Channel<T, Waker>>,
    before: Seq<Event<T, Waker>>,
    after: Seq<Event<T, Waker>>,
    message: Option<T>,
    back: Option<T>,
) -> bool {
    match message {
        Some(message) => crate::sender::sent(mutex, before, after, message, back),
        None => {
            &&& crate::sender::left_by_sender(mutex, before, after)
            &&& back is None
        },
    }
}

/// The record of a send or a disconnect holds the events of a sender that sends or disconnects, and the
/// wake-up in it was made.
proof fn lemma_ended_events<T>(
    mutex: Mutex<Channel<T, Waker>>,
    before: Seq<Event<T, Waker>>,
    after: Seq<Event<T, Waker>>,
    message: Option<T>,
    back: Option<T>,
)
    requires
        ended(mutex, before, after, message, back),
    ensures
        crate::calls::ends(since(before, after), message),
        forall|waker: Waker| #[trigger]
            since(before, after).contains(Event::Woke(waker)) ==> crate::shared::woken(waker),
{
    let done = since(before, after);
    let n = before.len() as int;
    assert(done[0] == after[n]);
    assert(done.len() > 1 ==> done.drop_first()[0] == after[n + 1]);
    assert(done.len() > 2 ==> done[2] == after[n + 2]);
}

/// No wake-up is lost between a poll and a send or a disconnect, in whichever order the steps of the two
/// calls follow each other: if the poll was not complete, then the sender succeeds, the task has been
/// woken, by the poll itself or by the sender, and what the sender has published, the message or the
/// disconnect, is there for the next poll.
///
/// The steps follow each other, in some order, because each is taken under the lock.
pub proof fn law_no_wakeup_lost<T>(
    mutex: Mutex<Channel<T, Waker>>,
    polling: (Seq<Event<T, Waker>>, Seq<Event<T, Waker>>),
    ending: (Seq<Event<T, Waker>>, Seq<Event<T, Waker>>),
    waker: Waker,
    message: Option<T>,
    back: Option<T>,
    s: System<T, Waker>,
    order: Seq<bool>,
)
    requires
        crate::receiver::polled(
            mutex,
            polling.0,
            polling.1,
            waker,
            Poll::<Result<T, RecvError>>::Pending,
        ),
        ended(mutex, ending.0, ending.1, message, back),
        s.reachable(),
        s.receiver is Future,
        s.sender is Live,
        crate::calls::in_order(
            s.channel,
            since(polling.0, polling.1),
            since(ending.0, ending.1),
            order,
        ),
    ensures
        exists|own: Waker|
            {
                &&& #[trigger] of_task(waker, own)
                &&& {
                    ||| {
                        &&& since(polling.0, polling.1).contains(Event::WokeByRef(waker))
                        &&& crate::shared::woken_by_ref(waker)
                    }
                    ||| {
                        &&& since(ending.0, ending.1).contains(Event::Woke(own))
                        &&& crate::shared::woken(own)
                    }
                }
            },
        back is None,
        ({
            let state = crate::calls::end_of(
                s.channel,
                since(polling.0, polling.1),
                since(ending.0, ending.1),
                order,
            );
            &&& state == Channel::<T, Waker>::published(message)
            &&& state.poll_answer() is Ready
        }),
{
    let pending = Poll::<Result<T, RecvError>>::Pending;
    let own = lemma_polled_events(mutex, polling.0, polling.1, waker, pending);
    lemma_ended_events(mutex, ending.0, ending.1, message, back);
    crate::calls::law_two_calls_run(
        s,
        since(polling.0, polling.1),
        since(ending.0, ending.1),
        order,
        own,
        message,
    );
    let actions = crate::calls::plan(s, order, own, message);
    let t = s.run(actions);
    law_poll_in_run(mutex, polling.0, polling.1, waker, pending, s, actions, own);
    crate::protocol::law_one_owner(s);
    crate::protocol::law_reachable_inv(s);
    match message {
        Some(message) => {
            law_send_in_run(mutex, ending.0, ending.1, message, back, s, actions);
            crate::protocol::law_send_result(t, message);
            crate::protocol::law_reachable_inv(t);
        },
        None => {
            law_disconnect_in_run(mutex, ending.0, ending.1, s, actions);
            crate::protocol::law_dropped_sender(t);
        },
    }
}

/// Whether each of these steps finds the channel as the one before has left it.
pub open spec fn undisturbed<T>(events: Seq<Event<T, Waker>>) -> bool {
    forall|i: int|
        0 <= i < events.len() - 1 && #[trigger] events[i] is Stepped && events[i + 1] is Stepped
            ==> events[i + 1]->Stepped_0 == events[i]->Stepped_1
}

/// A poll that the sender does not disturb, of a channel in the state `from`. If nothing is there to
/// receive, and the sender is not publishing, the poll is not complete, the channel holds a clone of
/// the waker, the waker of an earlier poll has been dropped, and nobody has been woken. If the sender
/// is publishing, the task has been woken once, and the channel is as it was.
pub proof fn law_undisturbed_poll<T>(
    mutex: Mutex<Channel<T, Waker>>,
    before: Seq<Event<T, Waker>>,
    after: Seq<Event<T, Waker>>,
    waker: Waker,
    poll: Poll<Result<T, RecvError>>,
    from: Channel<T, Waker>,
)
    requires
        crate::receiver::polled(mutex, before, after, waker, poll),
        undisturbed(since(before, after)),
        since(before, after)[0]->Stepped_0 == from,
    ensures
        poll == from.poll_answer(),
        match from {
            Channel::Empty | Channel::Receiving(_) => {
                let between = before.push(Event::Stepped(from, Channel::Empty));
                let earlier = match from {
                    Channel::Receiving(earlier) => Some(earlier),
                    _ => None,
                };
                &&& crate::platform::released(earlier)
                &&& exists|own: Waker|
                    {
                        &&& #[trigger] crate::platform::is_clone(waker, own)
                        &&& after == between.push(
                            Event::Stepped(Channel::Empty, Channel::Receiving(own)),
                        )
                    }
            },
            Channel::Awaking => {
                &&& after == before.push(Event::Stepped(from, from)).push(Event::WokeByRef(waker))
                &&& crate::shared::woken_by_ref(waker)
            },
            Channel::Message(_) | Channel::Disconnected => after == before.push(
                Event::Stepped(from, Channel::Disconnected),
            ),
        },
{
    let done = since(before, after);
    let n = before.len() as int;
    let between = before.push(Event::Stepped(from, from.begin_poll_step().0));
    assert(done[0] == after[n]);
    if from is Empty || from is Receiving {
        let own = choose|clone: Waker|
            {
                &&& #[trigger] crate::platform::is_clone(waker, clone)
                &&& crate::receiver::registered(mutex, between, after, clone, poll)
            };
        assert(crate::receiver::registered(mutex, between, after, own, poll));
        assert(done[1] == after[n + 1]);
        assert(done[1]->Stepped_0 == done[0]->Stepped_1);
        assert(crate::platform::is_clone(waker, own));
    }
}

/// A send that the receiver does not disturb, over a channel in the state `from`. If the channel is
/// empty, it then holds the message. If a receiver is waiting, the message is published first, and then
/// the receiver is woken. If the channel is closed, it is left as it was, and the message comes back.
pub proof fn law_undisturbed_send<T>(
    mutex: Mutex<Channel<T, Waker>>,
    before: Seq<Event<T, Waker>>,
    after: Seq<Event<T, Waker>>,
    message: T,
    back: Option<T>,
    from: Channel<T, Waker>,
)
    requires
        crate::sender::sent(mutex, before, after, message, back),
        undisturbed(since(before, after)),
        since(before, after)[0]->Stepped_0 == from,
    ensures
        from is Empty ==> {
            &&& back is None
            &&& after == before.push(Event::Stepped(from, Channel::Message(message)))
        },
        from matches Channel::Receiving(waker) ==> {
            &&& back is None
            &&& after == before.push(Event::Stepped(from, Channel::Awaking)).push(
                Event::Stepped(Channel::Awaking, Channel::Message(message)),
            ).push(Event::Woke(waker))
            &&& crate::shared::woken(waker)
        },
        from is Disconnected ==> {
            &&& back == Some(message)
            &&& after == before.push(Event::Stepped(from, from))
        },
{
    let done = since(before, after);
    let n = before.len() as int;
    assert(done[0] == after[n]);
    if from is Receiving {
        assert(done[1] == after[n + 1]);
        assert(done[1]->Stepped_0 == done[0]->Stepped_1);
    }
}

/// A disconnect of the sender that the receiver does not disturb, over a channel in the state `from`,
/// closes the channel. If a receiver is waiting, it is woken after that.
pub proof fn law_undisturbed_disconnect<T>(
    mutex: Mutex<Channel<T, Waker>>,
    before: Seq<Event<T, Waker>>,
    after: Seq<Event<T, Waker>>,
    from: Channel<T, Waker>,
)
    requires
        crate::sender::left_by_sender(mutex, before, after),
        undisturbed(since(before, after)),
        since(before, after)[0]->Stepped_0 == from,
    ensures
        from is Empty || from is Disconnected ==> after == before.push(
            Event::Stepped(from, Channel::Disconnected),
        ),
        from matches Channel::Receiving(waker) ==> {
            &&& after == before.push(Event::Stepped(from, Channel::Awaking)).push(
                Event::Stepped(Channel::Awaking, Channel::Disconnected),
            ).push(Event::Woke(waker))
            &&& crate::shared::woken(waker)
        },
{
    let done = since(before, after);
    let n = before.len() as int;
    assert(done[0] == after[n]);
    if from is Receiving {
        assert(done[1] == after[n + 1]);
        assert(done[1]->Stepped_0 == done[0]->Stepped_1);
    }
}

/// The drop of a future that the sender does not disturb, of a channel in the state `from`. The channel
/// is closed, what was in it has been dropped, and nobody has been woken.
pub proof fn law_undisturbed_drop<T>(
    mutex: Mutex<Channel<T, Waker>>,
    before: Seq<Event<T, Waker>>,
    after: Seq<Event<T, Waker>>,
    from: Channel<T, Waker>,
)
    requires
        crate::receiver::left_by_future(mutex, before, after),
        undisturbed(since(before, after)),
        since(before, after)[0]->Stepped_0 == from,
    ensures
        ({
            let between = from.reclaim_waker_step().0;
            after == before.push(Event::Stepped(from, between)).push(
                Event::Stepped(between, Channel::Disconnected),
            )
        }),
        from matches Channel::Receiving(waker) ==> crate::platform::released(Some(waker)),
        from matches Channel::Message(message) ==> crate::platform::released(
            Cleanup::<T, Waker>::DropMessage(message),
        ),
{
    let done = since(before, after);
    let n = before.len() as int;
    assert(done[0] == after[n]);
    assert(done[1] == after[n + 1]);
    assert(done[1]->Stepped_0 == done[0]->Stepped_1);
}

/// What is left of a record after a first step and, where there is one, the wake-up that comes with it.
proof fn lemma_alone<T>(
    state: Channel<T, Waker>,
    events: Seq<Event<T, Waker>>,
    order: Seq<bool>,
    sender: bool,
)
    requires
        alone(state, events, order, sender),
    ensures
        events.len() > 0 ==> {
            let later = events.skip(crate::calls::first_few(events));
            &&& events[0] matches Event::Stepped(found, left) && {
                &&& found == state
                &&& alone(left, later, order.drop_first(), sender)
                &&& left_alone(state, events, order, sender) == left_alone(
                    left,
                    later,
                    order.drop_first(),
                    sender,
                )
            }
        },
        events.len() == 0 ==> left_alone(state, events, order, sender) == state,
{
    if order.len() > 0 {
        assert(order[0] == sender);
    }
}

/// Whether one endpoint, with no step of the other in between, can have done this over a channel that
/// was in this state.
pub open spec fn alone<T>(
    state: Channel<T, Waker>,
    events: Seq<Event<T, Waker>>,
    order: Seq<bool>,
    sender: bool,
) -> bool {
    if sender {
        crate::calls::in_order(state, Seq::empty(), events, order)
    } else {
        crate::calls::in_order(state, events, Seq::empty(), order)
    }
}

/// The state in which one endpoint, with no step of the other in between, has left the channel.
pub open spec fn left_alone<T>(
    state: Channel<T, Waker>,
    events: Seq<Event<T, Waker>>,
    order: Seq<bool>,
    sender: bool,
) -> Channel<T, Waker> {
    if sender {
        crate::calls::end_of(state, Seq::empty(), events, order)
    } else {
        crate::calls::end_of(state, events, Seq::empty(), order)
    }
}

/// A poll that the sender does not disturb, of a channel that holds a message when the poll is called,
/// answers with that message, of whichever type, and leaves the channel closed.
pub proof fn law_poll_takes_the_message<T>(
    mutex: Mutex<Channel<T, Waker>>,
    before: Seq<Event<T, Waker>>,
    after: Seq<Event<T, Waker>>,
    waker: Waker,
    poll: Poll<Result<T, RecvError>>,
    message: T,
    order: Seq<bool>,
)
    requires
        crate::receiver::polled(mutex, before, after, waker, poll),
        alone(Channel::Message(message), since(before, after), order, false),
    ensures
        poll == Poll::<Result<T, RecvError>>::Ready(Ok(message)),
        left_alone(Channel::Message(message), since(before, after), order, false).closed(),
{
    let done = since(before, after);
    let state = Channel::<T, Waker>::Message(message);
    assert(done[0] == after[before.len() as int]);
    lemma_alone(state, done, order, false);
    let later = done.skip(crate::calls::first_few(done));
    lemma_alone(Channel::Disconnected, later, order.drop_first(), false);
}

/// A send that succeeds, and that no step of the receiver disturbs, leaves the message in the channel
/// when it returns, of whichever type.
pub proof fn law_sent_message_stays<T>(
    mutex: Mutex<Channel<T, Waker>>,
    before: Seq<Event<T, Waker>>,
    after: Seq<Event<T, Waker>>,
    message: T,
    state: Channel<T, Waker>,
    order: Seq<bool>,
)
    requires
        crate::sender::sent(mutex, before, after, message, None),
        alone(state, since(before, after), order, true),
    ensures
        left_alone(state, since(before, after), order, true) == Channel::<T, Waker>::Message(message),
{
    let done = since(before, after);
    let n = before.len() as int;
    assert(done[0] == after[n]);
    lemma_alone(state, done, order, true);
    let later = done.skip(crate::calls::first_few(done));
    let rest = order.drop_first();
    assert(done.len() > 1 ==> done[1] == after[n + 1]);
    if later.len() > 0 {
        assert(later[0] == done[1]);
        assert(done.len() > 2 ==> later[1] == after[n + 2]);
        lemma_alone(later[0]->Stepped_0, later, rest, true);
        let last = later.skip(crate::calls::first_few(later));
        lemma_alone(later[0]->Stepped_1, last, rest.drop_first(), true);
    } else {
        lemma_alone(done[0]->Stepped_1, later, rest, true);
    }
}

/// What was sent is what the next poll answers: after a send that succeeds, a poll is complete, with the
/// message that was sent, if no other step comes between.
pub proof fn law_sent_then_polled<T>(
    mutex: Mutex<Channel<T, Waker>>,
    sending: (Seq<Event<T, Waker>>, Seq<Event<T, Waker>>),
    polling: (Seq<Event<T, Waker>>, Seq<Event<T, Waker>>),
    waker: Waker,
    poll: Poll<Result<T, RecvError>>,
    message: T,
    state: Channel<T, Waker>,
    orders: (Seq<bool>, Seq<bool>),
)
    requires
        crate::sender::sent(mutex, sending.0, sending.1, message, None),
        crate::receiver::polled(mutex, polling.0, polling.1, waker, poll),
        alone(state, since(sending.0, sending.1), orders.0, true),
        alone(
            left_alone(state, since(sending.0, sending.1), orders.0, true),
            since(polling.0, polling.1),
            orders.1,
            false,
        ),
    ensures
        poll == Poll::<Result<T, RecvError>>::Ready(Ok(message)),
{
    law_sent_message_stays(mutex, sending.0, sending.1, message, state, orders.0);
    law_poll_takes_the_message(mutex, polling.0, polling.1, waker, poll, message, orders.1);
}

/// What was sent is what the next attempt to receive returns: after a send that succeeds, an attempt that
/// finds the channel as the send has left it returns the message that was sent, and the one after that
/// fails.
pub proof fn law_sent_then_tried<T>(
    mutex: Mutex<Channel<T, Waker>>,
    before: Seq<Event<T, Waker>>,
    after: Seq<Event<T, Waker>>,
    message: T,
    state: Channel<T, Waker>,
    order: Seq<bool>,
)
    requires
        crate::sender::sent(mutex, before, after, message, None),
        alone(state, since(before, after), order, true),
    ensures
        ({
            let found = left_alone(state, since(before, after), order, true);
            let (left, result) = found.try_recv_step();
            &&& result == Ok::<T, TryRecvError>(message)
            &&& left.try_recv_step().1 == Err::<T, TryRecvError>(TryRecvError::Disconnected)
        }),
{
    law_sent_message_stays(mutex, before, after, message, state, order);
}

/// To ask whether the channel is closed does not close it: if either endpoint has been told that it is
/// not, and no other step comes between, a send succeeds, and the message is there for the receiver.
pub proof fn law_open_then_sent<T>(
    mutex: Mutex<Channel<T, Waker>>,
    found: Channel<T, Waker>,
    before: Seq<Event<T, Waker>>,
    after: Seq<Event<T, Waker>>,
    message: T,
    back: Option<T>,
    s: System<T, Waker>,
    order: Seq<bool>,
)
    requires
        crate::shared::seen(mutex, found),
        !found.closed(),
        s.reachable(),
        s.sender is Live,
        s.channel == found,
        crate::sender::sent(mutex, before, after, message, back),
        alone(found, since(before, after), order, true),
    ensures
        back is None,
        left_alone(found, since(before, after), order, true) == Channel::<T, Waker>::Message(message),
{
    let done = since(before, after);
    let n = before.len() as int;
    crate::protocol::law_no_unexpected_state(s);
    assert(done[0] == after[n]);
    lemma_alone(found, done, order, true);
    assert(done.len() > 1 ==> done[1] == after[n + 1]);
    let later = done.skip(crate::calls::first_few(done));
    if later.len() > 0 {
        assert(later[0] == done[1]);
        lemma_alone(done[0]->Stepped_1, later, order.drop_first(), true);
    }
    law_sent_message_stays(mutex, before, after, message, found, order);
}

} // verus!
