//! Whole calls of the endpoints, in runs of the [`protocol`](crate::protocol).
//!
//! A call of an endpoint is one or two of its steps, between which the other endpoint may take any
//! number of its own. Each law here is about a run in the course of which an endpoint makes one call
//! and takes no other step, wherever the steps of the call are in the run. It says what the endpoint
//! has done, and what has become of it at the end of the run.
use vstd::prelude::*;

use crate::channel::{Channel, Cleanup, DisconnectStep, Event, PollStep, Registration, SendStep};
use crate::protocol::{Action, ReceiverPhase, SenderPhase, System};

verus! {

/// The steps among these that are of the sender, or else of the receiver.
pub open spec fn part<T, W>(actions: Seq<Action<T, W>>, sender: bool) -> Seq<Action<T, W>>
    decreases actions.len(),
{
    if actions.len() == 0 {
        Seq::empty()
    } else if crate::protocol::by_sender(actions[0]) == sender {
        seq![actions[0]] + part(actions.drop_first(), sender)
    } else {
        part(actions.drop_first(), sender)
    }
}

/// Whether these are the steps of one poll with this waker.
pub open spec fn of_poll<T, W>(actions: Seq<Action<T, W>>, waker: W) -> bool {
    ||| actions == seq![Action::<T, W>::Poll(waker)]
    ||| actions == seq![Action::<T, W>::Poll(waker), Action::Register]
}

/// Whether these are the steps of one send of this message.
pub open spec fn of_send<T, W>(actions: Seq<Action<T, W>>, message: T) -> bool {
    ||| actions == seq![Action::<T, W>::Send(message)]
    ||| actions == seq![Action::<T, W>::Send(message), Action::FinishAwakening]
}

/// Whether these are the steps of one disconnect of the sender.
pub open spec fn of_disconnect<T, W>(actions: Seq<Action<T, W>>) -> bool {
    ||| actions == seq![Action::<T, W>::DropSender]
    ||| actions == seq![Action::<T, W>::DropSender, Action::FinishAwakening]
}

/// What has become of a future that registers the waker in the course of a run from `s` to `t`, of
/// which `own` is what the receiver has done, and `other` what the sender has done.
pub open spec fn after_register<T, W>(
    s: System<T, W>,
    t: System<T, W>,
    waker: W,
    own: Seq<Event<T, W>>,
    other: Seq<Event<T, W>>,
) -> bool {
    &&& own.len() > 0
    &&& own[0] matches Event::Stepped(found, left) && {
        let (after, registration) = found.register_waker_step(waker);
        &&& left == after
        &&& t.receiver is Future
        &&& match registration {
            Registration::Registered => {
                &&& own.len() == 1
                &&& t.pending == Some(waker)
                &&& t.received == s.received
                &&& t.woken ==> other.contains(Event::Woke(waker))
            },
            Registration::Ready(result, _) => {
                &&& own.len() == 1
                &&& t.pending is None
                &&& t.received == s.answered(result).received
            },
            Registration::Occupied(_) => false,
        }
    }
}

/// What has become of a future that is polled with the waker in the course of a run from `s` to `t`,
/// of which `own` is what the receiver has done, and `other` what the sender has done.
pub open spec fn after_poll<T, W>(
    s: System<T, W>,
    t: System<T, W>,
    waker: W,
    own: Seq<Event<T, W>>,
    other: Seq<Event<T, W>>,
) -> bool {
    &&& own.len() > 0
    &&& own[0] matches Event::Stepped(found, left) && {
        let (after, step) = found.begin_poll_step();
        &&& left == after
        &&& match step {
            PollStep::Ready(result) => {
                &&& own.len() == 1
                &&& t.receiver is Future
                &&& t.pending is None
                &&& t.received == s.answered(result).received
            },
            PollStep::Register(_) => if own.len() == 1 {
                t.receiver == ReceiverPhase::Registering(waker)
            } else {
                after_register(s, t, waker, own.drop_first(), other)
            },
            PollStep::WakeAgain => {
                &&& own.len() == 2
                &&& own[1] == Event::<T, W>::WokeByRef(waker)
                &&& t.receiver is Future
                &&& t.pending == Some(waker)
                &&& t.received == s.received
            },
        }
    }
}

/// While the receiver takes no step, what it has got stays, and its pending waker is woken by the
/// sender only.
proof fn lemma_receiver_idle<T, W>(s: System<T, W>, actions: Seq<Action<T, W>>)
    requires
        s.reachable(),
        s.all_enabled(actions),
        part(actions, false).len() == 0,
    ensures
        s.run(actions).reachable(),
        s.run(actions).receiver == s.receiver,
        s.run(actions).pending == s.pending,
        s.run(actions).received == s.received,
        s.deeds(actions, false).len() == 0,
        forall|waker: W|
            s.pending == Some(waker) && !s.woken && s.run(actions).woken ==> #[trigger] s.deeds(
                actions,
                true,
            ).contains(Event::Woke(waker)),
    decreases actions.len(),
{
    if actions.len() > 0 {
        let rest = actions.drop_first();
        let t = s.next(actions[0]);
        assert(crate::protocol::by_sender(actions[0]));
        crate::protocol::law_next_reachable(s, actions[0]);
        lemma_receiver_idle(t, rest);
        assert forall|waker: W|
            s.pending == Some(waker) && !s.woken && s.run(actions).woken implies #[trigger] s.deeds(
            actions,
            true,
        ).contains(Event::Woke(waker)) by {
            let first = s.deed(actions[0]);
            let later = t.deeds(rest, true);
            assert(s.deeds(actions, true) == first + later);
            if t.woken {
                assert(first[1] == Event::<T, W>::Woke(waker));
                assert((first + later)[1] == Event::<T, W>::Woke(waker));
            } else {
                assert(later.contains(Event::Woke(waker)));
                let i = choose|i: int| 0 <= i < later.len() && later[i] == Event::<T, W>::Woke(waker);
                assert((first + later)[first.len() + i] == Event::<T, W>::Woke(waker));
            }
        }
    }
}

/// What is among the later events is among all of them.
proof fn lemma_later<E>(first: Seq<E>, later: Seq<E>, event: E)
    requires
        later.contains(event),
    ensures
        (first + later).contains(event),
{
    let i = choose|i: int| 0 <= i < later.len() && later[i] == event;
    assert((first + later)[first.len() + i] == event);
}

/// The first step of an endpoint in a run can be taken at once: the steps of the other one do not
/// change how far it has got.
proof fn lemma_first_enabled<T, W>(s: System<T, W>, actions: Seq<Action<T, W>>, sender: bool)
    requires
        s.all_enabled(actions),
        part(actions, sender).len() > 0,
    ensures
        s.enabled(part(actions, sender)[0]),
    decreases actions.len(),
{
    if crate::protocol::by_sender(actions[0]) != sender {
        lemma_first_enabled(s.next(actions[0]), actions.drop_first(), sender);
        lemma_part_is_of(actions.drop_first(), sender);
    }
}

/// The part of an endpoint holds its steps only.
proof fn lemma_part_is_of<T, W>(actions: Seq<Action<T, W>>, sender: bool)
    ensures
        part(actions, sender).len() > 0 ==> crate::protocol::by_sender(part(actions, sender)[0])
            == sender,
    decreases actions.len(),
{
    if actions.len() > 0 {
        lemma_part_is_of(actions.drop_first(), sender);
    }
}

/// A run in the course of which the future registers the waker, and takes no other step.
proof fn lemma_register_run<T, W>(s: System<T, W>, actions: Seq<Action<T, W>>, waker: W)
    requires
        s.reachable(),
        s.receiver == ReceiverPhase::Registering(waker),
        s.all_enabled(actions),
        part(actions, false) == seq![Action::<T, W>::Register],
    ensures
        s.run(actions).reachable(),
        after_register(
            s,
            s.run(actions),
            waker,
            s.deeds(actions, false),
            s.deeds(actions, true),
        ),
    decreases actions.len(),
{
    assert(part(actions, false).len() > 0);
    let rest = actions.drop_first();
    let t = s.next(actions[0]);
    crate::protocol::law_reachable_inv(s);
    crate::protocol::law_next_reachable(s, actions[0]);
    if crate::protocol::by_sender(actions[0]) {
        lemma_register_run(t, rest, waker);
        if t.deeds(rest, true).contains(Event::Woke(waker)) {
            lemma_later(s.deed(actions[0]), t.deeds(rest, true), Event::Woke(waker));
        }
    } else {
        assert(actions[0] == part(actions, false)[0]);
        assert(part(actions, false).len() == 1 + part(rest, false).len());
        lemma_receiver_idle(t, rest);
        assert(s.deeds(actions, false) == s.deed(actions[0]));
        assert(s.deeds(actions, true) == t.deeds(rest, true));
    }
}

/// A run in the course of which the future is polled with the waker, and takes no other step.
pub proof fn law_poll_run<T, W>(s: System<T, W>, actions: Seq<Action<T, W>>, waker: W)
    requires
        s.reachable(),
        s.receiver is Future,
        s.all_enabled(actions),
        of_poll(part(actions, false), waker),
    ensures
        s.run(actions).reachable(),
        after_poll(s, s.run(actions), waker, s.deeds(actions, false), s.deeds(actions, true)),
    decreases actions.len(),
{
    assert(part(actions, false).len() > 0);
    let rest = actions.drop_first();
    let t = s.next(actions[0]);
    crate::protocol::law_next_reachable(s, actions[0]);
    if crate::protocol::by_sender(actions[0]) {
        law_poll_run(t, rest, waker);
        if t.deeds(rest, true).contains(Event::Woke(waker)) {
            lemma_later(s.deed(actions[0]), t.deeds(rest, true), Event::Woke(waker));
        }
    } else {
        assert(actions[0] == part(actions, false)[0]);
        assert(part(rest, false) == part(actions, false).drop_first());
        assert(s.deeds(actions, true) == t.deeds(rest, true));
        let own = s.deeds(actions, false);
        if part(rest, false).len() == 0 {
            lemma_receiver_idle(t, rest);
            assert(own == s.deed(actions[0]));
        } else {
            assert(part(rest, false) == seq![Action::<T, W>::Register]);
            lemma_first_enabled(t, rest, false);
            lemma_register_run(t, rest, waker);
            assert(own.drop_first() == t.deeds(rest, false));
        }
    }
}

/// What has become of a sender that publishes the message with the waker in the course of a run from
/// `s` to `t`, of which `own` is what the sender has done.
pub open spec fn after_publish<T, W>(
    s: System<T, W>,
    t: System<T, W>,
    waker: W,
    message: Option<T>,
    own: Seq<Event<T, W>>,
) -> bool {
    &&& own.len() > 0
    &&& own[0] matches Event::Stepped(found, left) && {
        let (after, handover) = found.finish_sender_awakening_step(message);
        &&& left == after
        &&& t.sender is Gone
        &&& if handover.receiver_owns_allocation {
            &&& own.len() == 2
            &&& own[1] == Event::<T, W>::Woke(waker)
            &&& t.accepted == (message is Some)
            &&& t.returned == s.returned
        } else {
            &&& own.len() == 1
            &&& t.accepted == s.accepted
            &&& t.returned == match message {
                Some(message) => s.returned.push(message),
                None => s.returned,
            }
        }
    }
}

/// What has become of a sender that sends the message in the course of a run from `s` to `t`, of which
/// `own` is what the sender has done.
pub open spec fn after_send<T, W>(
    s: System<T, W>,
    t: System<T, W>,
    message: T,
    own: Seq<Event<T, W>>,
) -> bool {
    &&& own.len() > 0
    &&& own[0] matches Event::Stepped(found, left) && {
        let (after, step) = found.begin_send_step(message);
        &&& left == after
        &&& t.offered == Some(message)
        &&& match step {
            SendStep::Sent => {
                &&& own.len() == 1
                &&& t.sender is Gone
                &&& t.accepted
                &&& t.returned == s.returned
            },
            SendStep::Wake(waker, message) => if own.len() == 1 {
                t.sender == SenderPhase::Publishing(waker, Some(message))
            } else {
                after_publish(s, t, waker, Some(message), own.drop_first())
            },
            SendStep::Refused(message) => {
                &&& own.len() == 1
                &&& t.sender is Gone
                &&& t.accepted == s.accepted
                &&& t.returned == s.returned.push(message)
            },
        }
    }
}

/// What has become of a sender that disconnects in the course of a run from `s` to `t`, of which `own`
/// is what the sender has done.
pub open spec fn after_disconnect<T, W>(
    s: System<T, W>,
    t: System<T, W>,
    own: Seq<Event<T, W>>,
) -> bool {
    &&& own.len() > 0
    &&& own[0] matches Event::Stepped(found, left) && {
        let (after, step) = found.begin_disconnect_step();
        &&& left == after
        &&& t.offered == s.offered
        &&& match step {
            DisconnectStep::Wake(waker) => if own.len() == 1 {
                t.sender == SenderPhase::Publishing(waker, None::<T>)
            } else {
                after_publish(s, t, waker, None, own.drop_first())
            },
            _ => {
                &&& own.len() == 1
                &&& t.sender is Gone
                &&& t.accepted == s.accepted
                &&& t.returned == s.returned
            },
        }
    }
}

/// While the sender takes no step, it gets no further.
proof fn lemma_sender_idle<T, W>(s: System<T, W>, actions: Seq<Action<T, W>>)
    requires
        s.reachable(),
        s.all_enabled(actions),
        part(actions, true).len() == 0,
    ensures
        s.run(actions).reachable(),
        s.run(actions).sender == s.sender,
        s.run(actions).offered == s.offered,
        s.run(actions).accepted == s.accepted,
        s.run(actions).returned == s.returned,
        s.deeds(actions, true).len() == 0,
    decreases actions.len(),
{
    if actions.len() > 0 {
        crate::protocol::law_next_reachable(s, actions[0]);
        lemma_sender_idle(s.next(actions[0]), actions.drop_first());
    }
}

/// A run in the course of which the sender publishes, and takes no other step.
proof fn lemma_publish_run<T, W>(
    s: System<T, W>,
    actions: Seq<Action<T, W>>,
    waker: W,
    message: Option<T>,
)
    requires
        s.reachable(),
        s.sender == SenderPhase::Publishing(waker, message),
        s.all_enabled(actions),
        part(actions, true) == seq![Action::<T, W>::FinishAwakening],
    ensures
        s.run(actions).reachable(),
        s.run(actions).offered == s.offered,
        after_publish(s, s.run(actions), waker, message, s.deeds(actions, true)),
    decreases actions.len(),
{
    assert(part(actions, true).len() > 0);
    let rest = actions.drop_first();
    let t = s.next(actions[0]);
    crate::protocol::law_next_reachable(s, actions[0]);
    if !crate::protocol::by_sender(actions[0]) {
        lemma_publish_run(t, rest, waker, message);
    } else {
        assert(actions[0] == part(actions, true)[0]);
        assert(part(actions, true).len() == 1 + part(rest, true).len());
        lemma_sender_idle(t, rest);
        assert(s.deeds(actions, true) == s.deed(actions[0]));
    }
}

/// A run in the course of which the sender sends the message, and takes no other step.
pub proof fn law_send_run<T, W>(s: System<T, W>, actions: Seq<Action<T, W>>, message: T)
    requires
        s.reachable(),
        s.all_enabled(actions),
        of_send(part(actions, true), message),
    ensures
        s.run(actions).reachable(),
        after_send(s, s.run(actions), message, s.deeds(actions, true)),
    decreases actions.len(),
{
    assert(part(actions, true).len() > 0);
    let rest = actions.drop_first();
    let t = s.next(actions[0]);
    crate::protocol::law_next_reachable(s, actions[0]);
    if !crate::protocol::by_sender(actions[0]) {
        law_send_run(t, rest, message);
    } else {
        assert(actions[0] == part(actions, true)[0]);
        assert(part(rest, true) == part(actions, true).drop_first());
        let own = s.deeds(actions, true);
        if part(rest, true).len() == 0 {
            lemma_sender_idle(t, rest);
            assert(own == s.deed(actions[0]));
        } else {
            assert(part(rest, true) == seq![Action::<T, W>::FinishAwakening]);
            lemma_first_enabled(t, rest, true);
            lemma_publish_run(t, rest, t.sender->Publishing_0, t.sender->Publishing_1);
            assert(own.drop_first() == t.deeds(rest, true));
        }
    }
}

/// A run in the course of which the sender disconnects, and takes no other step.
pub proof fn law_disconnect_run<T, W>(s: System<T, W>, actions: Seq<Action<T, W>>)
    requires
        s.reachable(),
        s.all_enabled(actions),
        of_disconnect(part(actions, true)),
    ensures
        s.run(actions).reachable(),
        after_disconnect(s, s.run(actions), s.deeds(actions, true)),
    decreases actions.len(),
{
    assert(part(actions, true).len() > 0);
    let rest = actions.drop_first();
    let t = s.next(actions[0]);
    crate::protocol::law_next_reachable(s, actions[0]);
    if !crate::protocol::by_sender(actions[0]) {
        law_disconnect_run(t, rest);
    } else {
        assert(actions[0] == part(actions, true)[0]);
        assert(part(rest, true) == part(actions, true).drop_first());
        let own = s.deeds(actions, true);
        if part(rest, true).len() == 0 {
            lemma_sender_idle(t, rest);
            assert(own == s.deed(actions[0]));
        } else {
            assert(part(rest, true) == seq![Action::<T, W>::FinishAwakening]);
            lemma_first_enabled(t, rest, true);
            lemma_publish_run(t, rest, t.sender->Publishing_0, t.sender->Publishing_1);
            assert(own.drop_first() == t.deeds(rest, true));
        }
    }
}

/// Whether these are the steps of a receiver that is dropped.
pub open spec fn of_drop<T, W>(actions: Seq<Action<T, W>>, future: bool) -> bool {
    if future {
        actions == seq![Action::<T, W>::ReclaimWaker, Action::DropRecv]
    } else {
        actions == seq![Action::<T, W>::DropReceiver]
    }
}

/// What has become of a receiver that closes the channel in the course of a run from `s` to `t`, of
/// which `own` is what the receiver has done.
pub open spec fn after_close<T, W>(
    s: System<T, W>,
    t: System<T, W>,
    own: Seq<Event<T, W>>,
) -> bool {
    &&& own.len() == 1
    &&& own[0] matches Event::Stepped(found, left) && {
        let (after, cleanup) = found.disconnect_step();
        &&& left == after
        &&& t.receiver is Gone
        &&& t.channel.closed()
        &&& t.received == s.received
        &&& t.discarded == match cleanup {
            Cleanup::DropMessage(message) => s.discarded.push(message),
            _ => s.discarded,
        }
    }
}

/// What has become of a receiver that is dropped in the course of a run from `s` to `t`, of which `own`
/// is what the receiver has done.
pub open spec fn after_drop<T, W>(
    s: System<T, W>,
    t: System<T, W>,
    own: Seq<Event<T, W>>,
    future: bool,
) -> bool {
    if future {
        &&& own.len() > 0
        &&& own[0] matches Event::Stepped(found, left) && {
            &&& left == found.reclaim_waker_step().0
            &&& after_close(s, t, own.drop_first())
        }
    } else {
        after_close(s, t, own)
    }
}

/// While the receiver takes no step, it drops nothing.
proof fn lemma_nothing_discarded<T, W>(s: System<T, W>, actions: Seq<Action<T, W>>)
    requires
        s.all_enabled(actions),
        part(actions, false).len() == 0,
    ensures
        s.run(actions).discarded == s.discarded,
    decreases actions.len(),
{
    if actions.len() > 0 {
        lemma_nothing_discarded(s.next(actions[0]), actions.drop_first());
    }
}

/// A run in the course of which the receiver closes the channel, and takes no other step.
proof fn lemma_close_run<T, W>(
    s: System<T, W>,
    actions: Seq<Action<T, W>>,
    close: Action<T, W>,
)
    requires
        s.reachable(),
        s.all_enabled(actions),
        close is DropReceiver || close is DropRecv,
        part(actions, false) == seq![close],
    ensures
        s.run(actions).reachable(),
        after_close(s, s.run(actions), s.deeds(actions, false)),
    decreases actions.len(),
{
    assert(part(actions, false).len() > 0);
    let rest = actions.drop_first();
    let t = s.next(actions[0]);
    crate::protocol::law_next_reachable(s, actions[0]);
    if crate::protocol::by_sender(actions[0]) {
        lemma_close_run(t, rest, close);
    } else {
        assert(actions[0] == part(actions, false)[0]);
        assert(part(actions, false).len() == 1 + part(rest, false).len());
        lemma_receiver_idle(t, rest);
        lemma_nothing_discarded(t, rest);
        crate::protocol::law_reachable_inv(s.run(actions));
        assert(s.deeds(actions, false) == s.deed(actions[0]));
    }
}

/// A run in the course of which the receiver is dropped, and takes no other step.
pub proof fn law_drop_run<T, W>(s: System<T, W>, actions: Seq<Action<T, W>>, future: bool)
    requires
        s.reachable(),
        s.all_enabled(actions),
        of_drop(part(actions, false), future),
    ensures
        s.run(actions).reachable(),
        after_drop(s, s.run(actions), s.deeds(actions, false), future),
    decreases actions.len(),
{
    assert(part(actions, false).len() > 0);
    let rest = actions.drop_first();
    let t = s.next(actions[0]);
    crate::protocol::law_next_reachable(s, actions[0]);
    if !future {
        lemma_close_run(s, actions, Action::DropReceiver);
    } else if crate::protocol::by_sender(actions[0]) {
        law_drop_run(t, rest, future);
    } else {
        assert(actions[0] == part(actions, false)[0]);
        assert(part(rest, false) == part(actions, false).drop_first());
        assert(part(rest, false) == seq![Action::<T, W>::DropRecv]);
        lemma_close_run(t, rest, Action::DropRecv);
        assert(s.deeds(actions, false).drop_first() == t.deeds(rest, false));
    }
}

/// How many of these events come with the first step: the step itself, and the wake-up after it, if
/// there is one.
pub open spec fn first_few<T, W>(events: Seq<Event<T, W>>) -> int {
    if events.len() > 1 && !(events[1] is Stepped) {
        2
    } else {
        1
    }
}

/// Whether the steps among the events of the receiver and of the sender can follow each other in this
/// order, in which true stands for a step of the sender, over a channel in this state: each step finds
/// the channel as the one before it has left it.
pub open spec fn in_order<T, W>(
    state: Channel<T, W>,
    receiver: Seq<Event<T, W>>,
    sender: Seq<Event<T, W>>,
    order: Seq<bool>,
) -> bool
    decreases order.len(),
{
    if order.len() == 0 {
        receiver.len() == 0 && sender.len() == 0
    } else if order[0] {
        &&& sender.len() > 0
        &&& sender[0] matches Event::Stepped(found, left) && {
            &&& found == state
            &&& in_order(left, receiver, sender.skip(first_few(sender)), order.drop_first())
        }
    } else {
        &&& receiver.len() > 0
        &&& receiver[0] matches Event::Stepped(found, left) && {
            &&& found == state
            &&& in_order(left, receiver.skip(first_few(receiver)), sender, order.drop_first())
        }
    }
}

/// The state in which the steps, in this order, leave the channel.
pub open spec fn end_of<T, W>(
    state: Channel<T, W>,
    receiver: Seq<Event<T, W>>,
    sender: Seq<Event<T, W>>,
    order: Seq<bool>,
) -> Channel<T, W>
    decreases order.len(),
{
    if order.len() == 0 {
        state
    } else if order[0] {
        end_of(
            sender[0]->Stepped_1,
            receiver,
            sender.skip(first_few(sender)),
            order.drop_first(),
        )
    } else {
        end_of(
            receiver[0]->Stepped_1,
            receiver.skip(first_few(receiver)),
            sender,
            order.drop_first(),
        )
    }
}

/// Whether these are the events of a future that registers the waker.
pub open spec fn registers<T, W>(events: Seq<Event<T, W>>, waker: W) -> bool {
    &&& events.len() > 0
    &&& events[0] matches Event::Stepped(found, left) && {
        let (after, registration) = found.register_waker_step(waker);
        &&& left == after
        &&& if registration is Occupied {
            &&& events.len() == 2
            &&& events[1] == Event::<T, W>::Woke(waker)
        } else {
            events.len() == 1
        }
    }
}

/// Whether these are the events of a future that is polled with the waker.
pub open spec fn polls<T, W>(events: Seq<Event<T, W>>, waker: W) -> bool {
    &&& events.len() > 0
    &&& events[0] matches Event::Stepped(found, left) && {
        let (after, step) = found.begin_poll_step();
        &&& left == after
        &&& match step {
            PollStep::Ready(_) => events.len() == 1,
            PollStep::Register(_) => registers(events.drop_first(), waker),
            PollStep::WakeAgain => {
                &&& events.len() == 2
                &&& events[1] == Event::<T, W>::WokeByRef(waker)
            },
        }
    }
}

/// Whether these are the events of a sender that publishes the message, or without one the disconnect.
pub open spec fn publishes<T, W>(events: Seq<Event<T, W>>, waker: W, message: Option<T>) -> bool {
    &&& events.len() > 0
    &&& events[0] matches Event::Stepped(found, left) && {
        let (after, handover) = found.finish_sender_awakening_step(message);
        &&& left == after
        &&& if handover.receiver_owns_allocation {
            &&& events.len() == 2
            &&& events[1] == Event::<T, W>::Woke(waker)
        } else {
            events.len() == 1
        }
    }
}

/// Whether these are the events of a sender that sends the message, or without one disconnects.
pub open spec fn ends<T, W>(events: Seq<Event<T, W>>, message: Option<T>) -> bool {
    &&& events.len() > 0
    &&& events[0] matches Event::Stepped(found, left) && match message {
        Some(message) => {
            let (after, step) = found.begin_send_step(message);
            &&& left == after
            &&& match step {
                SendStep::Wake(waker, message) => publishes(
                    events.drop_first(),
                    waker,
                    Some(message),
                ),
                _ => events.len() == 1,
            }
        },
        None => {
            let (after, step) = found.begin_disconnect_step();
            &&& left == after
            &&& match step {
                DisconnectStep::Wake(waker) => publishes(events.drop_first(), waker, None),
                _ => events.len() == 1,
            }
        },
    }
}

/// Whether these are the steps with which the sender sends the message, or without one disconnects.
pub open spec fn of_end<T, W>(actions: Seq<Action<T, W>>, message: Option<T>) -> bool {
    match message {
        Some(message) => of_send(actions, message),
        None => of_disconnect(actions),
    }
}

/// The next step of the sender, which sends the message, or without one disconnects.
pub open spec fn next_of_sender<T, W>(s: System<T, W>, message: Option<T>) -> Action<T, W> {
    if s.sender is Publishing {
        Action::FinishAwakening
    } else {
        match message {
            Some(message) => Action::Send(message),
            None => Action::DropSender,
        }
    }
}

/// The next step of the future, which is polled with the waker.
pub open spec fn next_of_receiver<T, W>(s: System<T, W>, waker: W) -> Action<T, W> {
    if s.receiver is Registering {
        Action::Register
    } else {
        Action::Poll(waker)
    }
}

/// The steps of a poll and of a send or a disconnect, in this order.
pub open spec fn plan<T, W>(
    s: System<T, W>,
    order: Seq<bool>,
    waker: W,
    message: Option<T>,
) -> Seq<Action<T, W>>
    decreases order.len(),
{
    if order.len() == 0 {
        Seq::empty()
    } else {
        let action = if order[0] {
            next_of_sender(s, message)
        } else {
            next_of_receiver(s, waker)
        };
        seq![action] + plan(s.next(action), order.drop_first(), waker, message)
    }
}

/// Whether the future has got to the point where these are the events that are left of its poll.
pub open spec fn poll_left<T, W>(s: System<T, W>, events: Seq<Event<T, W>>, waker: W) -> bool {
    match s.receiver {
        ReceiverPhase::Future => events.len() == 0 || polls(events, waker),
        ReceiverPhase::Registering(own) => own == waker && registers(events, waker),
        _ => false,
    }
}

/// Whether the sender has got to the point where these are the events that are left of its send or
/// disconnect.
pub open spec fn end_left<T, W>(
    s: System<T, W>,
    events: Seq<Event<T, W>>,
    message: Option<T>,
) -> bool {
    match s.sender {
        SenderPhase::Live => ends(events, message),
        SenderPhase::Publishing(waker, own) => own == message && publishes(events, waker, message),
        SenderPhase::Gone => events.len() == 0,
    }
}

/// The steps that are left of a poll.
pub open spec fn steps_of_poll<T, W>(
    s: System<T, W>,
    events: Seq<Event<T, W>>,
    waker: W,
) -> Seq<Action<T, W>> {
    if s.receiver is Registering {
        seq![Action::Register]
    } else if events.len() == 0 {
        Seq::empty()
    } else if events[0]->Stepped_0.begin_poll_step().1 is Register {
        seq![Action::Poll(waker), Action::Register]
    } else {
        seq![Action::Poll(waker)]
    }
}

/// The steps that are left of a send or a disconnect.
pub open spec fn steps_of_end<T, W>(
    s: System<T, W>,
    events: Seq<Event<T, W>>,
    message: Option<T>,
) -> Seq<Action<T, W>> {
    if events.len() == 0 {
        Seq::empty()
    } else if s.sender is Publishing {
        seq![Action::FinishAwakening]
    } else if events[0]->Stepped_0 is Receiving {
        seq![next_of_sender(s, message), Action::FinishAwakening]
    } else {
        seq![next_of_sender(s, message)]
    }
}

/// The events that are left of the two calls are those of the steps in the plan.
proof fn lemma_plan<T, W>(
    s: System<T, W>,
    receiver: Seq<Event<T, W>>,
    sender: Seq<Event<T, W>>,
    order: Seq<bool>,
    waker: W,
    message: Option<T>,
)
    requires
        poll_left(s, receiver, waker),
        end_left(s, sender, message),
        in_order(s.channel, receiver, sender, order),
    ensures
        ({
            let actions = plan(s, order, waker, message);
            &&& s.all_enabled(actions)
            &&& s.deeds(actions, false) == receiver
            &&& s.deeds(actions, true) == sender
            &&& part(actions, false) == steps_of_poll(s, receiver, waker)
            &&& part(actions, true) == steps_of_end(s, sender, message)
            &&& s.run(actions).channel == end_of(s.channel, receiver, sender, order)
        }),
    decreases order.len(),
{
    let actions = plan(s, order, waker, message);
    if order.len() > 0 {
        let action = actions[0];
        let t = s.next(action);
        let rest = plan(t, order.drop_first(), waker, message);
        assert(actions.drop_first() == rest);
        if order[0] {
            let later = sender.skip(first_few(sender));
            assert(sender == s.deed(action) + later);
            assert(sender.len() > 1 ==> later =~= sender.drop_first() || later.len() == 0);
            lemma_plan(t, receiver, later, order.drop_first(), waker, message);
        } else {
            let later = receiver.skip(first_few(receiver));
            assert(receiver == s.deed(action) + later);
            lemma_plan(t, later, sender, order.drop_first(), waker, message);
        }
    }
}

/// A poll with the waker, and a send of the message or without one a disconnect, whose steps follow
/// each other in some order over the channel of the system, are a run of the system: there are steps
/// of the system with which the two endpoints do what they have done.
pub proof fn law_two_calls_run<T, W>(
    s: System<T, W>,
    receiver: Seq<Event<T, W>>,
    sender: Seq<Event<T, W>>,
    order: Seq<bool>,
    waker: W,
    message: Option<T>,
)
    requires
        s.receiver is Future,
        s.sender is Live,
        polls(receiver, waker),
        ends(sender, message),
        in_order(s.channel, receiver, sender, order),
    ensures
        ({
            let actions = plan(s, order, waker, message);
            &&& s.all_enabled(actions)
            &&& of_poll(part(actions, false), waker)
            &&& of_end(part(actions, true), message)
            &&& s.deeds(actions, false) == receiver
            &&& s.deeds(actions, true) == sender
            &&& s.run(actions).channel == end_of(s.channel, receiver, sender, order)
        }),
{
    lemma_plan(s, receiver, sender, order, waker, message);
}

} // verus!
