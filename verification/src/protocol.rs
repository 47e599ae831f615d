//! What holds of a channel however the steps of its two endpoints interleave.
//!
//! A [`System`] is a channel together with how far each endpoint has got and what has become of the
//! message and of the wakers. An [`Action`] is one step of one endpoint; between any two steps of
//! one endpoint the other may take any number of steps. The effect of an action on the channel is
//! the step that the [`Channel`] method of the same name takes.
use std::task::Poll;
use vstd::multiset::Multiset;
use vstd::prelude::*;

use crate::channel::{
    Channel, Cleanup, DisconnectStep, Event, PollStep, Registration, SendStep,
};
use crate::error::{RecvError, TryRecvError};

verus! {

/// How far the sender has got.
pub enum SenderPhase<T, W> {
    /// It has neither sent nor disconnected.
    Live,
    /// It owns the waker of the receiver, and is about to publish the message, or without one the
    /// disconnect.
    Publishing(W, Option<T>),
    /// It is done and will not access the channel again.
    Gone,
}

/// How far the receiver has got.
pub enum ReceiverPhase<W> {
    /// It is a [`Receiver`](crate::Receiver).
    Direct,
    /// It is a [`Recv`](crate::Recv) that is not being polled.
    Future,
    /// It is a [`Recv`](crate::Recv) that is being polled, about to register the waker.
    Registering(W),
    /// It is a [`Recv`](crate::Recv) that is being dropped, and has taken its waker back.
    Leaving,
    /// It is done and will not access the channel again.
    Gone,
}

/// One step of one endpoint.
pub enum Action<T, W> {
    /// The sender starts to send.
    Send(T),
    /// The sender disconnects without having sent.
    DropSender,
    /// The sender publishes what it had to hold back, and wakes the receiver.
    FinishAwakening,
    /// The receiver tries to receive.
    TryRecv,
    /// The receiver becomes a future.
    IntoFuture,
    /// The future is polled by the task with this waker.
    Poll(W),
    /// The poll goes on: the future registers the waker.
    Register,
    /// The receiver is dropped.
    DropReceiver,
    /// The future is dropped. It takes back its waker first.
    ReclaimWaker,
    /// The drop of the future goes on: it closes the channel.
    DropRecv,
}

/// A channel, its endpoints and what they have done so far.
pub struct System<T, W> {
    /// The state that the endpoints share.
    pub channel: Channel<T, W>,
    /// How far the sender has got.
    pub sender: SenderPhase<T, W>,
    /// How far the receiver has got.
    pub receiver: ReceiverPhase<W>,
    /// The message that the sender was asked to send, if it was.
    pub offered: Option<T>,
    /// Whether the sender has reported that the message was sent.
    pub accepted: bool,
    /// The messages that the receiver has returned.
    pub received: Seq<T>,
    /// The messages that a failed send has given back.
    pub returned: Seq<T>,
    /// The messages that the receiver has dropped as it was dropped.
    pub discarded: Seq<T>,
    /// The waker of the last poll, if that poll was not complete.
    pub pending: Option<W>,
    /// Whether the pending waker has been woken.
    pub woken: bool,
    /// The wakers that the polls of the future have cloned.
    pub clones: Multiset<W>,
    /// The clones that have been used up in waking a task.
    pub spent: Multiset<W>,
    /// The clones that have been dropped without waking anybody.
    pub dropped: Multiset<W>,
    /// How often it fell to an endpoint to free the channel. The memory is in fact freed with the last
    /// hold on it; the endpoint to which it falls is the one that lets go last.
    pub frees: nat,
}

/// The waker, if there is one.
pub open spec fn kept<W>(waker: Option<W>) -> Multiset<W> {
    match waker {
        Some(waker) => Multiset::singleton(waker),
        None => Multiset::empty(),
    }
}

impl<T, W> System<T, W> {
    /// A channel that has just been made.
    pub open spec fn init() -> Self {
        System {
            channel: Channel::Empty,
            sender: SenderPhase::Live,
            receiver: ReceiverPhase::Direct,
            offered: None,
            accepted: false,
            received: Seq::empty(),
            returned: Seq::empty(),
            discarded: Seq::empty(),
            pending: None,
            woken: false,
            clones: Multiset::empty(),
            spent: Multiset::empty(),
            dropped: Multiset::empty(),
            frees: 0,
        }
    }

    /// Whether the endpoint has got to the point where it can take this step.
    pub open spec fn enabled(self, action: Action<T, W>) -> bool {
        match action {
            Action::Send(_) | Action::DropSender => self.sender is Live,
            Action::FinishAwakening => self.sender is Publishing,
            Action::TryRecv | Action::IntoFuture | Action::DropReceiver => self.receiver is Direct,
            Action::Poll(_) | Action::ReclaimWaker => self.receiver is Future,
            Action::Register => self.receiver is Registering,
            Action::DropRecv => self.receiver is Leaving,
        }
    }

    /// The sender starts to send.
    pub open spec fn send(self, message: T) -> Self {
        let (channel, step) = self.channel.begin_send_step(message);
        let s = System { channel, offered: Some(message), ..self };
        match step {
            SendStep::Sent => System { sender: SenderPhase::Gone, accepted: true, ..s },
            SendStep::Wake(waker, message) => System {
                sender: SenderPhase::Publishing(waker, Some(message)),
                ..s
            },
            SendStep::Refused(message) => System {
                sender: SenderPhase::Gone,
                returned: s.returned.push(message),
                frees: s.frees + 1,
                ..s
            },
        }
    }

    /// The sender disconnects without having sent.
    pub open spec fn drop_sender(self) -> Self {
        let (channel, step) = self.channel.begin_disconnect_step();
        let s = System { channel, ..self };
        match step {
            DisconnectStep::LeftToReceiver => System { sender: SenderPhase::Gone, ..s },
            DisconnectStep::Wake(waker) => System {
                sender: SenderPhase::Publishing(waker, None),
                ..s
            },
            DisconnectStep::Deallocate => System {
                sender: SenderPhase::Gone,
                frees: s.frees + 1,
                ..s
            },
        }
    }

    /// The sender publishes, and wakes the receiver if that is still there.
    pub open spec fn finish_awakening(self) -> Self {
        match self.sender {
            SenderPhase::Publishing(waker, message) => {
                let (channel, handover) = self.channel.finish_sender_awakening_step(message);
                let s = System { channel, sender: SenderPhase::Gone, ..self };
                if handover.receiver_owns_allocation {
                    System {
                        accepted: message is Some,
                        woken: s.woken || s.pending == Some(waker),
                        spent: s.spent.insert(waker),
                        ..s
                    }
                } else {
                    System {
                        returned: match handover.unpublished {
                            Some(message) => s.returned.push(message),
                            None => s.returned,
                        },
                        dropped: s.dropped.insert(waker),
                        frees: s.frees + 1,
                        ..s
                    }
                }
            },
            _ => self,
        }
    }

    /// The receiver has got an answer.
    pub open spec fn answered<E>(self, result: Result<T, E>) -> Self {
        match result {
            Ok(message) => System { received: self.received.push(message), ..self },
            Err(_) => self,
        }
    }

    /// The receiver tries to receive.
    pub open spec fn try_recv(self) -> Self {
        let (channel, result) = self.channel.try_recv_step();
        System { channel, ..self }.answered(result)
    }

    /// The future is polled.
    pub open spec fn poll(self, waker: W) -> Self {
        let (channel, step) = self.channel.begin_poll_step();
        let s = System { channel, pending: None, woken: false, ..self };
        match step {
            PollStep::Ready(result) => s.answered(result),
            PollStep::Register(earlier) => System {
                receiver: ReceiverPhase::Registering(waker),
                clones: s.clones.insert(waker),
                dropped: s.dropped.add(kept(earlier)),
                ..s
            },
            PollStep::WakeAgain => System { pending: Some(waker), woken: true, ..s },
        }
    }

    /// The poll goes on.
    pub open spec fn register(self) -> Self {
        match self.receiver {
            ReceiverPhase::Registering(waker) => {
                let (channel, registration) = self.channel.register_waker_step(waker);
                let s = System { channel, receiver: ReceiverPhase::Future, ..self };
                match registration {
                    Registration::Registered => System { pending: Some(waker), woken: false, ..s },
                    Registration::Ready(result, unused) => System {
                        dropped: s.dropped.insert(unused),
                        ..s
                    }.answered(result),
                    Registration::Occupied(own) => System {
                        pending: Some(own),
                        woken: true,
                        spent: s.spent.insert(own),
                        ..s
                    },
                }
            },
            _ => self,
        }
    }

    /// The receiver closes the channel and is gone.
    pub open spec fn leave(self) -> Self {
        let (channel, cleanup) = self.channel.disconnect_step();
        let s = System { channel, receiver: ReceiverPhase::Gone, ..self };
        match cleanup {
            Cleanup::LeftToSender => s,
            Cleanup::DropWaker(waker) => System { dropped: s.dropped.insert(waker), ..s },
            Cleanup::Deallocate => System { frees: s.frees + 1, ..s },
            Cleanup::DropMessage(message) => System {
                discarded: s.discarded.push(message),
                frees: s.frees + 1,
                ..s
            },
        }
    }

    /// The system after the step.
    pub open spec fn next(self, action: Action<T, W>) -> Self {
        match action {
            Action::Send(message) => self.send(message),
            Action::DropSender => self.drop_sender(),
            Action::FinishAwakening => self.finish_awakening(),
            Action::TryRecv => self.try_recv(),
            Action::IntoFuture => System { receiver: ReceiverPhase::Future, ..self },
            Action::Poll(waker) => self.poll(waker),
            Action::Register => self.register(),
            Action::DropReceiver => self.leave(),
            Action::ReclaimWaker => System {
                channel: self.channel.reclaim_waker_step().0,
                receiver: ReceiverPhase::Leaving,
                dropped: self.dropped.add(kept(self.channel.reclaim_waker_step().1)),
                ..self
            },
            Action::DropRecv => self.leave(),
        }
    }

    /// What the endpoint does as it takes the step, in order: the step itself, if it is one on the
    /// channel, and then the wake-up that comes with it, if one does.
    pub open spec fn deed(self, action: Action<T, W>) -> Seq<Event<T, W>> {
        let step = seq![Event::Stepped(self.channel, self.next(action).channel)];
        match action {
            Action::IntoFuture => Seq::empty(),
            Action::FinishAwakening => match self.sender {
                SenderPhase::Publishing(waker, message) if self.channel.finish_sender_awakening_step(
                    message,
                ).1.receiver_owns_allocation => step.push(Event::Woke(waker)),
                _ => step,
            },
            Action::Poll(waker) => if self.channel.begin_poll_step().1 is WakeAgain {
                step.push(Event::WokeByRef(waker))
            } else {
                step
            },
            Action::Register => match self.receiver {
                ReceiverPhase::Registering(waker) if self.channel.register_waker_step(
                    waker,
                ).1 is Occupied => step.push(Event::Woke(waker)),
                _ => step,
            },
            _ => step,
        }
    }

    /// What the sender, or else the receiver, does in the course of these steps, in order.
    pub open spec fn deeds(self, actions: Seq<Action<T, W>>, sender: bool) -> Seq<Event<T, W>>
        decreases actions.len(),
    {
        if actions.len() == 0 {
            Seq::empty()
        } else {
            let rest = self.next(actions[0]).deeds(actions.drop_first(), sender);
            if by_sender(actions[0]) == sender {
                self.deed(actions[0]) + rest
            } else {
                rest
            }
        }
    }

    /// Whether the endpoints can take these steps one after the other.
    pub open spec fn all_enabled(self, actions: Seq<Action<T, W>>) -> bool
        decreases actions.len(),
    {
        actions.len() == 0 || (self.enabled(actions[0]) && self.next(actions[0]).all_enabled(
            actions.drop_first(),
        ))
    }

    /// The system after these steps.
    pub open spec fn run(self, actions: Seq<Action<T, W>>) -> Self
        decreases actions.len(),
    {
        if actions.len() == 0 {
            self
        } else {
            self.next(actions[0]).run(actions.drop_first())
        }
    }

    /// Whether some interleaving leads from a new channel to this system.
    pub open spec fn reachable(self) -> bool {
        exists|actions: Seq<Action<T, W>>|
            {
                &&& #[trigger] Self::init().all_enabled(actions)
                &&& Self::init().run(actions) == self
            }
    }

    /// The state of the channel fits how far the endpoints have got.
    pub open spec fn phases_agree(self) -> bool {
        match self.channel {
            Channel::Empty => self.sender is Live && !(self.receiver is Gone),
            Channel::Receiving(waker) => {
                &&& self.sender is Live
                &&& self.receiver is Future
                &&& self.pending == Some(waker)
            },
            Channel::Awaking => {
                &&& self.sender is Publishing
                &&& self.receiver is Future || self.receiver is Leaving
            },
            Channel::Message(_) => self.sender is Gone && !(self.receiver is Gone),
            Channel::Disconnected => self.sender is Gone || self.receiver is Gone,
        }
    }

    /// The messages in the hands of the sender.
    pub open spec fn held(self) -> Seq<T> {
        match self.sender {
            SenderPhase::Publishing(_, Some(message)) => seq![message],
            _ => Seq::empty(),
        }
    }

    /// The messages in the channel.
    pub open spec fn stored(self) -> Seq<T> {
        match self.channel {
            Channel::Message(message) => seq![message],
            _ => Seq::empty(),
        }
    }

    /// Every message there is, wherever it has got to.
    pub open spec fn everywhere(self) -> Seq<T> {
        self.held() + self.stored() + self.received + self.returned + self.discarded
    }

    /// The message that was offered is in one place, and no other message is anywhere.
    pub open spec fn message_accounted(self) -> bool {
        &&& self.everywhere() == match self.offered {
            Some(message) => seq![message],
            None => Seq::empty(),
        }
        &&& self.sender is Live ==> self.offered is None
        &&& self.sender is Publishing ==> self.offered == self.sender->Publishing_1
        &&& self.returned.len() > 0 ==> self.receiver is Gone
        &&& self.discarded.len() > 0 ==> self.receiver is Gone
        &&& self.accepted ==> self.offered is Some && self.sender is Gone
        &&& (self.offered is Some && self.sender is Gone) ==> self.accepted == (self.returned.len()
            == 0)
    }

    /// The clone in the channel, if there is one.
    pub open spec fn registered(self) -> Option<W> {
        match self.channel {
            Channel::Receiving(waker) => Some(waker),
            _ => None,
        }
    }

    /// The clone in the hands of the sender, if there is one.
    pub open spec fn taken(self) -> Option<W> {
        match self.sender {
            SenderPhase::Publishing(waker, _) => Some(waker),
            _ => None,
        }
    }

    /// The clone in the hands of the receiver, if there is one.
    pub open spec fn unregistered(self) -> Option<W> {
        match self.receiver {
            ReceiverPhase::Registering(waker) => Some(waker),
            _ => None,
        }
    }

    /// The clones that have neither been used up nor dropped.
    pub open spec fn live_clones(self) -> Multiset<W> {
        kept(self.registered()).add(kept(self.taken())).add(kept(self.unregistered()))
    }

    /// Every clone is live, used up or dropped, and only one of these.
    pub open spec fn clones_accounted(self) -> bool {
        self.clones == self.live_clones().add(self.spent).add(self.dropped)
    }

    /// A pending waker that has not been woken is where the sender finds it, or already in the hands
    /// of the sender.
    pub open spec fn wakeup_owed(self) -> bool {
        &&& self.receiver is Direct || self.receiver is Registering ==> self.pending is None
        &&& forall|waker: W|
            self.receiver is Future && self.pending == Some(waker) && !self.woken ==> {
                ||| self.channel == Channel::<T, W>::Receiving(waker)
                ||| self.channel is Awaking && self.sender->Publishing_0 == waker
            }
    }

    /// What holds of every system that can be reached.
    pub open spec fn inv(self) -> bool {
        &&& self.phases_agree()
        &&& self.message_accounted()
        &&& self.wakeup_owed()
        &&& self.clones_accounted()
        &&& self.frees == if self.sender is Gone && self.receiver is Gone {
            1nat
        } else {
            0nat
        }
    }
}

/// A new channel satisfies the invariant.
proof fn lemma_init_inv<T, W>()
    ensures
        System::<T, W>::init().inv(),
{
    broadcast use vstd::multiset::group_multiset_axioms;

    let s = System::<T, W>::init();
    assert(s.everywhere() =~= Seq::empty());
    assert(s.clones =~= s.live_clones().add(s.spent).add(s.dropped));
}

/// Every step keeps the invariant.
proof fn lemma_next_inv<T, W>(s: System<T, W>, action: Action<T, W>)
    requires
        s.inv(),
        s.enabled(action),
    ensures
        s.next(action).inv(),
{
    broadcast use vstd::multiset::group_multiset_axioms;

    let t = s.next(action);
    assert(t.clones =~= t.live_clones().add(t.spent).add(t.dropped));
    assert(t.everywhere() =~= match t.offered {
        Some(message) => seq![message],
        None => Seq::empty(),
    });
    assert(s.everywhere().len() == s.held().len() + s.stored().len() + s.received.len()
        + s.returned.len() + s.discarded.len());
}

/// Any number of steps keeps the invariant.
proof fn lemma_run_inv<T, W>(s: System<T, W>, actions: Seq<Action<T, W>>)
    requires
        s.inv(),
        s.all_enabled(actions),
    ensures
        s.run(actions).inv(),
    decreases actions.len(),
{
    if actions.len() > 0 {
        lemma_next_inv(s, actions[0]);
        lemma_run_inv(s.next(actions[0]), actions.drop_first());
    }
}

/// Whatever can be reached satisfies the invariant.
pub proof fn law_reachable_inv<T, W>(s: System<T, W>)
    requires
        s.reachable(),
    ensures
        s.inv(),
{
    let actions = choose|actions: Seq<Action<T, W>>|
        {
            &&& #[trigger] System::<T, W>::init().all_enabled(actions)
            &&& System::<T, W>::init().run(actions) == s
        };
    lemma_init_inv::<T, W>();
    lemma_run_inv(System::<T, W>::init(), actions);
}

/// A step that an endpoint can take leads from what can be reached to what can be reached.
pub proof fn law_next_reachable<T, W>(s: System<T, W>, action: Action<T, W>)
    requires
        s.reachable(),
        s.enabled(action),
    ensures
        s.next(action).reachable(),
{
    let actions = choose|actions: Seq<Action<T, W>>|
        {
            &&& #[trigger] System::<T, W>::init().all_enabled(actions)
            &&& System::<T, W>::init().run(actions) == s
        };
    lemma_run_push(System::<T, W>::init(), actions, action);
    assert(System::<T, W>::init().all_enabled(actions.push(action)));
}

/// One step after the others.
proof fn lemma_run_push<T, W>(
    s: System<T, W>,
    actions: Seq<Action<T, W>>,
    action: Action<T, W>,
)
    requires
        s.all_enabled(actions),
        s.run(actions).enabled(action),
    ensures
        s.all_enabled(actions.push(action)),
        s.run(actions.push(action)) == s.run(actions).next(action),
    decreases actions.len(),
{
    let all = actions.push(action);
    if actions.len() == 0 {
        assert(all.drop_first() =~= Seq::empty());
        assert(all[0] == action);
        assert(s.next(action).run(all.drop_first()) == s.next(action));
        assert(s.next(action).all_enabled(all.drop_first()));
    } else {
        assert(all.drop_first() =~= actions.drop_first().push(action));
        assert(all[0] == actions[0]);
        lemma_run_push(s.next(actions[0]), actions.drop_first(), action);
    }
}

/// No endpoint ever finds the channel in a state that it has no use for.
///
/// A receiver that is not a future finds no waker and no sender that is publishing. A future that
/// registers its waker finds no other one there. A receiver that closes the channel has no waker in
/// it. A sender that starts to send, or to disconnect, finds the channel empty, or a waiting
/// receiver, or the receiver gone. A sender that publishes finds the channel as it left it, or the
/// receiver gone.
pub proof fn law_no_unexpected_state<T, W>(s: System<T, W>)
    requires
        s.reachable(),
    ensures
        s.receiver is Direct ==> !(s.channel is Receiving) && !(s.channel is Awaking),
        s.receiver is Registering ==> !(s.channel is Receiving) && !(s.channel is Awaking),
        s.receiver is Direct || s.receiver is Leaving ==> !(
        s.channel.disconnect_step().1 is DropWaker),
        s.sender is Live ==> s.channel is Empty || s.channel is Receiving
            || s.channel is Disconnected,
        s.sender is Publishing ==> s.channel is Awaking || s.channel is Disconnected,
        s.sender is Live && s.channel is Disconnected ==> s.receiver is Gone,
        s.sender is Publishing && s.channel is Disconnected ==> s.receiver is Gone,
{
    law_reachable_inv(s);
}

/// The receiver returns at most one message, and it is the one that the sender was asked to send.
pub proof fn law_received_is_sent<T, W>(s: System<T, W>)
    requires
        s.reachable(),
    ensures
        s.received.len() <= 1,
        s.received.len() == 1 ==> s.offered == Some(s.received[0]),
{
    law_reachable_inv(s);
    lemma_lengths(s);
    if s.received.len() == 1 {
        assert(s.everywhere()[0] == s.received[0]);
    }
}

/// The message is never lost and never in two places: once offered, it is in the hands of the
/// sender, in the channel, received, given back or dropped with the receiver, and only one of these.
pub proof fn law_one_owner<T, W>(s: System<T, W>)
    requires
        s.reachable(),
    ensures
        s.held().len() + s.stored().len() + s.received.len() + s.returned.len() + s.discarded.len()
            == if s.offered is Some {
            1nat
        } else {
            0nat
        },
        forall|message: T| #[trigger]
            s.everywhere().contains(message) ==> s.offered == Some(message),
{
    law_reachable_inv(s);
    lemma_lengths(s);
}

/// The parts of [`System::everywhere`] make up its length.
proof fn lemma_lengths<T, W>(s: System<T, W>)
    ensures
        s.everywhere().len() == s.held().len() + s.stored().len() + s.received.len()
            + s.returned.len() + s.discarded.len(),
{
}

/// A send that was reported to have succeeded is not given back: the receiver has the message, has
/// dropped it as it left, or will get it from its next attempt to receive. A send that is over and
/// has not succeeded has given the message back.
pub proof fn law_send_result<T, W>(s: System<T, W>, message: T)
    requires
        s.reachable(),
        s.offered == Some(message),
        s.sender is Gone,
    ensures
        s.accepted ==> {
            ||| s.received == seq![message]
            ||| s.discarded == seq![message]
            ||| !(s.receiver is Gone) && s.channel == Channel::<T, W>::Message(message)
        },
        s.accepted ==> s.returned.len() == 0,
        !s.accepted ==> s.returned == seq![message] && s.receiver is Gone,
{
    law_reachable_inv(s);
    lemma_lengths(s);
    assert(s.everywhere()[0] == message);
}

/// Once a receiver that is still there has found the channel closed, it stays closed whatever
/// happens: no further message is received, and every attempt to receive fails.
pub proof fn law_closed_for_good<T, W>(s: System<T, W>, actions: Seq<Action<T, W>>)
    requires
        s.reachable(),
        s.channel is Disconnected,
        !(s.receiver is Gone),
        s.all_enabled(actions),
    ensures
        s.run(actions).channel is Disconnected,
        s.run(actions).received == s.received,
        s.run(actions).channel.try_recv_step().1 == Err::<T, TryRecvError>(
            TryRecvError::Disconnected,
        ),
        s.run(actions).channel.begin_poll_step().1 == PollStep::<T, W>::Ready(
            Err(RecvError::Disconnected),
        ),
        forall|waker: W|
            (#[trigger] s.run(actions).channel.register_waker_step(waker)).1 == Registration::<
                T,
                W,
            >::Ready(Err(RecvError::Disconnected), waker),
{
    law_reachable_inv(s);
    lemma_stays_closed(s, actions);
}

/// No step opens a closed channel again.
proof fn lemma_stays_closed<T, W>(s: System<T, W>, actions: Seq<Action<T, W>>)
    requires
        s.inv(),
        s.channel is Disconnected,
        s.all_enabled(actions),
    ensures
        s.run(actions).channel is Disconnected,
        s.run(actions).received == s.received,
    decreases actions.len(),
{
    if actions.len() > 0 {
        lemma_next_inv(s, actions[0]);
        lemma_stays_closed(s.next(actions[0]), actions.drop_first());
    }
}

/// Once the sender has found the channel closed, it stays closed until the sender is done, and a
/// message that it sends is given back.
pub proof fn law_closed_to_sender<T, W>(
    s: System<T, W>,
    actions: Seq<Action<T, W>>,
    message: T,
)
    requires
        s.reachable(),
        s.channel is Disconnected,
        s.sender is Live,
        s.all_enabled(actions),
    ensures
        s.run(actions).channel is Disconnected,
        s.run(actions).channel.begin_send_step(message).1 == SendStep::<T, W>::Refused(message),
        s.run(actions).returned == match s.run(actions).offered {
            Some(message) => seq![message],
            None => Seq::empty(),
        },
{
    law_reachable_inv(s);
    lemma_stays_closed(s, actions);
    lemma_run_inv(s, actions);
    lemma_nothing_delivered(s, actions);
    let t = s.run(actions);
    lemma_lengths(s);
    lemma_lengths(t);
    if t.offered is Some {
        assert(t.everywhere()[0] == t.offered->0);
    }
}

/// With the receiver gone before anything was sent, nothing is ever received, dropped by the
/// receiver or held back by the sender.
proof fn lemma_nothing_delivered<T, W>(s: System<T, W>, actions: Seq<Action<T, W>>)
    requires
        s.inv(),
        s.receiver is Gone,
        s.channel is Disconnected,
        !(s.sender is Publishing),
        s.all_enabled(actions),
    ensures
        s.run(actions).receiver is Gone,
        s.run(actions).received == s.received,
        s.run(actions).discarded == s.discarded,
        !(s.run(actions).sender is Publishing),
    decreases actions.len(),
{
    if actions.len() > 0 {
        lemma_next_inv(s, actions[0]);
        lemma_nothing_delivered(s.next(actions[0]), actions.drop_first());
    }
}

/// Whether the step is one in which the receiver takes something out of the channel, or closes it.
pub open spec fn takes<T, W>(action: Action<T, W>) -> bool {
    match action {
        Action::TryRecv => true,
        Action::Poll(_) => true,
        Action::Register => true,
        Action::DropReceiver => true,
        Action::DropRecv => true,
        _ => false,
    }
}

/// Once the receiver has found a message in the channel, the message waits for it: whatever happens
/// before the next attempt to receive, that attempt returns the message at once.
pub proof fn law_message_waits<T, W>(s: System<T, W>, actions: Seq<Action<T, W>>, message: T)
    requires
        s.reachable(),
        s.channel == Channel::<T, W>::Message(message),
        s.all_enabled(actions),
        forall|i: int| 0 <= i < actions.len() ==> !takes(#[trigger] actions[i]),
    ensures
        s.run(actions).channel == s.channel,
        s.run(actions).channel.try_recv_step().1 == Ok::<T, TryRecvError>(message),
        s.run(actions).channel.begin_poll_step().1 == PollStep::<T, W>::Ready(Ok(message)),
        forall|waker: W|
            (#[trigger] s.run(actions).channel.register_waker_step(waker)).1 == Registration::<
                T,
                W,
            >::Ready(Ok(message), waker),
{
    law_reachable_inv(s);
    lemma_message_waits(s, actions);
}

/// Only the receiver moves the channel on from a message.
proof fn lemma_message_waits<T, W>(s: System<T, W>, actions: Seq<Action<T, W>>)
    requires
        s.inv(),
        s.channel is Message,
        s.all_enabled(actions),
        forall|i: int| 0 <= i < actions.len() ==> !takes(#[trigger] actions[i]),
    ensures
        s.run(actions).channel == s.channel,
    decreases actions.len(),
{
    if actions.len() > 0 {
        let rest = actions.drop_first();
        assert(!takes(actions[0]));
        assert forall|i: int| 0 <= i < rest.len() implies !takes(#[trigger] rest[i]) by {
            assert(rest[i] == actions[i + 1]);
        }
        lemma_next_inv(s, actions[0]);
        lemma_message_waits(s.next(actions[0]), rest);
    }
}

/// What a receiver that is still there gets: nothing yet while the sender has not got to the end;
/// then the message, if it was sent and has not been received; and otherwise an error.
pub proof fn law_answers<T, W>(s: System<T, W>)
    requires
        s.reachable(),
        !(s.receiver is Gone),
    ensures
        s.channel.try_recv_step().1 == if !(s.sender is Gone) {
            Err::<T, TryRecvError>(TryRecvError::Empty)
        } else if s.accepted && s.received.len() == 0 {
            Ok(s.offered->0)
        } else {
            Err(TryRecvError::Disconnected)
        },
        s.channel.poll_answer() == if !(s.sender is Gone) {
            Poll::<Result<T, RecvError>>::Pending
        } else if s.accepted && s.received.len() == 0 {
            Poll::Ready(Ok(s.offered->0))
        } else {
            Poll::Ready(Err(RecvError::Disconnected))
        },
{
    law_reachable_inv(s);
    lemma_lengths(s);
    if s.offered is Some && s.sender is Gone {
        law_send_result(s, s.offered->0);
    }
}

/// A receiver finds the channel closed if the sender disconnected before sending a message, or the
/// message has already been received, and then only. It finds a message if one was sent and has not
/// been received, and then only.
pub proof fn law_receiver_observes<T, W>(s: System<T, W>)
    requires
        s.reachable(),
        !(s.receiver is Gone),
    ensures
        s.channel.closed() <==> s.sender is Gone && (s.offered is None || s.received.len() == 1),
        s.channel.message() is Some <==> s.accepted && s.received.len() == 0,
{
    law_reachable_inv(s);
    lemma_lengths(s);
    if s.offered is Some && s.sender is Gone {
        law_send_result(s, s.offered->0);
    }
}

/// A sender finds the channel closed if the receiver is gone, and then only.
pub proof fn law_sender_observes<T, W>(s: System<T, W>)
    requires
        s.reachable(),
        s.sender is Live,
    ensures
        s.channel.closed() <==> s.receiver is Gone,
{
    law_reachable_inv(s);
}

/// If the sender disconnects without sending, the receiver fails.
pub proof fn law_dropped_sender<T, W>(s: System<T, W>)
    requires
        s.reachable(),
        s.sender is Gone,
        s.offered is None,
    ensures
        s.channel is Disconnected,
        s.received.len() == 0,
        s.channel.try_recv_step().1 == Err::<T, TryRecvError>(TryRecvError::Disconnected),
        s.channel.begin_poll_step().1 == PollStep::<T, W>::Ready(Err(RecvError::Disconnected)),
{
    law_reachable_inv(s);
    lemma_lengths(s);
}

/// If the receiver is dropped before the sender has sent, the send fails and gives the message back.
pub proof fn law_dropped_receiver<T, W>(s: System<T, W>, message: T)
    requires
        s.reachable(),
        s.receiver is Gone,
        s.sender is Live,
    ensures
        s.channel is Disconnected,
        s.send(message).sender is Gone,
        s.send(message).returned == seq![message],
        !s.send(message).accepted,
{
    law_reachable_inv(s);
    lemma_lengths(s);
}

/// No wake-up is lost: when the sender is done, a future whose last poll was not complete has been
/// woken. Until then a waker that has not been woken is registered, or in the hands of the sender.
pub proof fn law_no_lost_wakeup<T, W>(s: System<T, W>, waker: W)
    requires
        s.reachable(),
        s.receiver is Future,
        s.pending == Some(waker),
    ensures
        s.sender is Gone ==> s.woken,
        !s.woken ==> {
            ||| s.channel == Channel::<T, W>::Receiving(waker)
            ||| s.channel is Awaking && s.sender is Publishing && s.sender->Publishing_0 == waker
        },
{
    law_reachable_inv(s);
}

/// Whether the step is one of the sender.
pub open spec fn by_sender<T, W>(action: Action<T, W>) -> bool {
    match action {
        Action::Send(_) => true,
        Action::DropSender => true,
        Action::FinishAwakening => true,
        _ => false,
    }
}

/// A future whose last poll was not complete, and which is neither polled again nor dropped, has been
/// woken when the sender is done, and its next poll is complete.
pub proof fn law_pending_is_answered<T, W>(
    s: System<T, W>,
    actions: Seq<Action<T, W>>,
    waker: W,
)
    requires
        s.reachable(),
        s.receiver is Future,
        s.pending == Some(waker),
        s.all_enabled(actions),
        forall|i: int| 0 <= i < actions.len() ==> by_sender(#[trigger] actions[i]),
        s.run(actions).sender is Gone,
    ensures
        s.run(actions).pending == Some(waker),
        s.run(actions).woken,
        s.run(actions).channel.poll_answer() is Ready,
{
    lemma_sender_leaves_receiver(s, actions);
    law_no_lost_wakeup(s.run(actions), waker);
    law_answers(s.run(actions));
}

/// The steps of the sender change neither how far the receiver has got nor its pending waker.
proof fn lemma_sender_leaves_receiver<T, W>(s: System<T, W>, actions: Seq<Action<T, W>>)
    requires
        s.reachable(),
        s.all_enabled(actions),
        forall|i: int| 0 <= i < actions.len() ==> by_sender(#[trigger] actions[i]),
    ensures
        s.run(actions).reachable(),
        s.run(actions).receiver == s.receiver,
        s.run(actions).pending == s.pending,
    decreases actions.len(),
{
    if actions.len() > 0 {
        let rest = actions.drop_first();
        assert(by_sender(actions[0]));
        assert forall|i: int| 0 <= i < rest.len() implies by_sender(#[trigger] rest[i]) by {
            assert(rest[i] == actions[i + 1]);
        }
        law_next_reachable(s, actions[0]);
        lemma_sender_leaves_receiver(s.next(actions[0]), rest);
    }
}

/// Of several polls, the waker of the last one is the one that is registered.
pub proof fn law_last_waker_registered<T, W>(s: System<T, W>, waker: W)
    requires
        s.reachable(),
        s.channel == Channel::<T, W>::Receiving(waker),
    ensures
        s.pending == Some(waker),
        s.receiver is Future,
{
    law_reachable_inv(s);
}

/// Every clone of a waker is released once: it is registered, in the hands of one endpoint, used up
/// in waking its task or dropped, and only one of these. When both endpoints are done, it is used up
/// or dropped.
pub proof fn law_wakers_released_once<T, W>(s: System<T, W>)
    requires
        s.reachable(),
    ensures
        s.clones == s.live_clones().add(s.spent).add(s.dropped),
        s.sender is Gone && s.receiver is Gone ==> s.clones == s.spent.add(s.dropped),
        s.live_clones().len() <= 1,
{
    broadcast use vstd::multiset::group_multiset_axioms;

    law_reachable_inv(s);
    if s.sender is Gone && s.receiver is Gone {
        assert(s.clones =~= s.spent.add(s.dropped));
    }
}

/// A poll does not wait for a sender that is publishing: it is over, not complete, and has woken its
/// own task.
pub proof fn law_poll_does_not_wait<T, W>(s: System<T, W>, waker: W)
    requires
        s.reachable(),
        s.receiver is Future,
        s.sender is Publishing,
    ensures
        s.poll(waker).receiver is Future,
        s.poll(waker).pending == Some(waker),
        s.poll(waker).woken,
        s.poll(waker).channel == s.channel,
        s.poll(waker).sender == s.sender,
{
    law_reachable_inv(s);
}

/// A future that is dropped does not wait for a sender that is publishing: the sender finds the
/// channel closed, keeps its message and frees the channel.
pub proof fn law_drop_does_not_wait<T, W>(s: System<T, W>)
    requires
        s.reachable(),
        s.receiver is Future,
        s.sender is Publishing,
    ensures
        ({
            let t = s.next(Action::ReclaimWaker).next(Action::DropRecv);
            let u = t.next(Action::FinishAwakening);
            &&& t.receiver is Gone
            &&& t.sender == s.sender
            &&& t.frees == 0
            &&& u.sender is Gone
            &&& u.returned == s.held()
            &&& u.woken == s.woken
            &&& u.frees == 1
        }),
{
    law_reachable_inv(s);
    lemma_lengths(s);
    assert(s.everywhere().len() <= 1);
    assert(s.returned.len() == 0);
    assert(s.next(Action::ReclaimWaker).next(Action::DropRecv).next(
        Action::FinishAwakening,
    ).returned =~= s.held());
}

/// The channel is freed once, by the endpoint that is the last to be done, and then holds neither a
/// message nor a waker.
pub proof fn law_freed_once<T, W>(s: System<T, W>)
    requires
        s.reachable(),
    ensures
        s.frees <= 1,
        s.frees == 1 <==> s.sender is Gone && s.receiver is Gone,
        s.frees == 1 ==> s.channel is Disconnected,
{
    law_reachable_inv(s);
}

} // verus!
