use oneshot::Channel;
use oneshot::Cleanup;
use oneshot::DisconnectStep;
use oneshot::PollStep;
use oneshot::RecvError;
use oneshot::Registration;
use oneshot::SendStep;
use oneshot::TryRecvError;
use oneshot::{AWAKING, DISCONNECTED, EMPTY, MESSAGE, RECEIVING};

/// Messages are numbers, and so are wakers.
type Numbers = Channel<u32, u8>;

fn receiving(waker: u8) -> Numbers {
    Channel::Receiving(waker)
}

fn message(value: u32) -> Numbers {
    Channel::Message(value)
}

#[test]
fn new_channel_is_empty() {
    let channel = Numbers::new();
    assert_eq!(channel.state(), EMPTY);
    assert!(!channel.is_closed());
    assert!(!channel.has_message());
}

#[test]
fn states_have_their_codes() {
    assert_eq!(Numbers::Empty.state(), 0b011);
    assert_eq!(receiving(7).state(), 0b000);
    assert_eq!(Numbers::Awaking.state(), 0b001);
    assert_eq!(message(5).state(), 0b100);
    assert_eq!(Numbers::Disconnected.state(), 0b010);
}

#[test]
fn only_disconnected_is_closed() {
    assert!(!Numbers::Empty.is_closed());
    assert!(!receiving(7).is_closed());
    assert!(!Numbers::Awaking.is_closed());
    assert!(!message(5).is_closed());
    assert!(Numbers::Disconnected.is_closed());
}

#[test]
fn only_message_has_message() {
    assert!(!Numbers::Empty.has_message());
    assert!(!receiving(7).has_message());
    assert!(!Numbers::Awaking.has_message());
    assert!(message(5).has_message());
    assert!(!Numbers::Disconnected.has_message());
}

#[test]
fn try_recv_in_each_state() {
    let mut channel = Numbers::Empty;
    assert_eq!(channel.try_recv(), Err(TryRecvError::Empty));
    assert_eq!(channel.state(), EMPTY);

    let mut channel = receiving(7);
    assert_eq!(channel.try_recv(), Err(TryRecvError::Empty));
    assert!(matches!(channel, Channel::Receiving(7)));

    let mut channel = Numbers::Awaking;
    assert_eq!(channel.try_recv(), Err(TryRecvError::Empty));
    assert_eq!(channel.state(), AWAKING);

    let mut channel = message(5);
    assert_eq!(channel.try_recv(), Ok(5));
    assert_eq!(channel.state(), DISCONNECTED);
    assert_eq!(channel.try_recv(), Err(TryRecvError::Disconnected));
    assert_eq!(channel.state(), DISCONNECTED);
}

#[test]
fn begin_poll_in_each_state() {
    let mut channel = Numbers::Empty;
    assert!(matches!(channel.begin_poll(), PollStep::Register(None)));
    assert_eq!(channel.state(), EMPTY);

    let mut channel = receiving(7);
    assert!(matches!(channel.begin_poll(), PollStep::Register(Some(7))));
    assert_eq!(channel.state(), EMPTY);

    let mut channel = Numbers::Awaking;
    assert!(matches!(channel.begin_poll(), PollStep::WakeAgain));
    assert_eq!(channel.state(), AWAKING);

    let mut channel = message(5);
    assert!(matches!(channel.begin_poll(), PollStep::Ready(Ok(5))));
    assert_eq!(channel.state(), DISCONNECTED);

    assert!(matches!(
        channel.begin_poll(),
        PollStep::Ready(Err(RecvError::Disconnected))
    ));
    assert_eq!(channel.state(), DISCONNECTED);
}

#[test]
fn no_second_waker_is_accepted() {
    assert!(Numbers::Empty.accepts_waker());
    assert!(!receiving(7).accepts_waker());
    assert!(!Numbers::Awaking.accepts_waker());
    assert!(message(5).accepts_waker());
    assert!(Numbers::Disconnected.accepts_waker());
}

#[test]
fn register_waker_in_each_accepting_state() {
    let mut channel = Numbers::Empty;
    assert!(matches!(
        channel.register_waker(8),
        Registration::Registered
    ));
    assert!(matches!(channel, Channel::Receiving(8)));

    let mut channel = message(5);
    assert!(matches!(
        channel.register_waker(8),
        Registration::Ready(Ok(5), 8)
    ));
    assert_eq!(channel.state(), DISCONNECTED);

    assert!(matches!(
        channel.register_waker(8),
        Registration::Ready(Err(RecvError::Disconnected), 8)
    ));
    assert_eq!(channel.state(), DISCONNECTED);
}

#[test]
fn reclaim_waker_in_each_state() {
    let mut channel = receiving(7);
    assert_eq!(channel.reclaim_waker(), Some(7));
    assert_eq!(channel.state(), EMPTY);
    assert_eq!(channel.reclaim_waker(), None);
    assert_eq!(channel.state(), EMPTY);

    let mut channel = Numbers::Awaking;
    assert_eq!(channel.reclaim_waker(), None);
    assert_eq!(channel.state(), AWAKING);

    let mut channel = message(5);
    assert_eq!(channel.reclaim_waker(), None);
    assert!(matches!(channel, Channel::Message(5)));

    let mut channel = Numbers::Disconnected;
    assert_eq!(channel.reclaim_waker(), None);
    assert_eq!(channel.state(), DISCONNECTED);
}

#[test]
fn disconnect_in_each_state() {
    let mut channel = Numbers::Empty;
    assert!(matches!(channel.disconnect(), Cleanup::LeftToSender));
    assert_eq!(channel.state(), DISCONNECTED);
    assert!(matches!(channel.disconnect(), Cleanup::Deallocate));
    assert_eq!(channel.state(), DISCONNECTED);

    let mut channel = Numbers::Awaking;
    assert!(matches!(channel.disconnect(), Cleanup::LeftToSender));
    assert_eq!(channel.state(), DISCONNECTED);

    let mut channel = message(5);
    assert!(matches!(channel.disconnect(), Cleanup::DropMessage(5)));
    assert_eq!(channel.state(), DISCONNECTED);

    let mut channel = receiving(7);
    assert!(matches!(channel.disconnect(), Cleanup::DropWaker(7)));
    assert_eq!(channel.state(), DISCONNECTED);
}

#[test]
fn begin_send_in_each_state() {
    let mut channel = Numbers::Empty;
    assert!(matches!(channel.begin_send(5), SendStep::Sent));
    assert!(matches!(channel, Channel::Message(5)));
    assert!(matches!(channel.begin_send(6), SendStep::Refused(6)));
    assert!(matches!(channel, Channel::Message(5)));

    let mut channel = receiving(7);
    assert!(matches!(channel.begin_send(5), SendStep::Wake(7, 5)));
    assert_eq!(channel.state(), AWAKING);
    assert!(matches!(channel.begin_send(6), SendStep::Refused(6)));
    assert_eq!(channel.state(), AWAKING);

    let mut channel = Numbers::Disconnected;
    assert!(matches!(channel.begin_send(5), SendStep::Refused(5)));
    assert_eq!(channel.state(), DISCONNECTED);
}

#[test]
fn begin_disconnect_in_each_state() {
    let mut channel = Numbers::Empty;
    assert!(matches!(
        channel.begin_disconnect(),
        DisconnectStep::LeftToReceiver
    ));
    assert_eq!(channel.state(), DISCONNECTED);
    assert!(matches!(
        channel.begin_disconnect(),
        DisconnectStep::Deallocate
    ));
    assert_eq!(channel.state(), DISCONNECTED);

    let mut channel = receiving(7);
    assert!(matches!(
        channel.begin_disconnect(),
        DisconnectStep::Wake(7)
    ));
    assert_eq!(channel.state(), AWAKING);
    assert!(matches!(
        channel.begin_disconnect(),
        DisconnectStep::Deallocate
    ));
    assert_eq!(channel.state(), AWAKING);

    let mut channel = message(5);
    assert!(matches!(
        channel.begin_disconnect(),
        DisconnectStep::Deallocate
    ));
    assert!(matches!(channel, Channel::Message(5)));
}

#[test]
fn finish_publishes_a_message() {
    let mut channel = Numbers::Awaking;
    let handover = channel.finish_sender_awakening(Some(5));
    assert!(handover.receiver_owns_allocation);
    assert_eq!(handover.unpublished, None);
    assert!(matches!(channel, Channel::Message(5)));
}

#[test]
fn finish_publishes_a_disconnect() {
    let mut channel = Numbers::Awaking;
    let handover = channel.finish_sender_awakening(None);
    assert!(handover.receiver_owns_allocation);
    assert_eq!(handover.unpublished, None);
    assert_eq!(channel.state(), DISCONNECTED);
}

#[test]
fn finish_gives_the_message_back_to_a_lone_sender() {
    let mut channel = Numbers::Disconnected;
    let handover = channel.finish_sender_awakening(Some(5));
    assert!(!handover.receiver_owns_allocation);
    assert_eq!(handover.unpublished, Some(5));
    assert_eq!(channel.state(), DISCONNECTED);
}

#[test]
fn sender_moves_codes_by_arithmetic() {
    let mut channel = Numbers::Empty;
    channel.begin_send(5);
    assert_eq!(channel.state(), EMPTY + 1);
    assert_eq!(channel.state(), MESSAGE);

    let mut channel = receiving(7);
    channel.begin_send(5);
    assert_eq!(channel.state(), RECEIVING + 1);

    let mut channel = Numbers::Empty;
    channel.begin_disconnect();
    assert_eq!(channel.state(), EMPTY ^ 1);

    let mut channel = receiving(7);
    channel.begin_disconnect();
    assert_eq!(channel.state(), RECEIVING ^ 1);
}

#[test]
fn message_that_comes_during_a_poll_completes_it() {
    let mut channel = Numbers::new();
    assert!(matches!(channel.begin_poll(), PollStep::Register(None)));
    assert!(matches!(channel.begin_send(5), SendStep::Sent));
    assert!(matches!(
        channel.register_waker(7),
        Registration::Ready(Ok(5), 7)
    ));
    assert!(channel.is_closed());
}

#[test]
fn disconnect_that_comes_during_a_poll_completes_it() {
    let mut channel = Numbers::new();
    channel.begin_poll();
    channel.register_waker(7);
    assert!(matches!(channel.begin_poll(), PollStep::Register(Some(7))));
    assert!(matches!(
        channel.begin_disconnect(),
        DisconnectStep::LeftToReceiver
    ));
    assert!(matches!(
        channel.register_waker(8),
        Registration::Ready(Err(RecvError::Disconnected), 8)
    ));
}

#[test]
fn message_that_comes_during_a_drop_is_dropped() {
    let mut channel = receiving(7);
    assert_eq!(channel.reclaim_waker(), Some(7));
    assert!(matches!(channel.begin_send(5), SendStep::Sent));
    assert!(matches!(channel.disconnect(), Cleanup::DropMessage(5)));
    assert!(channel.is_closed());
}

#[test]
fn errors_describe_themselves() {
    assert_eq!(
        TryRecvError::Empty.to_string(),
        "receiving on an empty channel"
    );
    assert_eq!(
        TryRecvError::Disconnected.to_string(),
        "receiving on a closed channel"
    );
    assert_eq!(
        RecvError::Disconnected.to_string(),
        "receiving on a closed channel"
    );
}
