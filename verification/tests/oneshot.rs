use std::future::Future;
use std::future::IntoFuture;
use std::pin::Pin;
use std::sync::atomic::AtomicU32;
use std::sync::atomic::AtomicUsize;
use std::sync::atomic::Ordering;
use std::sync::Arc;
use std::task::Context;
use std::task::Poll;
use std::task::Wake;
use std::task::Waker;

use oneshot::Awakening;
use oneshot::RecvError;
use oneshot::Sender;
use oneshot::Sending;
use oneshot::TryRecvError;

/// A message that counts how often it is dropped.
struct DropProbe<T> {
    drop_count: Arc<AtomicUsize>,
    value: T,
}

impl<T> DropProbe<T> {
    fn new(value: T) -> (Self, Arc<AtomicUsize>) {
        let drop_count = Arc::new(AtomicUsize::new(0));
        (
            Self {
                drop_count: drop_count.clone(),
                value,
            },
            drop_count,
        )
    }

    fn value(&self) -> &T {
        &self.value
    }
}

impl<T> Drop for DropProbe<T> {
    fn drop(&mut self) {
        self.drop_count.fetch_add(1, Ordering::Relaxed);
    }
}

/// A task that counts how often it is woken.
#[derive(Default)]
struct WakerProbe {
    wake_count: AtomicU32,
}

impl WakerProbe {
    fn new() -> (Waker, Arc<Self>) {
        let probe = Arc::new(Self::default());
        (Waker::from(probe.clone()), probe)
    }

    /// The returned probe owns one strong reference; every other reference belongs to a live Waker
    /// created from it.
    fn live_waker_count(this: &Arc<Self>) -> usize {
        Arc::strong_count(this) - 1
    }

    fn wake_count(&self) -> u32 {
        self.wake_count.load(Ordering::Relaxed)
    }
}

impl Wake for WakerProbe {
    fn wake(self: Arc<Self>) {
        self.wake_count.fetch_add(1, Ordering::Relaxed);
    }

    fn wake_by_ref(self: &Arc<Self>) {
        self.wake_count.fetch_add(1, Ordering::Relaxed);
    }
}

/// Starts a send to a receiver that is waiting, and stops before the message is published.
fn pause_while_awaking<T>(sender: Sender<T>, message: T) -> Awakening<T> {
    match sender.begin_send(message) {
        Sending::Awaking(awakening) => awakening,
        Sending::Sent => panic!("nobody was waiting"),
        Sending::Refused(_) => panic!("the receiver is gone"),
    }
}

fn is_send<T: Send>(_: &T) -> bool {
    true
}

#[test]
fn send_before_await() {
    let (sender, receiver) = oneshot::channel();
    assert!(!receiver.has_message());
    assert!(sender.send(19i128).is_ok());
    assert!(receiver.has_message());
    assert_eq!(pollster::block_on(receiver), Ok(19i128));
}

#[test]
fn await_with_dropped_sender() {
    let (sender, receiver) = oneshot::channel::<u128>();
    assert!(!receiver.is_closed());
    sender.disconnect();
    assert!(receiver.is_closed());
    assert_eq!(pollster::block_on(receiver), Err(RecvError::Disconnected));
}

#[test]
fn try_recv_success_then_disconnected() {
    let (tx, rx) = oneshot::channel::<i32>();
    tx.send(10).unwrap();

    assert_eq!(rx.try_recv(), Ok(10));
    assert_eq!(rx.try_recv(), Err(TryRecvError::Disconnected));
    assert!(rx.is_closed());
    assert!(!rx.has_message());
    assert_eq!(
        pollster::block_on(rx.into_future()),
        Err(RecvError::Disconnected)
    );
}

#[test]
fn try_recv_distinguishes_empty_from_disconnected() {
    let (tx, rx) = oneshot::channel::<()>();
    assert_eq!(rx.try_recv(), Err(TryRecvError::Empty));
    tx.disconnect();
    assert_eq!(rx.try_recv(), Err(TryRecvError::Disconnected));
}

#[test]
fn send_error_preserves_message_until_consumed() {
    let (sender, receiver) = oneshot::channel();
    let (message, message_drop_count) = DropProbe::new(17u128);

    drop(receiver);
    assert!(sender.is_closed());

    let error = sender.send(message).unwrap_err();
    assert_eq!(message_drop_count.load(Ordering::Relaxed), 0);
    assert_eq!(*error.as_inner().value(), 17);

    let message = error.into_inner();
    assert_eq!(message_drop_count.load(Ordering::Relaxed), 0);
    drop(message);
    assert_eq!(message_drop_count.load(Ordering::Relaxed), 1);
}

#[test]
fn dropping_send_error_drops_message() {
    let (sender, receiver) = oneshot::channel();
    let (message, message_drop_count) = DropProbe::new(());

    drop(receiver);
    drop(sender.send(message).unwrap_err());

    assert_eq!(message_drop_count.load(Ordering::Relaxed), 1);
}

#[test]
fn dropping_receiver_after_send_drops_message() {
    let (sender, receiver) = oneshot::channel();
    let (message, message_drop_count) = DropProbe::new(());

    assert!(sender.send(message).is_ok());
    assert_eq!(message_drop_count.load(Ordering::Relaxed), 0);
    drop(receiver);

    assert_eq!(message_drop_count.load(Ordering::Relaxed), 1);
}

#[test]
fn dropping_unpolled_recv_closes_channel() {
    let (sender, receiver) = oneshot::channel::<u128>();
    let receiver = receiver.into_future();

    drop(receiver);

    assert!(sender.is_closed());
    assert_eq!(sender.send(17).unwrap_err().into_inner(), 17);
}

#[test]
fn dropping_recv_after_send_drops_message() {
    let (sender, receiver) = oneshot::channel();
    let (message, message_drop_count) = DropProbe::new(());
    let receiver = receiver.into_future();

    assert!(sender.send(message).is_ok());
    assert_eq!(message_drop_count.load(Ordering::Relaxed), 0);
    drop(receiver);

    assert_eq!(message_drop_count.load(Ordering::Relaxed), 1);
}

#[test]
fn poll_then_send() {
    let (sender, receiver) = oneshot::channel::<u128>();
    let mut receiver = receiver.into_future();

    let (waker, waker_probe) = WakerProbe::new();
    let mut context = Context::from_waker(&waker);

    assert_eq!(Pin::new(&mut receiver).poll(&mut context), Poll::Pending);
    assert_eq!(WakerProbe::live_waker_count(&waker_probe), 2);
    assert_eq!(waker_probe.wake_count(), 0);

    sender.send(1234).unwrap();
    assert_eq!(WakerProbe::live_waker_count(&waker_probe), 1);
    assert_eq!(waker_probe.wake_count(), 1);

    assert_eq!(
        Pin::new(&mut receiver).poll(&mut context),
        Poll::Ready(Ok(1234))
    );
    assert_eq!(WakerProbe::live_waker_count(&waker_probe), 1);
    assert_eq!(waker_probe.wake_count(), 1);
}

// The test takes the steps of both endpoints, in turn.
#[test]
fn poll_returns_while_sender_owns_waker() {
    let (sender, receiver) = oneshot::channel();
    let mut receiver = receiver.into_future();

    let (stored_waker, stored_probe) = WakerProbe::new();
    let mut stored_context = Context::from_waker(&stored_waker);
    assert_eq!(
        Pin::new(&mut receiver).poll(&mut stored_context),
        Poll::Pending
    );

    // Pause the sender immediately after it takes the stored waker.
    let awakening = pause_while_awaking(sender, 1234u128);

    let (current_waker, current_probe) = WakerProbe::new();
    let mut current_context = Context::from_waker(&current_waker);
    let result = Pin::new(&mut receiver).poll(&mut current_context);
    assert_eq!(stored_probe.wake_count(), 0);

    let awakened = awakening.finish();
    assert!(awakened.receiver_owns_allocation);
    assert_eq!(awakened.unpublished, None);
    awakened.waker.wake();
    assert_eq!(stored_probe.wake_count(), 1);

    assert_eq!(result, Poll::Pending);
    assert_eq!(current_probe.wake_count(), 1);

    let (current_waker, _) = WakerProbe::new();
    let mut current_context = Context::from_waker(&current_waker);
    assert_eq!(
        Pin::new(&mut receiver).poll(&mut current_context),
        Poll::Ready(Ok(1234))
    );
}

// The test takes the steps of both endpoints, in turn.
#[test]
fn drop_transfers_cleanup_while_sender_owns_waker() {
    let (sender, receiver) = oneshot::channel();
    let mut receiver = receiver.into_future();
    let (message, message_drop_count) = DropProbe::new(1234u128);

    let (stored_waker, stored_probe) = WakerProbe::new();
    let mut context = Context::from_waker(&stored_waker);
    assert!(matches!(
        Pin::new(&mut receiver).poll(&mut context),
        Poll::Pending
    ));

    // Pause the sender immediately after it takes the stored waker.
    let awakening = pause_while_awaking(sender, message);

    drop(receiver);
    assert_eq!(message_drop_count.load(Ordering::Relaxed), 0);

    let awakened = awakening.finish();
    assert!(!awakened.receiver_owns_allocation);
    assert_eq!(message_drop_count.load(Ordering::Relaxed), 0);
    assert_eq!(*awakened.unpublished.as_ref().unwrap().value(), 1234);
    drop(awakened);

    assert_eq!(message_drop_count.load(Ordering::Relaxed), 1);
    assert_eq!(WakerProbe::live_waker_count(&stored_probe), 1);
    assert_eq!(stored_probe.wake_count(), 0);
}

#[test]
fn poll_then_drop_sender() {
    let (sender, receiver) = oneshot::channel::<u128>();
    let mut receiver = receiver.into_future();

    let (waker, waker_probe) = WakerProbe::new();
    let mut context = Context::from_waker(&waker);

    assert_eq!(Pin::new(&mut receiver).poll(&mut context), Poll::Pending);
    assert_eq!(WakerProbe::live_waker_count(&waker_probe), 2);
    assert_eq!(waker_probe.wake_count(), 0);

    sender.disconnect();
    assert_eq!(WakerProbe::live_waker_count(&waker_probe), 1);
    assert_eq!(waker_probe.wake_count(), 1);

    assert_eq!(
        Pin::new(&mut receiver).poll(&mut context),
        Poll::Ready(Err(RecvError::Disconnected))
    );
    assert_eq!(WakerProbe::live_waker_count(&waker_probe), 1);
    assert_eq!(waker_probe.wake_count(), 1);
}

#[test]
fn poll_with_different_wakers() {
    let (sender, receiver) = oneshot::channel::<u128>();
    let mut receiver = receiver.into_future();

    let (waker1, waker_probe1) = WakerProbe::new();
    let mut context1 = Context::from_waker(&waker1);

    assert_eq!(Pin::new(&mut receiver).poll(&mut context1), Poll::Pending);
    assert_eq!(WakerProbe::live_waker_count(&waker_probe1), 2);
    assert_eq!(waker_probe1.wake_count(), 0);

    let (waker2, waker_probe2) = WakerProbe::new();
    let mut context2 = Context::from_waker(&waker2);

    assert_eq!(Pin::new(&mut receiver).poll(&mut context2), Poll::Pending);
    assert_eq!(WakerProbe::live_waker_count(&waker_probe1), 1);
    assert_eq!(waker_probe1.wake_count(), 0);

    assert_eq!(WakerProbe::live_waker_count(&waker_probe2), 2);
    assert_eq!(waker_probe2.wake_count(), 0);

    sender.send(1234).unwrap();
    assert_eq!(WakerProbe::live_waker_count(&waker_probe1), 1);
    assert_eq!(waker_probe1.wake_count(), 0);

    assert_eq!(WakerProbe::live_waker_count(&waker_probe2), 1);
    assert_eq!(waker_probe2.wake_count(), 1);
}

// The receiver may be sent to another thread between its polls; here it stays on this one.
#[test]
fn poll_with_different_wakers_across_threads() {
    let (sender, receiver) = oneshot::channel::<u128>();
    let mut receiver = receiver.into_future();
    assert!(is_send(&receiver));

    let (waker1, waker_probe1) = WakerProbe::new();
    let mut context1 = Context::from_waker(&waker1);

    assert_eq!(Pin::new(&mut receiver).poll(&mut context1), Poll::Pending);
    assert_eq!(WakerProbe::live_waker_count(&waker_probe1), 2);
    assert_eq!(waker_probe1.wake_count(), 0);

    let (waker2, waker_probe2) = WakerProbe::new();
    let mut context2 = Context::from_waker(&waker2);

    assert_eq!(Pin::new(&mut receiver).poll(&mut context2), Poll::Pending);
    assert_eq!(WakerProbe::live_waker_count(&waker_probe2), 2);
    assert_eq!(waker_probe2.wake_count(), 0);

    drop(receiver);
    assert_eq!(WakerProbe::live_waker_count(&waker_probe2), 1);

    assert_eq!(WakerProbe::live_waker_count(&waker_probe1), 1);
    assert!(sender.is_closed());
}

#[test]
fn drop_pending_receiver_closes_channel_and_drops_waker() {
    let (sender, receiver) = oneshot::channel::<u128>();
    let mut receiver = receiver.into_future();

    let (waker, waker_probe) = WakerProbe::new();
    let mut context = Context::from_waker(&waker);

    assert_eq!(Pin::new(&mut receiver).poll(&mut context), Poll::Pending);
    assert_eq!(WakerProbe::live_waker_count(&waker_probe), 2);
    assert_eq!(waker_probe.wake_count(), 0);

    drop(receiver);
    assert_eq!(WakerProbe::live_waker_count(&waker_probe), 1);
    assert_eq!(waker_probe.wake_count(), 0);
    assert!(sender.is_closed());

    let error = sender.send(1234).unwrap_err();
    assert_eq!(*error.as_inner(), 1234);
}

#[test]
fn poll_then_drop_receiver_during_send() {
    // The drop comes before the send, in the middle of it, and after it.
    for turn in 0..3 {
        let (sender, receiver) = oneshot::channel();
        let (message, message_drop_count) = DropProbe::new(1234u128);
        let mut receiver = receiver.into_future();

        let (waker, waker_probe) = WakerProbe::new();
        let mut context = Context::from_waker(&waker);

        assert!(matches!(
            Pin::new(&mut receiver).poll(&mut context),
            Poll::Pending
        ));

        if turn == 0 {
            drop(receiver);
            drop(sender.send(message).unwrap_err());
        } else if turn == 1 {
            let awakening = pause_while_awaking(sender, message);
            drop(receiver);
            drop(awakening.finish());
        } else {
            assert!(sender.send(message).is_ok());
            drop(receiver);
        }

        // Whether send or receiver drop wins, exactly one side owns and drops the message.
        assert_eq!(message_drop_count.load(Ordering::Relaxed), 1);
        assert_eq!(WakerProbe::live_waker_count(&waker_probe), 1);
    }
}

#[test]
fn endpoints_are_send_with_their_message() {
    let (sender, receiver) = oneshot::channel::<std::cell::Cell<u8>>();
    assert!(is_send(&sender));
    assert!(is_send(&receiver));
    let receiver = receiver.into_future();
    assert!(is_send(&receiver));
    sender.disconnect();
}

fn is_unpin<T: Unpin>(_: &T) -> bool {
    true
}

#[test]
fn endpoints_can_be_moved_whatever_the_message() {
    let (sender, receiver) = oneshot::channel::<std::marker::PhantomPinned>();
    assert!(is_unpin(&sender));
    assert!(is_unpin(&receiver));
    let receiver = receiver.into_future();
    assert!(is_unpin(&receiver));
    sender.disconnect();
}

/// A task that, when it is woken, looks at what its probe has counted.
struct Witness {
    probe: Arc<AtomicUsize>,
    seen: AtomicUsize,
}

impl Wake for Witness {
    fn wake(self: Arc<Self>) {
        self.seen
            .store(self.probe.load(Ordering::Relaxed), Ordering::Relaxed);
    }
}

#[test]
fn earlier_waker_is_dropped_and_not_woken() {
    let (sender, receiver) = oneshot::channel::<u8>();
    let mut receiver = receiver.into_future();
    let (first, first_probe) = WakerProbe::new();
    let (second, second_probe) = WakerProbe::new();

    // Two polls that nothing disturbs: the second takes the place of the first.
    assert_eq!(
        Pin::new(&mut receiver).poll(&mut Context::from_waker(&first)),
        Poll::Pending
    );
    assert_eq!(
        Pin::new(&mut receiver).poll(&mut Context::from_waker(&second)),
        Poll::Pending
    );
    assert_eq!(WakerProbe::live_waker_count(&first_probe), 1);
    assert_eq!(first_probe.wake_count(), 0);
    assert_eq!(WakerProbe::live_waker_count(&second_probe), 2);
    assert_eq!(second_probe.wake_count(), 0);

    sender.disconnect();
    assert_eq!(first_probe.wake_count(), 0);
    assert_eq!(second_probe.wake_count(), 1);
}

#[test]
fn message_is_whole_when_the_task_is_woken() {
    let (sender, receiver) = oneshot::channel();
    let mut receiver = receiver.into_future();
    let (message, drop_count) = DropProbe::new(6u8);
    let witness = Arc::new(Witness {
        probe: drop_count.clone(),
        seen: AtomicUsize::new(9),
    });
    let waker = Waker::from(witness.clone());

    assert!(matches!(
        Pin::new(&mut receiver).poll(&mut Context::from_waker(&waker)),
        Poll::Pending
    ));
    // The message is in the channel when the task is woken: nobody has dropped it.
    assert!(sender.send(message).is_ok());
    assert_eq!(witness.seen.load(Ordering::Relaxed), 0);
    drop(receiver);
    assert_eq!(drop_count.load(Ordering::Relaxed), 1);
}

#[test]
fn found_message_waits_for_the_future() {
    let (sender, receiver) = oneshot::channel();
    sender.send(21u8).unwrap();
    assert!(receiver.has_message());
    assert!(!receiver.is_closed());
    let mut receiver = receiver.into_future();

    let (waker, waker_probe) = WakerProbe::new();
    let mut context = Context::from_waker(&waker);
    assert_eq!(
        Pin::new(&mut receiver).poll(&mut context),
        Poll::Ready(Ok(21))
    );
    assert_eq!(
        Pin::new(&mut receiver).poll(&mut context),
        Poll::Ready(Err(RecvError::Disconnected))
    );
    assert_eq!(WakerProbe::live_waker_count(&waker_probe), 1);
    assert_eq!(waker_probe.wake_count(), 0);
}

#[test]
fn sender_finds_a_live_receiver_open() {
    let (sender, receiver) = oneshot::channel::<u8>();
    assert!(!sender.is_closed());
    let mut receiver = receiver.into_future();
    assert!(!sender.is_closed());

    let (waker, _waker_probe) = WakerProbe::new();
    let mut context = Context::from_waker(&waker);
    assert_eq!(Pin::new(&mut receiver).poll(&mut context), Poll::Pending);
    assert!(!sender.is_closed());

    drop(receiver);
    assert!(sender.is_closed());
    assert!(sender.is_closed());
    assert_eq!(sender.send(3).unwrap_err().into_inner(), 3);
}

#[test]
fn received_message_is_not_dropped_with_the_receiver() {
    let (sender, receiver) = oneshot::channel();
    let (message, message_drop_count) = DropProbe::new(4u8);

    assert!(sender.send(message).is_ok());
    let message = receiver.try_recv().unwrap();
    drop(receiver);
    assert_eq!(message_drop_count.load(Ordering::Relaxed), 0);
    assert_eq!(*message.value(), 4);
}

#[test]
fn disconnect_while_receiver_leaves_wakes_nobody() {
    let (sender, receiver) = oneshot::channel::<u8>();
    let mut receiver = receiver.into_future();
    let (waker, waker_probe) = WakerProbe::new();
    let mut context = Context::from_waker(&waker);
    assert_eq!(Pin::new(&mut receiver).poll(&mut context), Poll::Pending);

    drop(receiver);
    sender.disconnect();
    assert_eq!(waker_probe.wake_count(), 0);
    assert_eq!(WakerProbe::live_waker_count(&waker_probe), 1);
}

// The test takes the steps of both endpoints, in turn.
#[test]
fn concurrent_send_and_try_recv_to_completion() {
    let (sender, receiver) = oneshot::channel::<i32>();
    assert!(is_send(&sender));
    assert!(is_send(&receiver));

    assert_eq!(receiver.try_recv(), Err(TryRecvError::Empty));
    sender.send(999).unwrap();
    assert_eq!(receiver.try_recv(), Ok(999));
}

// The test takes the steps of both endpoints, in turn.
#[test]
fn concurrent_drop_sender_and_try_recv_to_completion() {
    let (sender, receiver) = oneshot::channel::<i32>();

    assert_eq!(receiver.try_recv(), Err(TryRecvError::Empty));
    sender.disconnect();
    assert_eq!(receiver.try_recv(), Err(TryRecvError::Disconnected));
}

// The test takes the steps of both endpoints, in turn.
#[test]
fn concurrent_send_and_poll_to_completion() {
    let (sender, receiver) = oneshot::channel::<i32>();
    let mut receiver = receiver.into_future();
    let (waker, _waker_probe) = WakerProbe::new();
    let mut context = Context::from_waker(&waker);

    assert_eq!(Pin::new(&mut receiver).poll(&mut context), Poll::Pending);
    assert_eq!(Pin::new(&mut receiver).poll(&mut context), Poll::Pending);
    let awakening = pause_while_awaking(sender, 999);
    assert_eq!(Pin::new(&mut receiver).poll(&mut context), Poll::Pending);
    awakening.finish().waker.wake();
    assert_eq!(
        Pin::new(&mut receiver).poll(&mut context),
        Poll::Ready(Ok(999))
    );
}

// The test takes the steps of both endpoints, in turn.
#[test]
fn concurrent_drop_sender_and_poll_to_completion() {
    let (sender, receiver) = oneshot::channel::<i32>();
    let mut receiver = receiver.into_future();
    let (waker, _waker_probe) = WakerProbe::new();
    let mut context = Context::from_waker(&waker);

    assert_eq!(Pin::new(&mut receiver).poll(&mut context), Poll::Pending);
    sender.disconnect();
    assert_eq!(
        Pin::new(&mut receiver).poll(&mut context),
        Poll::Ready(Err(RecvError::Disconnected))
    );
}
