# oneshot

A one-shot channel: a single message from a `Sender` to a `Receiver`, which may be polled as a
future, verified with Verus.

* `src/channel.rs`: the state machine that the endpoints share. Every step is a method with an exact
  contract.
* `src/protocol.rs`: a model of the two endpoints, step by step, and what holds of it however their
  steps interleave: the message has one owner and arrives at most once, no wake-up is lost, every
  waker is released once, a closed channel stays closed, and the channel is freed once.
* `src/calls.rs`: whole calls of the endpoints in runs of the model, wherever in the run their steps
  are.
* `src/shared.rs`: the state machine behind a lock, one step under one lock, and the hold of an endpoint
  on it, which records every step and every wake-up in order.
* `src/receiver.rs`, `src/sender.rs`: the endpoints. Their contracts fix their records: which steps they
  have taken on their channel, and which wakers they have woken, in order, and no more.
* `src/refinement.rs`: that what the contracts of the endpoints say is what happens in the model, step
  by step and call by call, and with that the promises of the endpoints themselves: no wake-up is lost
  between a poll and a send or a disconnect.
* `src/platform.rs`: the declarations of what the library calls in the standard library.
* `src/error.rs`: the errors.
* `app/`: the same channel with the traits that need code outside the library.
