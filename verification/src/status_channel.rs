//! The bounded channel that carries events from producers to the consumer.

use vstd::prelude::*;
use tokio::sync::mpsc::error::TrySendError;
use tokio::sync::mpsc::{Receiver, Sender};
use crate::status::StatusHandler;
use crate::status_event::{StatusEvent, StatusEventView};

verus! {

/// The sending half of a bounded channel of `tokio`.
#[verifier::external_type_specification]
#[verifier::external_body]
#[verifier::reject_recursive_types(T)]
pub struct ExSender<T>(Sender<T>);

/// The receiving half of a bounded channel of `tokio`.
#[verifier::external_type_specification]
#[verifier::external_body]
#[verifier::reject_recursive_types(T)]
pub struct ExReceiver<T>(Receiver<T>);

/// The number of events that the channel behind a sender was made to buffer.
pub uninterp spec fn bound_of(sender: Sender<StatusEvent>) -> nat;

/// The largest buffer that a channel can be made with.
pub open spec fn max_buffer() -> nat {
    (usize::MAX / 8) as nat
}

/// What became of an event handed to the channel.
#[derive(Debug, Clone, Copy, PartialEq, Eq, Structural)]
pub enum Delivery {
    /// The event was buffered for the consumer.
    Sent,
    /// The buffer was full: the event was dropped.
    Full,
    /// The consumer is gone: the event was dropped.
    Closed,
}

/// Calls `tokio::sync::mpsc::channel`, which makes a channel that buffers up
/// to `buffer` values and panics on a buffer of zero or above the largest
/// number of permits of its semaphore. The sender reports the bound that the
/// channel was made with.
#[verifier::external_body]
fn bounded_channel(buffer: usize) -> (r: (Sender<StatusEvent>, Receiver<StatusEvent>))
    requires
        0 < buffer <= max_buffer(),
    ensures
        bound_of(r.0) == buffer,
{
    tokio::sync::mpsc::channel::<StatusEvent>(buffer)
}

/// Calls `Sender::try_send` of `tokio`, which buffers the event if a slot is
/// free and returns at once if none is or if the receiver is gone. Which of
/// the three happens depends on the consumer: nothing is claimed of it.
#[verifier::external_body]
fn try_send(sender: &Sender<StatusEvent>, event: StatusEvent) -> (r: Delivery) {
    match sender.try_send(event) {
        Ok(()) => Delivery::Sent,
        Err(TrySendError::Full(_)) => Delivery::Full,
        Err(TrySendError::Closed(_)) => Delivery::Closed,
    }
}

/// Calls `Sender::max_capacity` of `tokio`, which returns the buffer size
/// that the channel was made with.
#[verifier::external_body]
fn max_capacity(sender: &Sender<StatusEvent>) -> (r: usize)
    ensures
        r == bound_of(*sender),
{
    sender.max_capacity()
}

/// A handler that passes events into a bounded channel. Sending never waits:
/// an event that finds the buffer full is dropped, so that reporting
/// progress cannot slow down the work it reports on.
pub struct StatusChannel {
    sender: Sender<StatusEvent>,
}

impl StatusChannel {
    /// The number of events that the channel buffers.
    pub closed spec fn bound(&self) -> nat {
        bound_of(self.sender)
    }

    /// The channel, handed an event with the content `event`, answered
    /// `answer`: the event was buffered, or it was dropped because the
    /// buffer was full or the consumer gone.
    pub closed spec fn answered(&self, event: StatusEventView, answer: Delivery) -> bool {
        exists|sent: StatusEvent|
            sent@ == event && #[trigger] call_ensures(try_send, (&self.sender, sent), answer)
    }

    /// Wraps the sending half of a channel.
    pub fn new(sender: Sender<StatusEvent>) -> (r: StatusChannel)
        ensures
            r.bound() == bound_of(sender),
    {
        StatusChannel { sender }
    }

    /// The number of events that the channel buffers.
    pub fn capacity(&self) -> (r: usize)
        ensures
            r == self.bound(),
    {
        max_capacity(&self.sender)
    }

    /// Hands an event to the channel without waiting and says what became
    /// of it.
    pub fn deliver(&self, event: StatusEvent) -> (r: Delivery)
        ensures
            self.answered(event@, r),
    {
        let answer = try_send(&self.sender, event);
        assert(call_ensures(try_send, (&self.sender, event), answer));
        answer
    }

    fn send_event(&self, event: StatusEvent) {
        let _ = self.deliver(event);
    }
}

impl StatusHandler for StatusChannel {
    fn handle_event(&self, event: StatusEvent) {
        self.send_event(event);
    }
}

/// Makes a channel that buffers up to `buffer` events and wraps its sending
/// half as a handler.
pub fn status_channel(buffer: usize) -> (r: (StatusChannel, Receiver<StatusEvent>))
    requires
        0 < buffer <= max_buffer(),
    ensures
        r.0.bound() == buffer,
{
    let (sender, receiver) = bounded_channel(buffer);
    (StatusChannel::new(sender), receiver)
}

} // verus!
