//! Emitting progress events to whoever handles them.

use vstd::prelude::*;
use std::sync::Arc;
use tokio::sync::mpsc::Receiver;
use crate::status_channel::{max_buffer, status_channel, StatusChannel};
use crate::status_event::{StatusEvent, StatusEventView};

verus! {

/// Receives the events that an emitter sends. Implementations decide what
/// becomes of an event; they must not make the sender wait.
pub trait StatusHandler: Send + Sync {
    fn handle_event(&self, event: StatusEvent);
}

/// `handler` was handed an event with the content `event`.
pub open spec fn handed<H: StatusHandler>(handler: &H, event: StatusEventView) -> bool {
    exists|sent: StatusEvent|
        sent@ == event && #[trigger] call_ensures(H::handle_event, (handler, sent), ())
}

/// Calls `Arc::clone`, which returns another pointer to the same value.
#[verifier::external_body]
fn share<H: StatusHandler>(handler: &Arc<H>) -> (r: Arc<H>)
    ensures
        r == *handler,
{
    Arc::clone(handler)
}

/// An event under construction together with the handler that it will be
/// sent to. Every `with_` method leaves the emitter as it is and returns a
/// new one, so one emitter can seed many events.
pub struct StatusEmitter<H: StatusHandler> {
    emitter: Arc<H>,
    event: StatusEvent,
}

impl<H: StatusHandler> StatusEmitter<H> {
    /// The event that `emit` would send.
    pub closed spec fn event(&self) -> StatusEventView {
        self.event@
    }

    /// The handler that `emit` would send to.
    pub closed spec fn handler(&self) -> Arc<H> {
        self.emitter
    }

    /// An emitter for `emitter` whose event carries nothing yet.
    pub fn new(emitter: Arc<H>) -> (r: StatusEmitter<H>)
        ensures
            r.event() == StatusEventView::new(),
            r.handler() == emitter,
    {
        StatusEmitter { emitter, event: StatusEvent::new() }
    }

    pub fn with_stage(&self, stage: &str) -> (r: StatusEmitter<H>)
        ensures
            r.event() == self.event().with_stage(stage@),
            r.handler() == self.handler(),
    {
        StatusEmitter {
            emitter: share(&self.emitter),
            event: self.event.duplicate().with_stage(stage),
        }
    }

    pub fn with_message(&self, message: &str) -> (r: StatusEmitter<H>)
        ensures
            r.event() == self.event().with_message(message@),
            r.handler() == self.handler(),
    {
        StatusEmitter {
            emitter: share(&self.emitter),
            event: self.event.duplicate().with_message(message),
        }
    }

    pub fn with_current(&self, current: usize) -> (r: StatusEmitter<H>)
        ensures
            r.event() == self.event().with_current(current as nat),
            r.handler() == self.handler(),
    {
        StatusEmitter {
            emitter: share(&self.emitter),
            event: self.event.duplicate().with_current(current),
        }
    }

    pub fn with_total(&self, total: usize) -> (r: StatusEmitter<H>)
        ensures
            r.event() == self.event().with_total(total as nat),
            r.handler() == self.handler(),
    {
        StatusEmitter {
            emitter: share(&self.emitter),
            event: self.event.duplicate().with_total(total),
        }
    }

    pub fn with_path(&self, path: &str) -> (r: StatusEmitter<H>)
        ensures
            r.event() == self.event().with_path(path@),
            r.handler() == self.handler(),
    {
        StatusEmitter {
            emitter: share(&self.emitter),
            event: self.event.duplicate().with_path(path),
        }
    }

    pub fn with_separator(&self, sep: &str) -> (r: StatusEmitter<H>)
        ensures
            r.event() == self.event().with_separator(sep@),
            r.handler() == self.handler(),
    {
        StatusEmitter {
            emitter: share(&self.emitter),
            event: self.event.duplicate().with_separator(sep),
        }
    }

    /// A copy of the event that `emit` would send.
    pub fn current_event(&self) -> (r: StatusEvent)
        ensures
            r@ == self.event(),
    {
        self.event.duplicate()
    }

    /// Sends a copy of the event to the handler.
    pub fn emit(&self)
        ensures
            handed(&*self.handler(), self.event()),
    {
        let event = self.event.duplicate();
        self.emitter.handle_event(event);
        assert(call_ensures(H::handle_event, (&*self.emitter, event), ()));
    }
}

/// Makes the event bus: a channel that buffers up to `buffer` events, an
/// emitter that sends into it, and the receiving half for the one consumer.
pub fn setup_status_emitter(buffer: usize) -> (r: (
    StatusEmitter<StatusChannel>,
    Receiver<StatusEvent>,
))
    requires
        0 < buffer <= max_buffer(),
    ensures
        r.0.event() == StatusEventView::new(),
        r.0.handler().bound() == buffer,
{
    let (channel, receiver) = status_channel(buffer);
    (StatusEmitter::new(Arc::new(channel)), receiver)
}

} // verus!
