//! The status line: the latest progress event, as a line of text.

use vstd::prelude::*;
use vstd::string::StringExecFns;
use crate::status_event::{StatusEvent, StatusEventView};

verus! {

/// What the status line is told.
#[derive(Debug)]
pub enum StatusMessage {
    /// A progress event arrived.
    Event(StatusEvent),
}

/// The status line of a session: the latest event and the text shown for
/// it.
#[derive(Debug)]
pub struct Status {
    pub message: Option<String>,
    pub event: Option<StatusEvent>,
    pub show_percentage: bool,
}

/// The mathematical content of a [`Status`].
pub struct StatusView {
    pub message: Option<Seq<char>>,
    pub event: Option<StatusEventView>,
    pub show_percentage: bool,
}

impl View for Status {
    type V = StatusView;

    open spec fn view(&self) -> StatusView {
        StatusView {
            message: match self.message {
                Some(text) => Some(text@),
                None => None,
            },
            event: match self.event {
                Some(event) => Some(event@),
                None => None,
            },
            show_percentage: self.show_percentage,
        }
    }
}

/// The two counts that a percentage is computed from, where one is shown:
/// the number of items handled, capped at the total, and the total. None is
/// shown unless it is asked for and the event carries both counts with a
/// total above zero.
pub open spec fn percentage_basis(event: StatusEventView, show: bool) -> Option<(nat, nat)> {
    if show && event.current is Some && event.total is Some && event.total->0 > 0 {
        Some(
            (
                if event.current->0 <= event.total->0 {
                    event.current->0
                } else {
                    event.total->0
                },
                event.total->0,
            ),
        )
    } else {
        None
    }
}

/// The rendered event followed by the percentage in brackets.
pub open spec fn line_with_percentage(event: StatusEventView, percentage: Seq<char>) -> Seq<char> {
    event.rendered() + " ("@ + percentage + "%)"@
}

/// `message` is the text for `event`, with `percent` writing the number of a
/// percentage where one is shown.
pub open spec fn message_for<P: Fn(usize, usize) -> String>(
    percent: P,
    event: StatusEventView,
    show: bool,
    message: Seq<char>,
) -> bool {
    match percentage_basis(event, show) {
        None => message == event.rendered(),
        Some((part, whole)) => exists|p: usize, w: usize, number: String|
            p == part && w == whole && #[trigger] call_ensures(percent, (p, w), number) && message
                == line_with_percentage(event, number@),
    }
}

impl Status {
    /// An empty status line.
    pub fn new(show_percentage: bool) -> (r: Status)
        ensures
            r@ == (StatusView { message: None, event: None, show_percentage }),
    {
        Status { message: None, event: None, show_percentage }
    }

    /// Clears the line: no event, no text.
    pub fn reset(&mut self)
        ensures
            final(self)@ == (StatusView { message: None, event: None, ..old(self)@ }),
    {
        self.message = None;
        self.event = None;
    }

    /// Writes the text for the latest event: the rendered event and, where a
    /// percentage is shown, the percentage after it. How the number is
    /// written is left to `percent`, which is handed a part and a whole
    /// with the part no larger than the whole and the whole above zero.
    /// Without an event there is no text.
    pub fn update_status_message<P: Fn(usize, usize) -> String>(&mut self, percent: &P)
        requires
            forall|part: usize, whole: usize|
                part <= whole && whole > 0 ==> call_requires(*percent, (part, whole)),
        ensures
            final(self)@.event == old(self)@.event,
            final(self)@.show_percentage == old(self)@.show_percentage,
            match old(self)@.event {
                None => final(self)@.message is None,
                Some(event) => final(self)@.message is Some && message_for(
                    *percent,
                    event,
                    old(self)@.show_percentage,
                    final(self)@.message->0,
                ),
            },
    {
        let show = self.show_percentage;
        let message = match &self.event {
            Some(event) => {
                let mut line = event.render();
                match (event.current(), event.total()) {
                    (Some(current), Some(total)) => {
                        if show && total > 0 {
                            let part = if current <= total {
                                current
                            } else {
                                total
                            };
                            let number = percent(part, total);
                            assert(call_ensures(*percent, (part, total), number));
                            line.append(" (");
                            line.append(number.as_str());
                            line.append("%)");
                            assert(line@ =~= line_with_percentage(event@, number@));
                        }
                    },
                    _ => {},
                }
                Some(line)
            },
            None => None,
        };
        self.message = message;
    }

    /// Takes in a message: the event becomes the latest, and the text is
    /// written anew.
    pub fn update<P: Fn(usize, usize) -> String>(&mut self, msg: StatusMessage, percent: &P)
        requires
            forall|part: usize, whole: usize|
                part <= whole && whole > 0 ==> call_requires(*percent, (part, whole)),
        ensures
            final(self)@.show_percentage == old(self)@.show_percentage,
            match msg {
                StatusMessage::Event(event) => {
                    &&& final(self)@.event == Some(event@)
                    &&& final(self)@.message is Some
                    &&& message_for(
                        *percent,
                        event@,
                        old(self)@.show_percentage,
                        final(self)@.message->0,
                    )
                },
            },
    {
        match msg {
            StatusMessage::Event(event) => {
                self.event = Some(event);
                self.update_status_message(percent);
            },
        }
    }
}

} // verus!
