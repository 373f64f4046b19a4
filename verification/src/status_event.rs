//! Progress events: a bag of optional fields, shown in the order in which
//! they were first set.

use vstd::prelude::*;
use vstd::string::StringExecFns;
use crate::text::{decimal, join, push_decimal};

verus! {

/// The fields that an event can carry.
#[derive(Debug, Clone, Copy, PartialEq, Eq, Structural)]
pub enum Field {
    Stage,
    Current,
    Total,
    Message,
    Path,
}

/// One progress event. An event is a value: deriving an event from another
/// leaves the other as it was.
#[derive(Debug)]
pub struct StatusEvent {
    pub stage: Option<String>,
    pub current: Option<usize>,
    pub total: Option<usize>,
    pub message: Option<String>,
    pub path: Option<String>,
    order: Vec<Field>,
    separator: String,
}

/// The mathematical content of a [`StatusEvent`].
pub struct StatusEventView {
    pub stage: Option<Seq<char>>,
    pub current: Option<nat>,
    pub total: Option<nat>,
    pub message: Option<Seq<char>>,
    pub path: Option<Seq<char>>,
    /// The fields in the order in which they were first set.
    pub order: Seq<Field>,
    pub separator: Seq<char>,
}

/// The text of an optional string.
pub open spec fn opt_text(s: Option<String>) -> Option<Seq<char>> {
    match s {
        Some(s) => Some(s@),
        None => None,
    }
}

/// The value of an optional count.
pub open spec fn opt_count(n: Option<usize>) -> Option<nat> {
    match n {
        Some(n) => Some(n as nat),
        None => None,
    }
}

impl StatusEventView {
    /// The event that carries nothing, with a single space as separator.
    pub open spec fn new() -> StatusEventView {
        StatusEventView {
            stage: None,
            current: None,
            total: None,
            message: None,
            path: None,
            order: Seq::empty(),
            separator: seq![' '],
        }
    }

    /// The event that carries nothing and separates with nothing.
    pub open spec fn blank() -> StatusEventView {
        StatusEventView { separator: Seq::empty(), ..StatusEventView::new() }
    }

    /// Whether the event carries `field`.
    pub open spec fn carries(self, field: Field) -> bool {
        match field {
            Field::Stage => self.stage is Some,
            Field::Current => self.current is Some,
            Field::Total => self.total is Some,
            Field::Message => self.message is Some,
            Field::Path => self.path is Some,
        }
    }

    /// The order after `field` was set: a field enters the order when it is
    /// set for the first time.
    pub open spec fn order_with(self, field: Field) -> Seq<Field> {
        if self.carries(field) {
            self.order
        } else {
            self.order.push(field)
        }
    }

    pub open spec fn with_stage(self, stage: Seq<char>) -> StatusEventView {
        StatusEventView { stage: Some(stage), order: self.order_with(Field::Stage), ..self }
    }

    pub open spec fn with_current(self, current: nat) -> StatusEventView {
        StatusEventView { current: Some(current), order: self.order_with(Field::Current), ..self }
    }

    pub open spec fn with_total(self, total: nat) -> StatusEventView {
        StatusEventView { total: Some(total), order: self.order_with(Field::Total), ..self }
    }

    pub open spec fn with_message(self, message: Seq<char>) -> StatusEventView {
        StatusEventView { message: Some(message), order: self.order_with(Field::Message), ..self }
    }

    pub open spec fn with_path(self, path: Seq<char>) -> StatusEventView {
        StatusEventView { path: Some(path), order: self.order_with(Field::Path), ..self }
    }

    pub open spec fn with_separator(self, separator: Seq<char>) -> StatusEventView {
        StatusEventView { separator, ..self }
    }

    /// The text that stands for `field` in a rendered line: the field's text,
    /// or the decimal numeral of a count.
    pub open spec fn text_of(self, field: Field) -> Option<Seq<char>> {
        match field {
            Field::Stage => self.stage,
            Field::Current => match self.current {
                Some(n) => Some(decimal(n)),
                None => None,
            },
            Field::Total => match self.total {
                Some(n) => Some(decimal(n)),
                None => None,
            },
            Field::Message => self.message,
            Field::Path => self.path,
        }
    }

    /// The texts of the first `n` fields of the order that the event carries.
    pub open spec fn shown(self, n: int) -> Seq<Seq<char>>
        decreases n,
    {
        if n <= 0 {
            Seq::empty()
        } else {
            match self.text_of(self.order[n - 1]) {
                Some(text) => self.shown(n - 1).push(text),
                None => self.shown(n - 1),
            }
        }
    }

    /// The line that shows the event: the texts of the fields it carries, in
    /// the order in which they were first set, joined by the separator.
    pub open spec fn rendered(self) -> Seq<char> {
        join(self.shown(self.order.len() as int), self.separator)
    }
}

impl View for StatusEvent {
    type V = StatusEventView;

    closed spec fn view(&self) -> StatusEventView {
        StatusEventView {
            stage: opt_text(self.stage),
            current: opt_count(self.current),
            total: opt_count(self.total),
            message: opt_text(self.message),
            path: opt_text(self.path),
            order: self.order@,
            separator: self.separator@,
        }
    }
}

impl DeepView for StatusEvent {
    type V = StatusEventView;

    open spec fn deep_view(&self) -> StatusEventView {
        self@
    }
}

fn copy_text(s: &Option<String>) -> (r: Option<String>)
    ensures
        opt_text(r) == opt_text(*s),
{
    match s {
        Some(s) => Some(s.clone()),
        None => None,
    }
}

impl StatusEvent {
    /// An event that carries nothing yet; its fields will be separated by a
    /// single space.
    pub fn new() -> (r: StatusEvent)
        ensures
            r@ == StatusEventView::new(),
    {
        proof {
            reveal_strlit(" ");
        }
        let separator = " ".to_owned();
        assert(separator@ =~= seq![' ']);
        StatusEvent {
            stage: None,
            current: None,
            total: None,
            message: None,
            path: None,
            order: Vec::new(),
            separator,
        }
    }

    /// Sets the stage, a coarse label such as "started" or "completed".
    pub fn with_stage(self, stage: &str) -> (r: StatusEvent)
        ensures
            r@ == self@.with_stage(stage@),
    {
        let mut event = self;
        if event.stage.is_none() {
            event.order.push(Field::Stage);
        }
        event.stage = Some(stage.to_owned());
        event
    }

    /// Sets the number of items handled so far.
    pub fn with_current(self, current: usize) -> (r: StatusEvent)
        ensures
            r@ == self@.with_current(current as nat),
    {
        let mut event = self;
        if event.current.is_none() {
            event.order.push(Field::Current);
        }
        event.current = Some(current);
        event
    }

    /// Sets the number of items in all.
    pub fn with_total(self, total: usize) -> (r: StatusEvent)
        ensures
            r@ == self@.with_total(total as nat),
    {
        let mut event = self;
        if event.total.is_none() {
            event.order.push(Field::Total);
        }
        event.total = Some(total);
        event
    }

    /// Sets the message.
    pub fn with_message(self, msg: &str) -> (r: StatusEvent)
        ensures
            r@ == self@.with_message(msg@),
    {
        let mut event = self;
        if event.message.is_none() {
            event.order.push(Field::Message);
        }
        event.message = Some(msg.to_owned());
        event
    }

    /// Sets the path that the event is about.
    pub fn with_path(self, path: &str) -> (r: StatusEvent)
        ensures
            r@ == self@.with_path(path@),
    {
        let mut event = self;
        if event.path.is_none() {
            event.order.push(Field::Path);
        }
        event.path = Some(path.to_owned());
        event
    }

    /// Sets the text that separates the fields of the rendered line.
    pub fn with_separator(self, sep: &str) -> (r: StatusEvent)
        ensures
            r@ == self@.with_separator(sep@),
    {
        let mut event = self;
        event.separator = sep.to_owned();
        event
    }

    /// The stage, if set.
    pub fn stage(&self) -> (r: &Option<String>)
        ensures
            opt_text(*r) == self@.stage,
    {
        &self.stage
    }

    /// The message, if set.
    pub fn message(&self) -> (r: &Option<String>)
        ensures
            opt_text(*r) == self@.message,
    {
        &self.message
    }

    /// The path that the event is about, if set.
    pub fn path(&self) -> (r: &Option<String>)
        ensures
            opt_text(*r) == self@.path,
    {
        &self.path
    }

    /// The text that separates the fields of the rendered line.
    pub fn separator(&self) -> (r: &str)
        ensures
            r@ == self@.separator,
    {
        self.separator.as_str()
    }

    /// The number of items handled so far, if set.
    pub fn current(&self) -> (r: Option<usize>)
        ensures
            opt_count(r) == self@.current,
    {
        self.current
    }

    /// The number of items in all, if set.
    pub fn total(&self) -> (r: Option<usize>)
        ensures
            opt_count(r) == self@.total,
    {
        self.total
    }

    /// Appends the text of `field` to `out`, after the separator unless the
    /// text is the first of the line.
    fn push_field(&self, out: &mut String, field: Field, first: bool) -> (shown: bool)
        ensures
            shown == (self@.text_of(field) is Some),
            match self@.text_of(field) {
                Some(text) => final(out)@ == old(out)@ + (if first {
                    Seq::empty()
                } else {
                    self@.separator
                }) + text,
                None => final(out)@ == old(out)@,
            },
    {
        let present = match field {
            Field::Stage => self.stage.is_some(),
            Field::Current => self.current.is_some(),
            Field::Total => self.total.is_some(),
            Field::Message => self.message.is_some(),
            Field::Path => self.path.is_some(),
        };
        if !present {
            return false;
        }
        if !first {
            out.append(self.separator.as_str());
        }
        assert(out@ =~= old(out)@ + (if first {
            Seq::empty()
        } else {
            self@.separator
        }));
        match field {
            Field::Stage => {
                if let Some(text) = &self.stage {
                    out.append(text.as_str());
                }
            },
            Field::Current => {
                if let Some(n) = self.current {
                    push_decimal(out, n as u64);
                }
            },
            Field::Total => {
                if let Some(n) = self.total {
                    push_decimal(out, n as u64);
                }
            },
            Field::Message => {
                if let Some(text) = &self.message {
                    out.append(text.as_str());
                }
            },
            Field::Path => {
                if let Some(text) = &self.path {
                    out.append(text.as_str());
                }
            },
        }
        true
    }

    /// The line that shows the event to a person.
    pub fn render(&self) -> (r: String)
        ensures
            r@ == self@.rendered(),
    {
        let mut out = String::new();
        let mut first = true;
        let mut i: usize = 0;
        while i < self.order.len()
            invariant
                i <= self.order.len(),
                first == (self@.shown(i as int).len() == 0),
                out@ == join(self@.shown(i as int), self@.separator),
            decreases self.order.len() - i,
        {
            let ghost before = self@.shown(i as int);
            let shown = self.push_field(&mut out, self.order[i], first);
            proof {
                if shown {
                    let text = self@.text_of(self.order@[i as int])->0;
                    assert(self@.shown(i + 1) == before.push(text));
                    assert(before.push(text).drop_last() =~= before);
                    if first {
                        assert(out@ =~= text);
                    } else {
                        assert(out@ =~= join(before, self@.separator) + self@.separator + text);
                    }
                }
            }
            if shown {
                first = false;
            }
            i += 1;
        }
        out
    }

    /// A copy of this event.
    pub fn duplicate(&self) -> (r: StatusEvent)
        ensures
            r@ == self@,
    {
        let mut order: Vec<Field> = Vec::new();
        let mut i: usize = 0;
        while i < self.order.len()
            invariant
                i <= self.order.len(),
                order@ == self.order@.take(i as int),
            decreases self.order.len() - i,
        {
            order.push(self.order[i]);
            assert(order@ =~= self.order@.take(i + 1));
            i += 1;
        }
        assert(order@ =~= self.order@);
        StatusEvent {
            stage: copy_text(&self.stage),
            current: self.current,
            total: self.total,
            message: copy_text(&self.message),
            path: copy_text(&self.path),
            order,
            separator: self.separator.clone(),
        }
    }
}

impl Clone for StatusEvent {
    fn clone(&self) -> (r: StatusEvent)
        ensures
            r@ == self@,
    {
        self.duplicate()
    }
}

impl Default for StatusEvent {
    /// An event that carries nothing and separates its fields with nothing.
    fn default() -> (r: StatusEvent)
        ensures
            r@ == StatusEventView::blank(),
    {
        StatusEvent {
            stage: None,
            current: None,
            total: None,
            message: None,
            path: None,
            order: Vec::new(),
            separator: String::new(),
        }
    }
}

} // verus!
