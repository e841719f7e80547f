//! The SMTP conversation's finite state machine: the closed set of
//! states, the events derived from peer input, and the total transition
//! function `State::next`.

use vstd::prelude::*;

verus! {

/// The per-connection protocol states.
#[derive(Clone, Copy, PartialEq, Eq, Structural, Debug)]
pub enum State {
    Connected,
    Greeted,
    MailFrom,
    RcptTo,
    Data,
    Done,
    Failed,
    Quit,
}

/// Events derived from one unit of peer input.
#[derive(Debug)]
pub enum Event {
    HealthCheck,
    Greeting,
    NoTls,
    MailFrom,
    Recipient { rcpt: String },
    Data,
    EndOfFile { buf: String },
    Fail { cmd: String },
    NoOp,
    Quit,
}

/// Ghost mirror of [`Event`], with payloads as character sequences.
pub ghost enum SpecEvent {
    HealthCheck,
    Greeting,
    NoTls,
    MailFrom,
    Recipient { rcpt: Seq<char> },
    Data,
    EndOfFile { buf: Seq<char> },
    Fail { cmd: Seq<char> },
    NoOp,
    Quit,
}

impl View for Event {
    type V = SpecEvent;

    open spec fn view(&self) -> SpecEvent {
        match self {
            Event::HealthCheck => SpecEvent::HealthCheck,
            Event::Greeting => SpecEvent::Greeting,
            Event::NoTls => SpecEvent::NoTls,
            Event::MailFrom => SpecEvent::MailFrom,
            Event::Recipient { rcpt } => SpecEvent::Recipient { rcpt: rcpt@ },
            Event::Data => SpecEvent::Data,
            Event::EndOfFile { buf } => SpecEvent::EndOfFile { buf: buf@ },
            Event::Fail { cmd } => SpecEvent::Fail { cmd: cmd@ },
            Event::NoOp => SpecEvent::NoOp,
            Event::Quit => SpecEvent::Quit,
        }
    }
}

/// The transition table.  Events that carry no state change
/// (`NoTls`, `HealthCheck`, `NoOp`) keep the current state; `Fail`
/// always reaches `Failed` and `Quit` always reaches `Quit`; every
/// `(state, event)` pair outside the table falls to `Failed`.
pub open spec fn spec_next(s: State, e: SpecEvent) -> State {
    match e {
        SpecEvent::NoTls => s,
        SpecEvent::HealthCheck => s,
        SpecEvent::NoOp => s,
        SpecEvent::Fail { .. } => State::Failed,
        SpecEvent::Quit => State::Quit,
        SpecEvent::Greeting => if s == State::Connected {
            State::Greeted
        } else {
            State::Failed
        },
        SpecEvent::MailFrom => if s == State::Greeted {
            State::MailFrom
        } else {
            State::Failed
        },
        SpecEvent::Recipient { .. } => if s == State::MailFrom {
            State::RcptTo
        } else {
            State::Failed
        },
        SpecEvent::Data => if s == State::RcptTo {
            State::Data
        } else {
            State::Failed
        },
        SpecEvent::EndOfFile { .. } => if s == State::Data {
            State::Done
        } else {
            State::Failed
        },
    }
}

/// A `(state, event)` pair the transition table advances: the five
/// forward edges of the protocol.
pub open spec fn pair_in_table(s: State, e: SpecEvent) -> bool {
    ||| (s == State::Connected && e is Greeting)
    ||| (s == State::Greeted && e is MailFrom)
    ||| (s == State::MailFrom && e is Recipient)
    ||| (s == State::RcptTo && e is Data)
    ||| (s == State::Data && e is EndOfFile)
}

impl State {
    /// The transition function of the session machine.
    pub fn next(self, event: &Event) -> (r: State)
        ensures
            r == spec_next(self, event@),
    {
        match (self, event) {
            (state, Event::NoTls) => state,
            (state, Event::HealthCheck) => state,
            (state, Event::NoOp) => state,
            (_, Event::Fail { cmd: _ }) => State::Failed,
            (_, Event::Quit) => State::Quit,
            (State::Connected, Event::Greeting) => State::Greeted,
            (State::Greeted, Event::MailFrom) => State::MailFrom,
            (State::MailFrom, Event::Recipient { rcpt: _ }) => State::RcptTo,
            (State::RcptTo, Event::Data) => State::Data,
            (State::Data, Event::EndOfFile { buf: _ }) => State::Done,
            (_, _) => State::Failed,
        }
    }
}

/// Safety of the machine: every transition lands in one of the eight
/// declared states, and any pair outside the transition table falls to
/// `Failed` or `Quit` unless its event is one of the three that keep
/// the current state.
pub proof fn lemma_next_safe(s: State, e: SpecEvent)
    ensures
        spec_next(s, e) == State::Connected || spec_next(s, e) == State::Greeted || spec_next(
            s,
            e,
        ) == State::MailFrom || spec_next(s, e) == State::RcptTo || spec_next(s, e) == State::Data
            || spec_next(s, e) == State::Done || spec_next(s, e) == State::Failed || spec_next(
            s,
            e,
        ) == State::Quit,
        (e is NoTls || e is HealthCheck || e is NoOp) ==> spec_next(s, e) == s,
        !(e is NoTls || e is HealthCheck || e is NoOp) && !pair_in_table(s, e) ==> (spec_next(s, e)
            == State::Failed || spec_next(s, e) == State::Quit),
        pair_in_table(s, e) ==> spec_next(s, e) != State::Failed && spec_next(s, e) != State::Quit,
{
}

} // verus!
