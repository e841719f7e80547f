//! Classification of one command line into a protocol event, together
//! with any reply the server owes before the state machine advances.
//!
//! Dispatch goes by the first whitespace-separated token of the line,
//! matched case-insensitively.

use vstd::prelude::*;

use crate::fsm::{Event, SpecEvent};
use crate::text::{
    all_space, first_token, is_blank, to_ascii_upper, token_of, token_upper_is, upper_spec,
};

verus! {

/// What one command line asks of the session: the event to feed the
/// machine, an inline reply owed before any state is entered, and
/// whether one further input line must be consumed unexamined.
pub struct Dispatch {
    pub event: Event,
    pub reply: Option<String>,
    pub consume_extra: bool,
}

/// Ghost mirror of [`Dispatch`].
pub ghost struct SpecDispatch {
    pub event: SpecEvent,
    pub reply: Option<Seq<char>>,
    pub consume_extra: bool,
}

impl View for Dispatch {
    type V = SpecDispatch;

    open spec fn view(&self) -> SpecDispatch {
        SpecDispatch {
            event: self.event@,
            reply: match self.reply {
                Option::Some(r) => Option::Some(r@),
                Option::None => Option::None,
            },
            consume_extra: self.consume_extra,
        }
    }
}

/// The dispatch table.  A blank line is a health-check probe and is
/// answered inline; `STARTTLS` is refused inline and swallows the line
/// that follows it; `NOOP` is acknowledged inline and changes nothing;
/// an unknown verb fails the session, naming the verb in its canonical
/// upper-case form, unless it arrives after the dialogue has already
/// concluded (`at_end`), where it merely quits.
pub open spec fn spec_dispatch(line: Seq<char>, at_end: bool) -> SpecDispatch {
    if all_space(line) {
        SpecDispatch {
            event: SpecEvent::HealthCheck,
            reply: Option::Some("500 Command Unrecognized"@),
            consume_extra: false,
        }
    } else {
        let u = upper_spec(token_of(line));
        if u == "EHLO"@ || u == "HELO"@ {
            SpecDispatch { event: SpecEvent::Greeting, reply: Option::None, consume_extra: false }
        } else if u == "STARTTLS"@ {
            SpecDispatch {
                event: SpecEvent::NoTls,
                reply: Option::Some("454 TLS Not available"@),
                consume_extra: true,
            }
        } else if u == "MAIL"@ {
            SpecDispatch { event: SpecEvent::MailFrom, reply: Option::None, consume_extra: false }
        } else if u == "RCPT"@ {
            SpecDispatch {
                event: SpecEvent::Recipient { rcpt: line },
                reply: Option::None,
                consume_extra: false,
            }
        } else if u == "DATA"@ {
            SpecDispatch { event: SpecEvent::Data, reply: Option::None, consume_extra: false }
        } else if u == "NOOP"@ {
            SpecDispatch {
                event: SpecEvent::NoOp,
                reply: Option::Some("250 OK"@),
                consume_extra: false,
            }
        } else if u == "QUIT"@ || u == "RSET"@ {
            SpecDispatch { event: SpecEvent::Quit, reply: Option::None, consume_extra: false }
        } else if at_end {
            SpecDispatch { event: SpecEvent::Quit, reply: Option::None, consume_extra: false }
        } else {
            SpecDispatch {
                event: SpecEvent::Fail { cmd: upper_spec(token_of(line)) },
                reply: Option::None,
                consume_extra: false,
            }
        }
    }
}

/// Classify one command line.
pub fn classify_command(line: &String, at_end: bool) -> (d: Dispatch)
    ensures
        d@ == spec_dispatch(line@, at_end),
{
    if is_blank(line.as_str()) {
        return Dispatch {
            event: Event::HealthCheck,
            reply: Some("500 Command Unrecognized".to_owned()),
            consume_extra: false,
        };
    }
    let t = first_token(line.as_str());
    if token_upper_is(t, "EHLO") || token_upper_is(t, "HELO") {
        Dispatch { event: Event::Greeting, reply: None, consume_extra: false }
    } else if token_upper_is(t, "STARTTLS") {
        Dispatch {
            event: Event::NoTls,
            reply: Some("454 TLS Not available".to_owned()),
            consume_extra: true,
        }
    } else if token_upper_is(t, "MAIL") {
        Dispatch { event: Event::MailFrom, reply: None, consume_extra: false }
    } else if token_upper_is(t, "RCPT") {
        Dispatch {
            event: Event::Recipient { rcpt: line.clone() },
            reply: None,
            consume_extra: false,
        }
    } else if token_upper_is(t, "DATA") {
        Dispatch { event: Event::Data, reply: None, consume_extra: false }
    } else if token_upper_is(t, "NOOP") {
        Dispatch { event: Event::NoOp, reply: Some("250 OK".to_owned()), consume_extra: false }
    } else if token_upper_is(t, "QUIT") || token_upper_is(t, "RSET") {
        Dispatch { event: Event::Quit, reply: None, consume_extra: false }
    } else if at_end {
        Dispatch { event: Event::Quit, reply: None, consume_extra: false }
    } else {
        Dispatch {
            event: Event::Fail { cmd: to_ascii_upper(t) },
            reply: None,
            consume_extra: false,
        }
    }
}

} // verus!
