//! A small "kill the newsletter" bridge: inbound mail arrives over a
//! narrow SMTP dialogue, is parsed into an entry, and is republished as a
//! per-feed Atom stream.  The protocol state machine, the command
//! dispatcher, the session interpreter, the mail projection rules and the
//! feed store are all verified; sockets and outside parsers stay behind
//! narrow boundaries.

pub mod dispatch;
pub mod deliver;
pub mod http;
pub mod fsm;
pub mod mail;
pub mod session;
pub mod store;
pub mod text;
pub mod time;

use vstd::prelude::*;

verus! {

/// Process-lifetime configuration, threaded explicitly instead of read
/// from globals: the mail domain served and the base URL advertised in
/// rendered pages.
pub struct Config {
    pub email_domain: String,
    pub web_url: String,
}

} // verus!
