//! The per-connection SMTP session: a pure interpreter over the
//! sequence of peer inputs.  Each iteration emits the entry line of the
//! current state, reads one unit of input (one command line, or the
//! whole DATA payload), classifies it, and advances the machine, until
//! a terminal state closes the dialogue.
//!
//! The interpreter is specified by a recursive ghost function
//! [`spec_session`]; the executable [`run_session`] is proved to produce
//! exactly the replies and outcome that the ghost interpreter assigns to
//! the input sequence.

use vstd::prelude::*;
use vstd::string::StringExecFns;

use crate::dispatch::{classify_command, spec_dispatch};
use crate::fsm::{spec_next, Event, SpecEvent, State};
use crate::text::{str_eq, trim, trim_spec};

verus! {

/// The envelope a successful session hands on: the raw RCPT argument
/// text and the DATA payload, both trimmed.
#[derive(Debug)]
pub struct Email {
    pub rcpt: String,
    pub body: String,
}

/// What a finished session reports to its caller.
#[derive(Debug)]
pub enum SMTPResult {
    HealthCheck,
    Success { email: Option<Email> },
}

/// One unit of input from the peer: a received line, an orderly close,
/// or a transport error with its description.
pub enum PeerInput {
    Line { text: String },
    Reset,
    Broken { detail: String },
}

/// Ghost mirror of [`PeerInput`].
pub ghost enum SpecPeerInput {
    Line { text: Seq<char> },
    Reset,
    Broken { detail: Seq<char> },
}

impl View for PeerInput {
    type V = SpecPeerInput;

    open spec fn view(&self) -> SpecPeerInput {
        match self {
            PeerInput::Line { text } => SpecPeerInput::Line { text: text@ },
            PeerInput::Reset => SpecPeerInput::Reset,
            PeerInput::Broken { detail } => SpecPeerInput::Broken { detail: detail@ },
        }
    }
}

/// The line that ends a DATA payload.
pub open spec fn data_sentinel() -> Seq<char> {
    ".\r\n"@
}

/// Result of reading the DATA phase: the index of the next unread
/// input, the accumulated payload, and the error that interrupted the
/// read, if one did.
pub ghost struct SpecDataRead {
    pub next: int,
    pub buf: Seq<char>,
    pub err: Option<Seq<char>>,
}

/// Ghost reading of the DATA phase: lines accumulate verbatim until one
/// equals the sentinel `.\r\n`; a close, a transport error, or input
/// exhaustion interrupts the read.
pub open spec fn spec_read_data(inputs: Seq<SpecPeerInput>, i: int) -> SpecDataRead
    decreases inputs.len() - i,
    when 0 <= i <= inputs.len()
{
    if i >= inputs.len() {
        SpecDataRead {
            next: i,
            buf: Seq::<char>::empty(),
            err: Option::Some("connection reset by peer"@),
        }
    } else {
        match inputs[i] {
            SpecPeerInput::Line { text } => {
                if text == data_sentinel() {
                    SpecDataRead { next: i + 1, buf: Seq::<char>::empty(), err: Option::None }
                } else {
                    let rest = spec_read_data(inputs, i + 1);
                    SpecDataRead { next: rest.next, buf: text + rest.buf, err: rest.err }
                }
            },
            SpecPeerInput::Reset => SpecDataRead {
                next: i + 1,
                buf: Seq::<char>::empty(),
                err: Option::Some("connection reset by peer"@),
            },
            SpecPeerInput::Broken { detail } => SpecDataRead {
                next: i + 1,
                buf: Seq::<char>::empty(),
                err: Option::Some(detail),
            },
        }
    }
}

/// The DATA read never moves backwards nor past the end of the input.
pub proof fn lemma_read_data_bounds(inputs: Seq<SpecPeerInput>, i: int)
    requires
        0 <= i <= inputs.len(),
    ensures
        i <= spec_read_data(inputs, i).next <= inputs.len(),
        spec_read_data(inputs, i).err is None ==> spec_read_data(inputs, i).next > i,
    decreases inputs.len() - i,
{
    if i < inputs.len() {
        match inputs[i] {
            SpecPeerInput::Line { text } => {
                if text != data_sentinel() {
                    lemma_read_data_bounds(inputs, i + 1);
                }
            },
            _ => {},
        }
    }
}

/// The concatenation of the `Line` texts of `inputs[i..k]`.
pub open spec fn concat_lines(inputs: Seq<SpecPeerInput>, i: int, k: int) -> Seq<char>
    decreases k - i,
{
    if i >= k {
        Seq::<char>::empty()
    } else {
        (match inputs[i] {
            SpecPeerInput::Line { text } => text,
            _ => Seq::<char>::empty(),
        }) + concat_lines(inputs, i + 1, k)
    }
}

/// DATA termination: when the inputs carry a line equal to the sentinel
/// `.\r\n` and only ordinary lines precede it, the read succeeds and the
/// payload is exactly the concatenation, verbatim, of the lines received
/// before the sentinel.
pub proof fn lemma_data_verbatim(inputs: Seq<SpecPeerInput>, i: int, k: int)
    requires
        0 <= i <= k < inputs.len(),
        inputs[k] == (SpecPeerInput::Line { text: data_sentinel() }),
        forall|j: int| i <= j < k ==> #[trigger] inputs[j] is Line,
        forall|j: int|
            i <= j < k ==> (#[trigger] inputs[j] matches SpecPeerInput::Line { text } && text
                != data_sentinel()),
    ensures
        spec_read_data(inputs, i).err is None,
        spec_read_data(inputs, i).next == k + 1,
        spec_read_data(inputs, i).buf == concat_lines(inputs, i, k),
    decreases k - i,
{
    if i < k {
        lemma_data_verbatim(inputs, i + 1, k);
    }
}

/// The outcome of a session in ghost form.
pub ghost enum SpecOutcome {
    Health,
    Success { rcpt: Seq<char>, body: Seq<char> },
    Error { reason: Seq<char> },
}

/// A finished ghost session: every reply line emitted, in order, and
/// the outcome.
pub ghost struct SpecSessionEnd {
    pub replies: Seq<Seq<char>>,
    pub outcome: SpecOutcome,
}

/// The single line the server emits on entry to each state.
pub open spec fn entry_reply(st: State, domain: Seq<char>) -> Seq<char> {
    match st {
        State::Connected => "220 "@ + domain,
        State::Greeted => "250 OK"@,
        State::MailFrom => "250 OK"@,
        State::RcptTo => "250 OK"@,
        State::Data => "354 End data with <CR><LF>.<CR><LF>"@,
        State::Done => "250 OK"@,
        State::Failed => "502 Not Implemented"@,
        State::Quit => "250 OK"@,
    }
}

/// Ranking of states for the termination measure: terminal states
/// recurse at most into each other without consuming input.
pub open spec fn state_rank(st: State) -> int {
    match st {
        State::Failed => 0,
        State::Quit => 0,
        State::Done => 1,
        _ => 2,
    }
}

pub open spec fn end_with(pre: Seq<Seq<char>>, rest: SpecSessionEnd) -> SpecSessionEnd {
    SpecSessionEnd { replies: pre + rest.replies, outcome: rest.outcome }
}

/// The ghost session interpreter.  `i` is the cursor into the peer
/// input; `rcpt` and `data` accumulate the envelope; `reason` carries
/// the description of the failure that drove the machine to `Failed`.
/// A session that has reached `Done` has its envelope complete: a peer
/// that closes there, instead of sending `QUIT`, still concludes with
/// the `Success` outcome.
pub open spec fn spec_session(
    inputs: Seq<SpecPeerInput>,
    i: int,
    st: State,
    rcpt: Seq<char>,
    data: Seq<char>,
    reason: Seq<char>,
    domain: Seq<char>,
) -> SpecSessionEnd
    decreases inputs.len() - i, state_rank(st),
    when 0 <= i <= inputs.len()
    via spec_session_dec
{
    if st == State::Failed {
        SpecSessionEnd {
            replies: seq![entry_reply(st, domain)],
            outcome: SpecOutcome::Error { reason },
        }
    } else if st == State::Quit {
        SpecSessionEnd {
            replies: seq![entry_reply(st, domain)],
            outcome: SpecOutcome::Success { rcpt: trim_spec(rcpt), body: trim_spec(data) },
        }
    } else if st == State::Data {
        let r = spec_read_data(inputs, i);
        match r.err {
            Option::Some(e) => end_with(
                seq![entry_reply(st, domain)],
                spec_session(inputs, r.next, State::Failed, rcpt, data, e, domain),
            ),
            Option::None => end_with(
                seq![entry_reply(st, domain)],
                spec_session(inputs, r.next, State::Done, rcpt, r.buf, reason, domain),
            ),
        }
    } else {
        if i >= inputs.len() {
            if st == State::Connected {
                SpecSessionEnd {
                    replies: seq![entry_reply(st, domain)],
                    outcome: SpecOutcome::Health,
                }
            } else if st == State::Done {
                SpecSessionEnd {
                    replies: seq![entry_reply(st, domain)],
                    outcome: SpecOutcome::Success {
                        rcpt: trim_spec(rcpt),
                        body: trim_spec(data),
                    },
                }
            } else {
                end_with(
                    seq![entry_reply(st, domain)],
                    spec_session(
                        inputs,
                        i,
                        State::Failed,
                        rcpt,
                        data,
                        "connection reset by peer"@,
                        domain,
                    ),
                )
            }
        } else {
            match inputs[i] {
                SpecPeerInput::Reset => {
                    if st == State::Connected {
                        SpecSessionEnd {
                            replies: seq![entry_reply(st, domain)],
                            outcome: SpecOutcome::Health,
                        }
                    } else if st == State::Done {
                        SpecSessionEnd {
                            replies: seq![entry_reply(st, domain)],
                            outcome: SpecOutcome::Success {
                                rcpt: trim_spec(rcpt),
                                body: trim_spec(data),
                            },
                        }
                    } else {
                        end_with(
                            seq![entry_reply(st, domain)],
                            spec_session(
                                inputs,
                                i + 1,
                                State::Failed,
                                rcpt,
                                data,
                                "connection reset by peer"@,
                                domain,
                            ),
                        )
                    }
                },
                SpecPeerInput::Broken { detail } => end_with(
                    seq![entry_reply(st, domain)],
                    spec_session(inputs, i + 1, State::Failed, rcpt, data, detail, domain),
                ),
                SpecPeerInput::Line { text } => {
                    let d = spec_dispatch(text, st == State::Done);
                    if d.event is HealthCheck {
                        SpecSessionEnd {
                            replies: seq![
                                entry_reply(st, domain),
                                "500 Command Unrecognized"@,
                            ],
                            outcome: SpecOutcome::Health,
                        }
                    } else {
                        let j = if d.consume_extra && i + 1 < inputs.len() {
                            i + 2
                        } else {
                            i + 1
                        };
                        let rcpt2 = if d.event is Recipient {
                            rcpt + text
                        } else {
                            rcpt
                        };
                        let reason2 = match d.event {
                            SpecEvent::Fail { cmd } => cmd,
                            _ => reason,
                        };
                        let pre = match d.reply {
                            Option::Some(rep) => seq![entry_reply(st, domain), rep],
                            Option::None => seq![entry_reply(st, domain)],
                        };
                        end_with(
                            pre,
                            spec_session(
                                inputs,
                                j,
                                spec_next(st, d.event),
                                rcpt2,
                                data,
                                reason2,
                                domain,
                            ),
                        )
                    }
                },
            }
        }
    }
}

#[via_fn]
proof fn spec_session_dec(
    inputs: Seq<SpecPeerInput>,
    i: int,
    st: State,
    rcpt: Seq<char>,
    data: Seq<char>,
    reason: Seq<char>,
    domain: Seq<char>,
) {
    if st == State::Data {
        lemma_read_data_bounds(inputs, i);
    }
}

/// The executable session outcome agrees with the ghost one.
pub open spec fn outcome_matches(o: Result<SMTPResult, String>, s: SpecOutcome) -> bool {
    match o {
        Result::Ok(SMTPResult::HealthCheck) => s is Health,
        Result::Ok(SMTPResult::Success { email }) => match email {
            Option::Some(e) => s matches SpecOutcome::Success { rcpt, body } && e.rcpt@ == rcpt
                && e.body@ == body,
            Option::None => false,
        },
        Result::Err(e) => s matches SpecOutcome::Error { reason } && e@ == reason,
    }
}

/// Failure closes the dialogue: whatever input remains, a session that
/// has reached `Failed` — as every out-of-order command drives it to —
/// writes exactly one `502 Not Implemented` line, reads nothing
/// further, and reports the recorded reason as its error.
pub proof fn lemma_failed_closes(
    inputs: Seq<SpecPeerInput>,
    i: int,
    rcpt: Seq<char>,
    data: Seq<char>,
    reason: Seq<char>,
    domain: Seq<char>,
)
    requires
        0 <= i <= inputs.len(),
    ensures
        spec_session(inputs, i, State::Failed, rcpt, data, reason, domain).replies == seq![
            "502 Not Implemented"@,
        ],
        spec_session(inputs, i, State::Failed, rcpt, data, reason, domain).outcome == (
        SpecOutcome::Error { reason }),
{
}

/// Everything a finished session produced: the reply lines written to
/// the peer, in order, and the outcome handed to the caller.
pub struct SessionLog {
    pub replies: Vec<String>,
    pub outcome: Result<SMTPResult, String>,
}

/// The entry line for `st`, as an owned string.
pub fn entry_reply_line(st: State, domain: &str) -> (r: String)
    ensures
        r@ == entry_reply(st, domain@),
{
    match st {
        State::Connected => {
            let mut banner = "220 ".to_owned();
            banner.append(domain);
            banner
        },
        State::Greeted => "250 OK".to_owned(),
        State::MailFrom => "250 OK".to_owned(),
        State::RcptTo => "250 OK".to_owned(),
        State::Data => "354 End data with <CR><LF>.<CR><LF>".to_owned(),
        State::Done => "250 OK".to_owned(),
        State::Failed => "502 Not Implemented".to_owned(),
        State::Quit => "250 OK".to_owned(),
    }
}

/// Read the DATA payload from `inputs[start..]`: accumulate lines until
/// the sentinel, or fail with the transport error's description.
pub fn read_data(inputs: &Vec<PeerInput>, start: usize) -> (r: (usize, Result<String, String>))
    requires
        start <= inputs@.len(),
    ensures
        ({
            let g = spec_read_data(inputs@.map_values(|p: PeerInput| p@), start as int);
            r.0 == g.next && match r.1 {
                Result::Ok(buf) => g.err is None && buf@ == g.buf,
                Result::Err(e) => g.err == Option::Some(e@),
            }
        }),
{
    let ghost v = inputs@.map_values(|p: PeerInput| p@);
    let mut i: usize = start;
    let mut buf = String::new();
    loop
        invariant
            start <= i <= inputs@.len(),
            v == inputs@.map_values(|p: PeerInput| p@),
            spec_read_data(v, start as int).next == spec_read_data(v, i as int).next,
            spec_read_data(v, start as int).err == spec_read_data(v, i as int).err,
            spec_read_data(v, start as int).buf == buf@ + spec_read_data(v, i as int).buf,
        decreases inputs@.len() - i,
    {
        if i >= inputs.len() {
            proof {
                assert(buf@ + spec_read_data(v, i as int).buf =~= buf@);
            }
            return (i, Err("connection reset by peer".to_owned()));
        }
        match &inputs[i] {
            PeerInput::Line { text } => {
                if str_eq(text.as_str(), ".\r\n") {
                    proof {
                        assert(v[i as int] == inputs@[i as int]@);
                        assert(buf@ + spec_read_data(v, i as int).buf =~= buf@);
                    }
                    return (i + 1, Ok(buf));
                } else {
                    proof {
                        assert(v[i as int] == inputs@[i as int]@);
                    }
                    let ghost buf0 = buf@;
                    buf.append(text.as_str());
                    proof {
                        assert(spec_read_data(v, start as int).buf == buf@ + spec_read_data(
                            v,
                            i + 1,
                        ).buf) by {
                            assert(spec_read_data(v, i as int).buf == text@ + spec_read_data(
                                v,
                                i + 1,
                            ).buf);
                            assert((buf0 + text@) + spec_read_data(v, i + 1).buf =~= buf0 + (text@
                                + spec_read_data(v, i + 1).buf));
                        }
                    }
                    i = i + 1;
                }
            },
            PeerInput::Reset => {
                proof {
                    assert(v[i as int] == inputs@[i as int]@);
                    assert(buf@ + spec_read_data(v, i as int).buf =~= buf@);
                }
                return (i + 1, Err("connection reset by peer".to_owned()));
            },
            PeerInput::Broken { detail } => {
                proof {
                    assert(v[i as int] == inputs@[i as int]@);
                    assert(buf@ + spec_read_data(v, i as int).buf =~= buf@);
                }
                return (i + 1, Err(detail.clone()));
            },
        }
    }
}

/// Drive one whole session over the peer's inputs.  The reply lines and
/// the outcome are exactly those of the ghost interpreter started in
/// `Connected` with empty buffers.
pub fn run_session(inputs: &Vec<PeerInput>, domain: &str) -> (log: SessionLog)
    ensures
        ({
            let end = spec_session(
                inputs@.map_values(|p: PeerInput| p@),
                0,
                State::Connected,
                Seq::<char>::empty(),
                Seq::<char>::empty(),
                Seq::<char>::empty(),
                domain@,
            );
            log.replies@.map_values(|s: String| s@) == end.replies && outcome_matches(
                log.outcome,
                end.outcome,
            )
        }),
{
    let ghost v = inputs@.map_values(|p: PeerInput| p@);
    let ghost whole = spec_session(
        v,
        0,
        State::Connected,
        Seq::<char>::empty(),
        Seq::<char>::empty(),
        Seq::<char>::empty(),
        domain@,
    );
    let mut replies: Vec<String> = Vec::new();
    let mut st = State::Connected;
    let mut i: usize = 0;
    let mut rcpt = String::new();
    let mut data = String::new();
    let mut reason = String::new();
    loop
        invariant
            0 <= i <= inputs@.len(),
            v == inputs@.map_values(|p: PeerInput| p@),
            whole == spec_session(
                v,
                0,
                State::Connected,
                Seq::<char>::empty(),
                Seq::<char>::empty(),
                Seq::<char>::empty(),
                domain@,
            ),
            whole.outcome == spec_session(v, i as int, st, rcpt@, data@, reason@, domain@).outcome,
            whole.replies == replies@.map_values(|s: String| s@) + spec_session(
                v,
                i as int,
                st,
                rcpt@,
                data@,
                reason@,
                domain@,
            ).replies,
        decreases inputs@.len() - i, state_rank(st),
    {
        let ghost rest = spec_session(v, i as int, st, rcpt@, data@, reason@, domain@);
        let ghost replies0 = replies@;
        let entry = entry_reply_line(st, domain);
        replies.push(entry);
        proof {
            assert(replies@.map_values(|s: String| s@) =~= replies0.map_values(|s: String| s@)
                + seq![entry_reply(st, domain@)]);
        }
        match st {
            State::Failed => {
                proof {
                    assert(whole.replies =~= replies@.map_values(|s: String| s@));
                }
                return SessionLog { replies, outcome: Err(reason) };
            },
            State::Quit => {
                let email = Email {
                    rcpt: trim(rcpt.as_str()).to_owned(),
                    body: trim(data.as_str()).to_owned(),
                };
                proof {
                    assert(whole.replies =~= replies@.map_values(|s: String| s@));
                }
                return SessionLog {
                    replies,
                    outcome: Ok(SMTPResult::Success { email: Some(email) }),
                };
            },
            State::Data => {
                let (next, got) = read_data(inputs, i);
                proof {
                    lemma_read_data_bounds(v, i as int);
                }
                match got {
                    Ok(buf) => {
                        i = next;
                        data = buf;
                        st = State::Done;
                    },
                    Err(e) => {
                        i = next;
                        reason = e;
                        st = State::Failed;
                    },
                }
                proof {
                    let now = spec_session(v, i as int, st, rcpt@, data@, reason@, domain@);
                    assert(rest == end_with(seq![entry_reply(State::Data, domain@)], now));
                    assert(whole.replies =~= replies@.map_values(|s: String| s@) + now.replies);
                }
            },
            _ => {
                let at_end = match st {
                    State::Done => true,
                    _ => false,
                };
                if i >= inputs.len() {
                    if let State::Connected = st {
                        proof {
                            assert(whole.replies =~= replies@.map_values(|s: String| s@));
                        }
                        return SessionLog { replies, outcome: Ok(SMTPResult::HealthCheck) };
                    }
                    if let State::Done = st {
                        let email = Email {
                            rcpt: trim(rcpt.as_str()).to_owned(),
                            body: trim(data.as_str()).to_owned(),
                        };
                        proof {
                            assert(whole.replies =~= replies@.map_values(|s: String| s@));
                        }
                        return SessionLog {
                            replies,
                            outcome: Ok(SMTPResult::Success { email: Some(email) }),
                        };
                    }
                    reason = "connection reset by peer".to_owned();
                    st = State::Failed;
                    proof {
                        let now = spec_session(v, i as int, st, rcpt@, data@, reason@, domain@);
                        assert(rest.outcome == now.outcome);
                        assert(whole.replies =~= replies@.map_values(|s: String| s@)
                            + now.replies);
                    }
                } else {
                    proof {
                        assert(v[i as int] == inputs@[i as int]@);
                    }
                    match &inputs[i] {
                        PeerInput::Reset => {
                            if let State::Connected = st {
                                proof {
                                    assert(whole.replies =~= replies@.map_values(
                                        |s: String| s@,
                                    ));
                                }
                                return SessionLog {
                                    replies,
                                    outcome: Ok(SMTPResult::HealthCheck),
                                };
                            }
                            if let State::Done = st {
                                let email = Email {
                                    rcpt: trim(rcpt.as_str()).to_owned(),
                                    body: trim(data.as_str()).to_owned(),
                                };
                                proof {
                                    assert(whole.replies =~= replies@.map_values(
                                        |s: String| s@,
                                    ));
                                }
                                return SessionLog {
                                    replies,
                                    outcome: Ok(SMTPResult::Success { email: Some(email) }),
                                };
                            }
                            i = i + 1;
                            reason = "connection reset by peer".to_owned();
                            st = State::Failed;
                            proof {
                                let now = spec_session(
                                    v,
                                    i as int,
                                    st,
                                    rcpt@,
                                    data@,
                                    reason@,
                                    domain@,
                                );
                                assert(whole.replies =~= replies@.map_values(|s: String| s@)
                                    + now.replies);
                            }
                        },
                        PeerInput::Broken { detail } => {
                            i = i + 1;
                            reason = detail.clone();
                            st = State::Failed;
                            proof {
                                let now = spec_session(
                                    v,
                                    i as int,
                                    st,
                                    rcpt@,
                                    data@,
                                    reason@,
                                    domain@,
                                );
                                assert(whole.replies =~= replies@.map_values(|s: String| s@)
                                    + now.replies);
                            }
                        },
                        PeerInput::Line { text } => {
                            let d = classify_command(text, at_end);
                            let ghost gd = spec_dispatch(text@, st == State::Done);
                            match &d.reply {
                                Some(rep) => {
                                    let owned = rep.clone();
                                    replies.push(owned);
                                },
                                None => {},
                            }
                            if matches!(d.event, Event::HealthCheck) {
                                proof {
                                    assert(whole.replies =~= replies@.map_values(
                                        |s: String| s@,
                                    ));
                                }
                                return SessionLog {
                                    replies,
                                    outcome: Ok(SMTPResult::HealthCheck),
                                };
                            }
                            if d.consume_extra && i + 1 < inputs.len() {
                                i = i + 2;
                            } else {
                                i = i + 1;
                            }
                            match &d.event {
                                Event::Recipient { rcpt: arg } => {
                                    rcpt.append(arg.as_str());
                                },
                                Event::Fail { cmd } => {
                                    reason = cmd.clone();
                                },
                                _ => {},
                            }
                            st = st.next(&d.event);
                            proof {
                                let now = spec_session(
                                    v,
                                    i as int,
                                    st,
                                    rcpt@,
                                    data@,
                                    reason@,
                                    domain@,
                                );
                                assert(rest.outcome == now.outcome);
                                assert(whole.replies =~= replies@.map_values(|s: String| s@)
                                    + now.replies);
                            }
                        },
                    }
                }
            },
        }
    }
}

} // verus!
