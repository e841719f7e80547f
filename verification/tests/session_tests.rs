use ktn::fsm::{Event, State};
use ktn::session::{run_session, PeerInput, SMTPResult};

fn line(text: &str) -> PeerInput {
    PeerInput::Line { text: text.to_string() }
}

fn success_email(log: ktn::session::SessionLog) -> ktn::session::Email {
    match log.outcome {
        Ok(SMTPResult::Success { email: Some(e) }) => e,
        _ => panic!("expected a successful session"),
    }
}

#[test]
fn next_follows_the_transition_table() {
    assert_eq!(State::Connected.next(&Event::Greeting), State::Greeted);
    assert_eq!(State::Greeted.next(&Event::MailFrom), State::MailFrom);
    assert_eq!(
        State::MailFrom.next(&Event::Recipient { rcpt: "RCPT TO:<a@b>".to_string() }),
        State::RcptTo
    );
    assert_eq!(State::RcptTo.next(&Event::Data), State::Data);
    assert_eq!(
        State::Data.next(&Event::EndOfFile { buf: "x".to_string() }),
        State::Done
    );
}

#[test]
fn next_keeps_state_on_neutral_events() {
    assert_eq!(State::Greeted.next(&Event::NoTls), State::Greeted);
    assert_eq!(State::RcptTo.next(&Event::NoOp), State::RcptTo);
    assert_eq!(State::Connected.next(&Event::HealthCheck), State::Connected);
}

#[test]
fn next_fails_out_of_order_pairs() {
    assert_eq!(State::Connected.next(&Event::Data), State::Failed);
    assert_eq!(State::Greeted.next(&Event::Data), State::Failed);
    assert_eq!(State::MailFrom.next(&Event::MailFrom), State::Failed);
    assert_eq!(State::Done.next(&Event::MailFrom), State::Failed);
    assert_eq!(
        State::Greeted.next(&Event::Fail { cmd: "XYZZY".to_string() }),
        State::Failed
    );
    assert_eq!(State::Data.next(&Event::Quit), State::Quit);
}

#[test]
fn happy_path_dialogue() {
    let inputs = vec![
        line("EHLO x\r\n"),
        line("MAIL FROM:<a@b>\r\n"),
        line("RCPT TO:<abcdef0123456789@test.mail>\r\n"),
        line("DATA\r\n"),
        line("Subject: Hi\r\nFrom: A <a@b>\r\nTo: abcdef0123456789@test.mail\r\n\r\nhello\r\n"),
        line(".\r\n"),
        line("QUIT\r\n"),
    ];
    let log = run_session(&inputs, "test.mail");
    let expected = vec![
        "220 test.mail",
        "250 OK",
        "250 OK",
        "250 OK",
        "354 End data with <CR><LF>.<CR><LF>",
        "250 OK",
        "250 OK",
    ];
    assert_eq!(log.replies, expected);
    let email = success_email(log);
    assert_eq!(email.rcpt, "RCPT TO:<abcdef0123456789@test.mail>");
    assert_eq!(
        email.body,
        "Subject: Hi\r\nFrom: A <a@b>\r\nTo: abcdef0123456789@test.mail\r\n\r\nhello"
    );
}

#[test]
fn data_buffer_is_verbatim() {
    let inputs = vec![
        line("EHLO x\r\n"),
        line("MAIL FROM:<a@b>\r\n"),
        line("RCPT TO:<r@test.mail>\r\n"),
        line("DATA\r\n"),
        line("first line\r\n"),
        line("..dots stay\r\n"),
        line("\r\n"),
        line("last\r\n"),
        line(".\r\n"),
        line("QUIT\r\n"),
    ];
    let log = run_session(&inputs, "test.mail");
    let email = success_email(log);
    assert_eq!(email.body, "first line\r\n..dots stay\r\n\r\nlast");
}

#[test]
fn healthcheck_close_without_command() {
    let inputs: Vec<PeerInput> = vec![PeerInput::Reset];
    let log = run_session(&inputs, "test.mail");
    assert_eq!(log.replies, vec!["220 test.mail"]);
    assert!(matches!(log.outcome, Ok(SMTPResult::HealthCheck)));
}

#[test]
fn healthcheck_empty_line() {
    let inputs = vec![line("\r\n")];
    let log = run_session(&inputs, "test.mail");
    assert_eq!(
        log.replies,
        vec!["220 test.mail", "500 Command Unrecognized"]
    );
    assert!(matches!(log.outcome, Ok(SMTPResult::HealthCheck)));
}

#[test]
fn starttls_is_refused_and_session_continues() {
    let inputs = vec![
        line("EHLO x\r\n"),
        line("STARTTLS\r\n"),
        line("ignored follow-up\r\n"),
        line("MAIL FROM:<a@b>\r\n"),
        line("QUIT\r\n"),
    ];
    let log = run_session(&inputs, "test.mail");
    let expected = vec![
        "220 test.mail",
        "250 OK",
        "454 TLS Not available",
        "250 OK",
        "250 OK",
        "250 OK",
    ];
    assert_eq!(log.replies, expected);
    assert!(matches!(log.outcome, Ok(SMTPResult::Success { .. })));
}

#[test]
fn out_of_order_data_is_refused() {
    let inputs = vec![line("EHLO x\r\n"), line("DATA\r\n")];
    let log = run_session(&inputs, "test.mail");
    assert_eq!(
        log.replies,
        vec!["220 test.mail", "250 OK", "502 Not Implemented"]
    );
    assert!(log.outcome.is_err());
}

#[test]
fn unknown_verb_fails_with_its_name() {
    let inputs = vec![line("EHLO x\r\n"), line("XYZZY something\r\n")];
    let log = run_session(&inputs, "test.mail");
    assert_eq!(
        log.replies,
        vec!["220 test.mail", "250 OK", "502 Not Implemented"]
    );
    assert_eq!(log.outcome.unwrap_err(), "XYZZY");
}

#[test]
fn unknown_verb_reason_is_uppercased() {
    let inputs = vec![line("EHLO x\r\n"), line("xyzzy something\r\n")];
    let log = run_session(&inputs, "test.mail");
    assert_eq!(log.outcome.unwrap_err(), "XYZZY");
}

#[test]
fn close_after_data_sentinel_concludes_successfully() {
    let inputs = vec![
        line("EHLO x\r\n"),
        line("MAIL FROM:<a@b>\r\n"),
        line("RCPT TO:<r@test.mail>\r\n"),
        line("DATA\r\n"),
        line("hello\r\n"),
        line(".\r\n"),
    ];
    let log = run_session(&inputs, "test.mail");
    let expected = vec![
        "220 test.mail",
        "250 OK",
        "250 OK",
        "250 OK",
        "354 End data with <CR><LF>.<CR><LF>",
        "250 OK",
    ];
    assert_eq!(log.replies, expected);
    let email = success_email(log);
    assert_eq!(email.rcpt, "RCPT TO:<r@test.mail>");
    assert_eq!(email.body, "hello");
}

#[test]
fn reset_after_data_sentinel_concludes_successfully() {
    let inputs = vec![
        line("EHLO x\r\n"),
        line("MAIL FROM:<a@b>\r\n"),
        line("RCPT TO:<r@test.mail>\r\n"),
        line("DATA\r\n"),
        line("hello\r\n"),
        line(".\r\n"),
        PeerInput::Reset,
    ];
    let log = run_session(&inputs, "test.mail");
    let email = success_email(log);
    assert_eq!(email.body, "hello");
}

#[test]
fn verbs_match_case_insensitively() {
    let inputs = vec![line("ehlo x\r\n"), line("rset\r\n")];
    let log = run_session(&inputs, "test.mail");
    assert_eq!(log.replies, vec!["220 test.mail", "250 OK", "250 OK"]);
    assert!(matches!(log.outcome, Ok(SMTPResult::Success { .. })));
}

#[test]
fn noop_is_acknowledged_inline() {
    let inputs = vec![line("NOOP\r\n"), line("EHLO x\r\n"), line("QUIT\r\n")];
    let log = run_session(&inputs, "test.mail");
    assert_eq!(
        log.replies,
        vec!["220 test.mail", "250 OK", "220 test.mail", "250 OK", "250 OK"]
    );
}

#[test]
fn broken_transport_fails_the_session() {
    let inputs = vec![
        line("EHLO x\r\n"),
        PeerInput::Broken { detail: "read timed out".to_string() },
    ];
    let log = run_session(&inputs, "test.mail");
    assert_eq!(
        log.replies,
        vec!["220 test.mail", "250 OK", "502 Not Implemented"]
    );
    assert_eq!(log.outcome.unwrap_err(), "read timed out");
}
