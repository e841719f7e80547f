//! Entry projection: from a successful session's envelope to a stored
//! entry.  The recipient address is extracted from the RCPT text, the
//! payload is parsed, the configured domain gates delivery, and the
//! target feed's reference is the local part of the parsed To address.

use vstd::prelude::*;
use vstd::string::StringExecFns;

use crate::mail::{
    body_of, date_header_of, date_stamp, email_match, find_email, from_of, mail_ok,
    parse_bytes_to_email, subject_of, to_of, ParsedEmail,
};
use crate::session::Email;
use crate::store::{sanitize_author_spec, Entry, FeedStore};
use crate::text::{before_char, ends_with, ends_with_spec, prefix_before};
use crate::time::{stamp_text, valid_sqlite_stamp, EPOCH_LIMIT, EPOCH_MIN};

verus! {

/// The address extracted from a piece of text: the pattern's first
/// match, or the fixed fallback when nothing matches.
pub open spec fn extracted_address(s: Seq<char>) -> Seq<char> {
    match email_match(s) {
        Option::Some(a) => a,
        Option::None => "invalid@email.address"@,
    }
}

/// The address the RCPT text names.
pub open spec fn rcpt_address(rcpt: Seq<char>) -> Seq<char> {
    extracted_address(rcpt)
}

/// The reference an entry is filed under: the local part — everything
/// before the `@` — of the address extracted from the parsed To header.
pub open spec fn projected_reference(body: Seq<char>) -> Seq<char> {
    prefix_before(extracted_address(to_of(body)), '@')
}

/// The domain gate: delivery proceeds when the rcpt-derived address or
/// the parsed To header ends with the configured domain.
pub open spec fn gate_passes(rcpt: Seq<char>, body: Seq<char>, domain: Seq<char>) -> bool {
    ends_with_spec(rcpt_address(rcpt), domain) || ends_with_spec(to_of(body), domain)
}

/// Domain check, stated on its own: when the rcpt-derived address and
/// the parsed To header both fail to end with the configured domain,
/// delivery is refused and no entry row is inserted.
pub proof fn lemma_domain_gate_blocks(rcpt: Seq<char>, body: Seq<char>, domain: Seq<char>)
    requires
        !ends_with_spec(rcpt_address(rcpt), domain),
        !ends_with_spec(to_of(body), domain),
    ensures
        !gate_passes(rcpt, body, domain),
{
}

fn extract_address(s: &str) -> (r: String)
    ensures
        r@ == extracted_address(s@),
{
    match find_email(s) {
        Some(m) => m,
        None => "invalid@email.address".to_owned(),
    }
}

/// Project a parsed message onto an entry.  `rcpt` is the session's
/// raw RCPT text.  The result is `Ok` exactly when the domain gate
/// passes; the entry's fields come verbatim from the parsed message,
/// and its reference is the local part of the parsed To address.
pub fn project_entry(parsed: ParsedEmail, rcpt: &str, domain: &str) -> (r: Result<Entry, String>)
    ensures
        r is Ok <==> (ends_with_spec(extracted_address(rcpt@), domain@) || ends_with_spec(
            parsed.to@,
            domain@,
        )),
        r matches Ok(e) ==> (e.reference@ == prefix_before(
            extracted_address(parsed.to@),
            '@',
        ) && e.title@ == parsed.subject@ && e.author@ == parsed.from@ && e.content@
            == parsed.body@ && e.created_at@ == parsed.date@),
{
    let recipient = extract_address(rcpt);
    let parsed_to = extract_address(parsed.to.as_str());
    let gate = ends_with(recipient.as_str(), domain) || ends_with(parsed.to.as_str(), domain);
    if !gate {
        let mut msg = "Email for ".to_owned();
        msg.append(recipient.as_str());
        msg.append(" received and discarded");
        return Err(msg);
    }
    let reference = before_char(parsed_to.as_str(), '@').to_owned();
    Ok(
        Entry {
            id: 0,
            created_at: parsed.date,
            reference,
            title: parsed.subject,
            author: parsed.from,
            content: parsed.body,
        },
    )
}

/// Derive an entry from a session's envelope.  The result is `Ok`
/// exactly when the envelope is non-empty, the payload parses, and the
/// domain gate passes; the entry's fields are then the parsed
/// message's, its reference is the local part of the parsed To
/// address, and its timestamp reflects the message's Date header
/// whenever that header carried a usable instant.
pub fn entry_from_email(envelope: &Email, domain: &str) -> (r: Result<Entry, String>)
    ensures
        r is Ok <==> (!(envelope.rcpt@.len() == 0 && envelope.body@.len() == 0) && mail_ok(
            envelope.body@,
        ) && gate_passes(envelope.rcpt@, envelope.body@, domain@)),
        r matches Ok(e) ==> (e.reference@ == projected_reference(envelope.body@) && e.title@
            == subject_of(envelope.body@) && e.author@ == from_of(envelope.body@) && e.content@
            == body_of(envelope.body@) && valid_sqlite_stamp(e.created_at@)),
        r matches Ok(e) ==> (match date_stamp(date_header_of(envelope.body@)) {
            Option::Some(t) => t != 0 && EPOCH_MIN <= t < EPOCH_LIMIT ==> e.created_at@
                == stamp_text(t),
            Option::None => true,
        }),
        envelope.rcpt@.len() == 0 && envelope.body@.len() == 0 ==> (r matches Err(m) && m@
            == "Empty envelope discarded"@),
{
    if envelope.rcpt.as_str().is_empty() && envelope.body.as_str().is_empty() {
        return Err("Empty envelope discarded".to_owned());
    }
    let parsed = match parse_bytes_to_email(envelope.body.as_str()) {
        Some(p) => p,
        None => {
            return Err("Could not parse the message".to_owned());
        },
    };
    project_entry(parsed, envelope.rcpt.as_str(), domain)
}

/// Handle a completed envelope end to end: project it and persist the
/// entry.  The store gains exactly one entry row — carrying the parsed
/// message's fields, with the author sanitised and the timestamp taken
/// from the message's Date header whenever it carried a usable
/// instant — when the envelope is non-empty, its payload parses, the
/// domain gate passes, and the referenced feed exists; in every other
/// case the store is untouched.
pub fn handle_envelope(envelope: &Email, store: &mut FeedStore, domain: &str) -> (r: Result<
    (),
    String,
>)
    requires
        old(store).wf(),
    ensures
        final(store).wf(),
        final(store).feeds == old(store).feeds,
        envelope.rcpt@.len() == 0 && envelope.body@.len() == 0 ==> (r matches Err(m) && m@
            == "Empty envelope discarded"@),
        ({
            let b = envelope.body@;
            let stored = !(envelope.rcpt@.len() == 0 && b.len() == 0) && mail_ok(b)
                && gate_passes(envelope.rcpt@, b, domain@) && old(store).spec_feed_exists(
                projected_reference(b),
            );
            &&& (r is Ok <==> stored)
            &&& (!stored ==> *final(store) == *old(store))
            &&& (stored ==> final(store).entries@.len() == old(store).entries@.len() + 1)
            &&& (stored ==> (forall|k: int|
                0 <= k < old(store).entries@.len() ==> final(store).entries@[k] == old(
                    store,
                ).entries@[k]))
            &&& (stored ==> final(store).entries@.last().reference@ == projected_reference(b))
            &&& (stored ==> final(store).entries@.last().title@ == subject_of(b))
            &&& (stored ==> final(store).entries@.last().author@ == sanitize_author_spec(
                from_of(b),
            ))
            &&& (stored ==> final(store).entries@.last().content@ == body_of(b))
            &&& (stored ==> valid_sqlite_stamp(final(store).entries@.last().created_at@))
            &&& (stored ==> (match date_stamp(date_header_of(b)) {
                Option::Some(t) => t != 0 && EPOCH_MIN <= t < EPOCH_LIMIT ==> final(store)
                    .entries@.last().created_at@ == stamp_text(t),
                Option::None => true,
            }))
        }),
{
    let entry = match entry_from_email(envelope, domain) {
        Ok(e) => e,
        Err(msg) => {
            return Err(msg);
        },
    };
    match entry.save(store) {
        Ok(u) => Ok(u),
        Err(_) => Err("Tried saving an entry for a feed which does not exist".to_owned()),
    }
}

} // verus!
