//! Turning a DATA payload into a structured message: header extraction
//! with defaults, body selection among MIME subparts, and date
//! normalisation.  The MIME grammar itself is read by the mailparse
//! crate behind trusted boundaries; every rule applied to what it hands
//! back is verified.

use vstd::prelude::*;

use mailparse::MailHeaderMap;

use crate::text::starts_with_spec;
use crate::text::starts_with;
use crate::time::{stamp_text, valid_sqlite_stamp, Epoch, EPOCH_LIMIT, EPOCH_MIN};

verus! {

/// The structured message derived from a DATA payload.
pub struct ParsedEmail {
    pub to: String,
    pub from: String,
    pub subject: String,
    pub date: String,
    pub body: String,
}

/// The plain image of a parsed MIME message: the four headers of
/// interest, the MIME type and decoded body of each subpart, and the
/// decoded top-level body.
pub struct RawMail {
    pub subject: Option<String>,
    pub to: Option<String>,
    pub from: Option<String>,
    pub date: Option<String>,
    pub part_kinds: Vec<String>,
    pub part_bodies: Vec<String>,
    pub top_body: String,
}

pub open spec fn opt_str_view(o: Option<String>) -> Option<Seq<char>> {
    match o {
        Option::Some(s) => Option::Some(s@),
        Option::None => Option::None,
    }
}

/// Whether mailparse reads this payload without error: parsing
/// succeeds and every body decodes.  A function of the payload alone.
pub uninterp spec fn mail_ok(t: Seq<char>) -> bool;

/// The first value mailparse returns for the named header, a function
/// of the payload and the header name alone.
pub uninterp spec fn mail_header(t: Seq<char>, name: Seq<char>) -> Option<Seq<char>>;

/// The MIME types of the message's subparts, in order.
pub uninterp spec fn mail_part_kinds(t: Seq<char>) -> Seq<Seq<char>>;

/// The decoded bodies of the message's subparts, in order.
pub uninterp spec fn mail_part_bodies(t: Seq<char>) -> Seq<Seq<char>>;

/// The decoded top-level body of the message.
pub uninterp spec fn mail_top_body(t: Seq<char>) -> Seq<char>;

/// Relies on mailparse: `parse_mail` reads the payload,
/// `MailHeaderMap::get_first_value` returns the first value of a named
/// header, `ParsedMail::get_body` decodes a body, and `ctype.mimetype`
/// carries a subpart's MIME type.  All of them are functions of the
/// payload alone; the body only maps their results onto plain values.
#[verifier::external_body]
fn read_mail(text: &str) -> (r: Option<RawMail>)
    ensures
        r is Some <==> mail_ok(text@),
        r matches Some(m) ==> opt_str_view(m.subject) == mail_header(text@, "Subject"@),
        r matches Some(m) ==> opt_str_view(m.to) == mail_header(text@, "To"@),
        r matches Some(m) ==> opt_str_view(m.from) == mail_header(text@, "From"@),
        r matches Some(m) ==> opt_str_view(m.date) == mail_header(text@, "Date"@),
        r matches Some(m) ==> m.part_kinds@.map_values(|s: String| s@) == mail_part_kinds(text@),
        r matches Some(m) ==> m.part_bodies@.map_values(|s: String| s@) == mail_part_bodies(
            text@,
        ),
        r matches Some(m) ==> m.part_kinds@.len() == m.part_bodies@.len(),
        r matches Some(m) ==> m.top_body@ == mail_top_body(text@),
{
    let m = mailparse::parse_mail(text.as_bytes()).ok()?;
    let (mut kinds, mut bodies): (Vec<String>, Vec<String>) = (Vec::new(), Vec::new());
    for p in &m.subparts {
        kinds.push(p.ctype.mimetype.clone());
        bodies.push(p.get_body().ok()?);
    }
    Some(RawMail {
        subject: m.headers.get_first_value("Subject"),
        to: m.headers.get_first_value("To"),
        from: m.headers.get_first_value("From"),
        date: m.headers.get_first_value("Date"),
        part_kinds: kinds,
        part_bodies: bodies,
        top_body: m.get_body().ok()?,
    })
}

/// The epoch second mailparse reads from a date header, a function of
/// the header text alone.
pub uninterp spec fn date_stamp(s: Seq<char>) -> Option<i64>;

/// Relies on mailparse's `dateparse`: the conversion of a date header
/// into an epoch second depends on the header text alone.
#[verifier::external_body]
fn parse_date(s: &str) -> (r: Option<i64>)
    ensures
        r == date_stamp(s@),
{
    mailparse::dateparse(s).ok()
}

/// The first address-shaped substring the fixed pattern finds, a
/// function of the searched text alone.
pub uninterp spec fn email_match(s: Seq<char>) -> Option<Seq<char>>;

/// Relies on the regex crate: `Regex::find` with the fixed address
/// pattern returns the leftmost match, determined by the searched text
/// alone.  The pattern is a constant, so compiling it never fails.
#[verifier::external_body]
pub(crate) fn find_email(s: &str) -> (r: Option<String>)
    ensures
        opt_str_view(r) == email_match(s@),
{
    let re = regex::Regex::new(
        r#"(?:[a-z0-9!#$%&'*+/=?^_`{|}~-]+(?:\.[a-z0-9!#$%&'*+/=?^_`{|}~-]+)*|"(?:[\x01-\x08\x0b\x0c\x0e-\x1f\x21\x23-\x5b\x5d-\x7f]|\\[\x01-\x09\x0b\x0c\x0e-\x7f])*")@(?:(?:[a-z0-9](?:[a-z0-9-]*[a-z0-9])?\.)+[a-z0-9](?:[a-z0-9-]*[a-z0-9])?|\[(?:(?:25[0-5]|2[0-4][0-9]|[01]?[0-9][0-9]?)\.){3}(?:25[0-5]|2[0-4][0-9]|[01]?[0-9][0-9]?|[a-z0-9-]*[a-z0-9]:(?:[\x01-\x08\x0b\x0c\x0e-\x1f\x21-\x5a\x53-\x7f]|\\[\x01-\x09\x0b\x0c\x0e-\x7f])+)\])"#,
    ).ok()?;
    Some(re.find(s)?.as_str().to_owned())
}

/// A subpart kind that selects its body for the entry content.
pub open spec fn is_html_kind(kind: Seq<char>) -> bool {
    starts_with_spec(kind, "text/html"@)
}

/// The concatenation of the bodies of the `text/html` subparts from
/// index `i` on.
pub open spec fn concat_html(kinds: Seq<Seq<char>>, bodies: Seq<Seq<char>>, i: int) -> Seq<char>
    decreases kinds.len() - i,
{
    if i < 0 || i >= kinds.len() || i >= bodies.len() {
        Seq::<char>::empty()
    } else {
        (if is_html_kind(kinds[i]) {
            bodies[i]
        } else {
            Seq::<char>::empty()
        }) + concat_html(kinds, bodies, i + 1)
    }
}

/// The body a message contributes to its entry: the single-part body
/// when there are no subparts; otherwise the concatenation of every
/// `text/html` subpart's body; or the first subpart's body when no
/// subpart is `text/html`.
pub open spec fn chosen_body(
    kinds: Seq<Seq<char>>,
    bodies: Seq<Seq<char>>,
    top: Seq<char>,
) -> Seq<char> {
    if kinds.len() == 0 {
        top
    } else if exists|i: int| 0 <= i < kinds.len() && is_html_kind(kinds[i]) {
        concat_html(kinds, bodies, 0)
    } else {
        bodies[0]
    }
}

/// Body preference, stated on its own: a multipart message with at
/// least one `text/html` subpart contributes exactly the concatenation
/// of its `text/html` subparts' bodies.
pub proof fn lemma_body_preference(kinds: Seq<Seq<char>>, bodies: Seq<Seq<char>>, top: Seq<char>)
    requires
        kinds.len() > 0,
        exists|i: int| 0 <= i < kinds.len() && is_html_kind(kinds[i]),
    ensures
        chosen_body(kinds, bodies, top) == concat_html(kinds, bodies, 0),
{
}

fn select_body(kinds: &Vec<String>, bodies: &Vec<String>, top: &String) -> (r: String)
    requires
        kinds@.len() == bodies@.len(),
    ensures
        r@ == chosen_body(
            kinds@.map_values(|s: String| s@),
            bodies@.map_values(|s: String| s@),
            top@,
        ),
{
    let ghost gk = kinds@.map_values(|s: String| s@);
    let ghost gb = bodies@.map_values(|s: String| s@);
    if kinds.len() == 0 {
        return top.clone();
    }
    let mut out = String::new();
    let mut found = false;
    let mut i: usize = 0;
    while i < kinds.len()
        invariant
            0 <= i <= kinds@.len(),
            kinds@.len() == bodies@.len(),
            gk == kinds@.map_values(|s: String| s@),
            gb == bodies@.map_values(|s: String| s@),
            concat_html(gk, gb, 0) == out@ + concat_html(gk, gb, i as int),
            found == exists|j: int| 0 <= j < i && is_html_kind(gk[j]),
        decreases kinds@.len() - i,
    {
        let ghost out0 = out@;
        if starts_with(kinds[i].as_str(), "text/html") {
            vstd::string::StringExecFns::append(&mut out, bodies[i].as_str());
            found = true;
            proof {
                assert(concat_html(gk, gb, i as int) == gb[i as int] + concat_html(
                    gk,
                    gb,
                    i + 1,
                ));
                assert((out0 + gb[i as int]) + concat_html(gk, gb, i + 1) =~= out0 + (
                gb[i as int] + concat_html(gk, gb, i + 1)));
            }
        } else {
            proof {
                assert(concat_html(gk, gb, i as int) == Seq::<char>::empty() + concat_html(
                    gk,
                    gb,
                    i + 1,
                ));
                assert(out0 + (Seq::<char>::empty() + concat_html(gk, gb, i + 1)) =~= out0
                    + concat_html(gk, gb, i + 1));
            }
        }
        i = i + 1;
    }
    proof {
        assert(out@ + concat_html(gk, gb, i as int) =~= out@);
    }
    if found {
        out
    } else {
        bodies[0].clone()
    }
}

/// The message's subject, defaulted when the header is missing.
pub open spec fn subject_of(t: Seq<char>) -> Seq<char> {
    match mail_header(t, "Subject"@) {
        Option::Some(v) => v,
        Option::None => "No subject"@,
    }
}

/// The message's To header, defaulted when missing.
pub open spec fn to_of(t: Seq<char>) -> Seq<char> {
    match mail_header(t, "To"@) {
        Option::Some(v) => v,
        Option::None => "unknown@recipient.mail"@,
    }
}

/// The message's From header, defaulted when missing.
pub open spec fn from_of(t: Seq<char>) -> Seq<char> {
    match mail_header(t, "From"@) {
        Option::Some(v) => v,
        Option::None => "unknown@sender.mail"@,
    }
}

/// The body the message contributes to its entry.
pub open spec fn body_of(t: Seq<char>) -> Seq<char> {
    chosen_body(mail_part_kinds(t), mail_part_bodies(t), mail_top_body(t))
}

/// The message's Date header, empty when missing.
pub open spec fn date_header_of(t: Seq<char>) -> Seq<char> {
    match mail_header(t, "Date"@) {
        Option::Some(v) => v,
        Option::None => Seq::<char>::empty(),
    }
}

/// Parse a DATA payload into a structured message.  Succeeds exactly
/// when mailparse reads the payload; missing headers fall back to fixed
/// defaults, the body follows the `text/html` preference, and the date
/// header is normalised to the store's timestamp form, substituting the
/// current instant when it is absent, unreadable, or degenerate.
pub fn parse_bytes_to_email(text: &str) -> (r: Option<ParsedEmail>)
    ensures
        r is Some <==> mail_ok(text@),
        r matches Some(p) ==> p.subject@ == subject_of(text@),
        r matches Some(p) ==> p.to@ == to_of(text@),
        r matches Some(p) ==> p.from@ == from_of(text@),
        r matches Some(p) ==> p.body@ == body_of(text@),
        r matches Some(p) ==> valid_sqlite_stamp(p.date@),
        r matches Some(p) ==> (match date_stamp(date_header_of(text@)) {
            Option::Some(t) => t != 0 && EPOCH_MIN <= t < EPOCH_LIMIT ==> p.date@ == stamp_text(
                t,
            ),
            Option::None => true,
        }),
{
    let m = match read_mail(text) {
        Some(m) => m,
        None => {
            return None;
        },
    };
    let subject = match m.subject {
        Some(s) => s,
        None => "No subject".to_owned(),
    };
    let to = match m.to {
        Some(s) => s,
        None => "unknown@recipient.mail".to_owned(),
    };
    let from = match m.from {
        Some(s) => s,
        None => "unknown@sender.mail".to_owned(),
    };
    let date_header = match m.date {
        Some(s) => s,
        None => "".to_owned(),
    };
    proof {
        reveal_strlit("");
        assert(""@ =~= Seq::<char>::empty());
    }
    let epoch = match parse_date(date_header.as_str()) {
        Some(t) => Epoch::from_timestamp(t),
        None => Epoch::now(),
    };
    let date = epoch.to_string();
    let body = select_body(&m.part_kinds, &m.part_bodies, &m.top_body);
    Some(ParsedEmail { to, from, subject, date, body })
}

} // verus!
