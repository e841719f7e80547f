use ktn::deliver::{entry_from_email, handle_envelope};
use ktn::http::{feed_xml_document, route_feed, FeedRoute, KtnError};
use ktn::mail::parse_bytes_to_email;
use ktn::session::Email;
use ktn::store::{FeedStore, NewFeed};
use ktn::Config;

fn config() -> Config {
    Config {
        email_domain: "test.mail".to_string(),
        web_url: "https://ktn.test".to_string(),
    }
}

fn store_with_feed(reference: &str) -> FeedStore {
    let mut store = FeedStore::new();
    let mut feed = NewFeed {
        title: "Letters".to_string(),
        reference: Some(reference.to_string()),
    };
    feed.save(&mut store, &config()).expect("feed creation failed");
    store
}

fn email(rcpt: &str, body: &str) -> Email {
    Email { rcpt: rcpt.to_string(), body: body.to_string() }
}

#[test]
fn parse_fills_header_defaults() {
    let parsed = parse_bytes_to_email("\r\njust a body\r\n").expect("parse failed");
    assert_eq!(parsed.subject, "No subject");
    assert_eq!(parsed.to, "unknown@recipient.mail");
    assert_eq!(parsed.from, "unknown@sender.mail");
    assert_eq!(parsed.body, "just a body\r\n");
}

#[test]
fn parse_normalizes_the_date_header() {
    let parsed = parse_bytes_to_email(
        "Subject: x\r\nDate: Wed, 01 Dec 2021 12:01:03 +0000\r\n\r\nbody",
    )
    .expect("parse failed");
    assert_eq!(parsed.date, "2021-12-01 12:01:03");
}

#[test]
fn parse_keeps_a_pre_epoch_date() {
    let parsed = parse_bytes_to_email(
        "Subject: x\r\nDate: Thu, 01 Jan 1970 00:00:00 +0100\r\n\r\nbody",
    )
    .expect("parse failed");
    assert_eq!(parsed.date, "1969-12-31 23:00:00");
}

#[test]
fn parse_substitutes_now_for_a_bad_date() {
    let parsed =
        parse_bytes_to_email("Subject: x\r\nDate: not a date\r\n\r\nbody").expect("parse failed");
    assert_eq!(parsed.date.len(), 19);
    assert_ne!(parsed.date, "1970-01-01 00:00:00");
}

#[test]
fn body_preference_concatenates_html_parts() {
    let raw = "Subject: multi\r\nMIME-Version: 1.0\r\nContent-Type: multipart/alternative; boundary=\"sep\"\r\n\r\n--sep\r\nContent-Type: text/plain\r\n\r\nplain text\r\n--sep\r\nContent-Type: text/html\r\n\r\n<p>one</p>\r\n--sep\r\nContent-Type: text/html\r\n\r\n<p>two</p>\r\n--sep--\r\n";
    let parsed = parse_bytes_to_email(raw).expect("parse failed");
    assert_eq!(parsed.body, "<p>one</p><p>two</p>");
}

#[test]
fn body_falls_back_to_first_part_without_html() {
    let raw = "Subject: multi\r\nMIME-Version: 1.0\r\nContent-Type: multipart/alternative; boundary=\"sep\"\r\n\r\n--sep\r\nContent-Type: text/plain\r\n\r\nfirst part\r\n--sep\r\nContent-Type: text/enriched\r\n\r\nsecond part\r\n--sep--\r\n";
    let parsed = parse_bytes_to_email(raw).expect("parse failed");
    assert_eq!(parsed.body, "first part");
}

#[test]
fn projection_extracts_the_reference_from_the_parsed_to() {
    let envelope = email(
        "RCPT TO:<abcdef0123456789@test.mail>",
        "Subject: Hi\r\nFrom: A <a@b>\r\nTo: abcdef0123456789@test.mail\r\n\r\nhello",
    );
    let entry = entry_from_email(&envelope, "test.mail").expect("projection failed");
    assert_eq!(entry.reference, "abcdef0123456789");
    assert_eq!(entry.title, "Hi");
    assert_eq!(entry.author, "A <a@b>");
    assert_eq!(entry.content, "hello");
}

#[test]
fn address_is_extracted_from_a_display_name() {
    let envelope = email(
        "RCPT TO:<abcdef0123456789@test.mail>",
        "Subject: Hi\r\nFrom: A <a@b>\r\nTo: Inbox <abcdef0123456789@test.mail>\r\n\r\nhello",
    );
    let entry = entry_from_email(&envelope, "test.mail").expect("projection failed");
    assert_eq!(entry.reference, "abcdef0123456789");
}

#[test]
fn empty_envelope_is_discarded() {
    let envelope = email("", "");
    assert_eq!(
        entry_from_email(&envelope, "test.mail").unwrap_err(),
        "Empty envelope discarded"
    );
}

#[test]
fn happy_path_stores_one_entry() {
    let mut store = store_with_feed("abcdef0123456789");
    let envelope = email(
        "RCPT TO:<abcdef0123456789@test.mail>",
        "Subject: Hi\r\nFrom: A <a@b>\r\nTo: abcdef0123456789@test.mail\r\n\r\nhello",
    );
    handle_envelope(&envelope, &mut store, "test.mail").expect("delivery failed");
    assert_eq!(store.entries.len(), 2);
    let stored = store.entries.last().unwrap();
    assert_eq!(stored.reference, "abcdef0123456789");
    assert_eq!(stored.title, "Hi");
    assert_eq!(stored.author, "A");
    assert_eq!(stored.content, "hello");
}

#[test]
fn wrong_domain_inserts_no_row() {
    let mut store = store_with_feed("abcdef0123456789");
    let envelope = email(
        "RCPT TO:<abcdef0123456789@other.tld>",
        "Subject: Hi\r\nFrom: A <a@b>\r\nTo: abcdef0123456789@other.tld\r\n\r\nhello",
    );
    assert!(handle_envelope(&envelope, &mut store, "test.mail").is_err());
    assert_eq!(store.entries.len(), 1);
}

#[test]
fn unknown_feed_inserts_no_row() {
    let mut store = store_with_feed("abcdef0123456789");
    let envelope = email(
        "RCPT TO:<zzzzzzzzzzzzzzzz@test.mail>",
        "Subject: Hi\r\nFrom: A <a@b>\r\nTo: zzzzzzzzzzzzzzzz@test.mail\r\n\r\nhello",
    );
    assert!(handle_envelope(&envelope, &mut store, "test.mail").is_err());
    assert_eq!(store.entries.len(), 1);
}

#[test]
fn rcpt_domain_alone_admits_delivery() {
    let mut store = store_with_feed("abcdef0123456789");
    let envelope = email(
        "RCPT TO:<someone@test.mail>",
        "Subject: Hi\r\nFrom: A <a@b>\r\nTo: abcdef0123456789@elsewhere.tld\r\n\r\nhello",
    );
    handle_envelope(&envelope, &mut store, "test.mail").expect("delivery failed");
    assert_eq!(store.entries.last().unwrap().reference, "abcdef0123456789");
}

#[test]
fn errors_map_to_status_and_body() {
    assert_eq!(KtnError::NotFoundError.status_code(), 404);
    assert_eq!(KtnError::NotFoundError.message(), "Not Found");
    assert_eq!(KtnError::InternalServerError.status_code(), 500);
    assert_eq!(KtnError::InternalServerError.message(), "Undertermined error");
}

#[test]
fn feed_routes_by_extension() {
    assert_eq!(route_feed("abc.html"), FeedRoute::Html);
    assert_eq!(route_feed("abc.xml"), FeedRoute::Xml);
    assert_eq!(route_feed("abc"), FeedRoute::Unknown);
}

#[test]
fn feed_xml_renders_entries_with_rfc3339_dates() {
    let mut store = store_with_feed("abcdef0123456789");
    let envelope = email(
        "RCPT TO:<abcdef0123456789@test.mail>",
        "Subject: Hi\r\nFrom: A <a@b>\r\nTo: abcdef0123456789@test.mail\r\nDate: Wed, 01 Dec 2021 12:01:03 +0000\r\n\r\nhello",
    );
    handle_envelope(&envelope, &mut store, "test.mail").expect("delivery failed");
    let doc = feed_xml_document("abcdef0123456789.xml", &store, &config()).expect("not found");
    assert!(doc.contains("<title>Letters</title>"));
    assert!(doc.contains("<published>2021-12-01T12:01:03+00:00</published>"));
    assert!(doc.contains("<content type=\"html\">hello</content>"));
    assert!(doc.contains("https://ktn.test/feeds/abcdef0123456789.xml"));
}

#[test]
fn feed_html_data_names_the_feed() {
    let store = store_with_feed("abcdef0123456789");
    let data = ktn::http::feed_html_data("abcdef0123456789.html", &store, &config())
        .expect("not found");
    assert_eq!(data.reference, "abcdef0123456789");
    assert_eq!(data.title, "Letters");
    assert_eq!(data.email_domain, "test.mail");
    assert_eq!(data.web_url, "https://ktn.test");
    assert_eq!(data.entry.reference, "abcdef0123456789");
}

#[test]
fn feed_html_data_unknown_reference_is_not_found() {
    let store = store_with_feed("abcdef0123456789");
    assert!(ktn::http::feed_html_data("zzzzzzzzzzzzzzzz.html", &store, &config()).is_err());
}

#[test]
fn atom_template_renders_its_fields() {
    let store = store_with_feed("abcdef0123456789");
    let template = ktn::http::FeedAtomTemplate {
        web_url: "https://ktn.test".to_string(),
        email_domain: "test.mail".to_string(),
        feed_title: "Letters".to_string(),
        feed_reference: "abcdef0123456789".to_string(),
        entries: ktn::store::Entry::find_by_reference("abcdef0123456789", &store),
    };
    let doc = template.render();
    assert!(doc.starts_with("<?xml version=\"1.0\" encoding=\"utf-8\"?>"));
    assert!(doc.contains("<title>Letters</title>"));
    assert!(doc.contains("Letters inbox created!"));
    assert!(doc.ends_with("</feed>\n"));
}

#[test]
fn feed_xml_unknown_reference_is_not_found() {
    let store = store_with_feed("abcdef0123456789");
    assert_eq!(
        feed_xml_document("zzzzzzzzzzzzzzzz.xml", &store, &config()),
        Err(KtnError::NotFoundError)
    );
}
