use ktn::store::{DatabaseError, Entry, Feed, FeedStore, NewFeed};
use ktn::Config;

fn config() -> Config {
    Config {
        email_domain: "test.mail".to_string(),
        web_url: "https://ktn.test".to_string(),
    }
}

fn entry(reference: &str, title: &str, author: &str, content: &str, created_at: &str) -> Entry {
    Entry {
        id: 0,
        created_at: created_at.to_string(),
        reference: reference.to_string(),
        title: title.to_string(),
        author: author.to_string(),
        content: content.to_string(),
    }
}

fn store_with_feed(reference: &str, title: &str) -> FeedStore {
    let mut store = FeedStore::new();
    let mut feed = NewFeed {
        title: title.to_string(),
        reference: Some(reference.to_string()),
    };
    feed.save(&mut store, &config()).expect("feed creation failed");
    store
}

#[test]
fn create_feed_generates_a_well_shaped_reference() {
    let mut store = FeedStore::new();
    let mut feed = NewFeed { title: "My letters".to_string(), reference: None };
    let reference = feed.save(&mut store, &config()).expect("feed creation failed");
    assert_eq!(reference.len(), 16);
    assert!(reference
        .chars()
        .all(|c| c.is_ascii_lowercase() || c.is_ascii_digit()));
    assert_eq!(feed.reference.as_deref(), Some(reference.as_str()));
}

#[test]
fn create_feed_leaves_exactly_one_sentinel_entry() {
    let mut store = FeedStore::new();
    let mut feed = NewFeed { title: "My letters".to_string(), reference: None };
    let reference = feed.save(&mut store, &config()).expect("feed creation failed");
    assert_eq!(store.feeds.len(), 1);
    assert_eq!(store.entries.len(), 1);
    let sentinel = &store.entries[0];
    assert_eq!(sentinel.reference, reference);
    assert_eq!(sentinel.title, "My letters inbox created!");
    assert_eq!(sentinel.author, "Kill The Newsletter");
    assert!(sentinel.content.contains(&reference));
    assert!(sentinel.content.contains("test.mail"));
    assert!(sentinel.content.contains("https://ktn.test"));
}

#[test]
fn create_feed_refuses_a_taken_reference() {
    let mut store = store_with_feed("abcdef0123456789", "First");
    let mut again = NewFeed {
        title: "Second".to_string(),
        reference: Some("abcdef0123456789".to_string()),
    };
    assert_eq!(
        again.save(&mut store, &config()),
        Err(DatabaseError::CouldNotInsert)
    );
    assert_eq!(store.feeds.len(), 1);
    assert_eq!(store.entries.len(), 1);
}

#[test]
fn feed_exists_and_title_lookup() {
    let store = store_with_feed("abcdef0123456789", "Letters");
    assert!(Feed::feed_exists("abcdef0123456789", &store));
    assert!(!Feed::feed_exists("zzzzzzzzzzzzzzzz", &store));
    assert_eq!(
        Feed::get_title_given_reference("abcdef0123456789", &store).unwrap(),
        "Letters"
    );
    assert_eq!(
        Feed::get_title_given_reference("zzzzzzzzzzzzzzzz", &store),
        Err(DatabaseError::NotFound)
    );
}

#[test]
fn save_refuses_an_unknown_feed() {
    let mut store = store_with_feed("abcdef0123456789", "Letters");
    let row = entry("zzzzzzzzzzzzzzzz", "T", "A", "C", "2021-12-01 12:01:03");
    assert_eq!(row.save(&mut store), Err(DatabaseError::NotFound));
    assert_eq!(store.entries.len(), 1);
}

#[test]
fn save_keeps_the_fields_and_sanitizes_the_author() {
    let mut store = store_with_feed("abcdef0123456789", "Letters");
    let row = entry(
        "abcdef0123456789",
        "Hi",
        "Ada Lovelace <ada@lovelace.mail>",
        "hello",
        "2021-12-01 12:01:03",
    );
    row.save(&mut store).expect("save failed");
    let stored = store.entries.last().unwrap();
    assert_eq!(stored.title, "Hi");
    assert_eq!(stored.author, "Ada Lovelace");
    assert!(!stored.author.contains('<'));
    assert_eq!(stored.content, "hello");
    assert_eq!(stored.created_at, "2021-12-01 12:01:03");
}

#[test]
fn sanitized_author_never_keeps_an_angle_bracket() {
    let mut store = store_with_feed("abcdef0123456789", "Letters");
    let authors = ["<a@b>", "  X <a@b> <c@d>", "plain name", " spaced  <x>"];
    for author in authors {
        let row = entry("abcdef0123456789", "T", author, "C", "2021-12-01 12:01:03");
        row.save(&mut store).expect("save failed");
        assert!(!store.entries.last().unwrap().author.contains('<'));
    }
}

#[test]
fn find_by_reference_orders_newest_first() {
    let mut store = store_with_feed("abcdef0123456789", "Letters");
    let stamps = [
        "2021-12-01 12:00:00",
        "2023-01-15 08:30:00",
        "2019-06-30 23:59:59",
        "2023-01-15 08:29:59",
    ];
    for (i, stamp) in stamps.iter().enumerate() {
        let row = entry(
            "abcdef0123456789",
            &format!("title {}", i),
            "A",
            "C",
            stamp,
        );
        row.save(&mut store).expect("save failed");
    }
    let other = entry("other", "x", "A", "C", "2024-01-01 00:00:00");
    assert!(other.save(&mut store).is_err());

    let found = Entry::find_by_reference("abcdef0123456789", &store);
    // Four saved rows plus the sentinel.
    assert_eq!(found.len(), 5);
    for pair in found.windows(2) {
        assert!(pair[0].created_at >= pair[1].created_at);
    }
    assert_eq!(found.last().unwrap().created_at, "2019-06-30 23:59:59");
}

#[test]
fn find_by_reference_unknown_is_empty() {
    let store = store_with_feed("abcdef0123456789", "Letters");
    assert!(Entry::find_by_reference("zzzzzzzzzzzzzzzz", &store).is_empty());
}
