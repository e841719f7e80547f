use ktn::time::{rfc3339, rfc3339_to_sqlite, sqlite_datetime_to_rfc3339, Epoch};

#[test]
fn sqlite_datetime_to_rfc3339_valid_date() {
    let date_in = "2021-12-01 12:01:03";
    let date_out = "2021-12-01T12:01:03+00:00";

    assert_eq!(
        sqlite_datetime_to_rfc3339(&date_in),
        date_out,
        "A valid date wasn't parsed properly"
    );
}

#[test]
fn sqlite_datetime_to_rfc3339_valid_date_string() {
    let date_in: String = String::from("2021-12-01 12:01:03");
    let date_out = "2021-12-01T12:01:03+00:00";

    assert_eq!(
        sqlite_datetime_to_rfc3339(&date_in),
        date_out,
        "A valid date wasn't parsed properly"
    );
}

#[test]
fn rfc3339_rejects_wrong_month() {
    assert!(rfc3339("2021-13-01 12:01:03").is_none());
}

#[test]
fn rfc3339_rejects_wrong_day() {
    assert!(rfc3339("2021-02-29 00:00:00").is_none());
    assert!(rfc3339("2020-02-29 00:00:00").is_some());
}

#[test]
fn rfc3339_rejects_non_sqlite_format() {
    assert!(rfc3339("2021-12-01T12:01:03Z").is_none());
}

#[test]
fn rfc3339_accepts_valid() {
    assert_eq!(
        rfc3339("1999-01-31 23:59:59").unwrap(),
        "1999-01-31T23:59:59+00:00"
    );
}

#[test]
fn round_trip_date() {
    let stamps = [
        "2021-12-01 12:01:03",
        "2020-02-29 00:00:00",
        "1970-01-01 00:00:00",
        "9999-12-31 23:59:59",
    ];
    for stamp in stamps {
        let rendered = sqlite_datetime_to_rfc3339(stamp);
        let back = rfc3339_to_sqlite(&rendered).expect("round trip failed to parse");
        assert_eq!(back, stamp);
    }
}

#[test]
fn rfc3339_to_sqlite_rejects_garbage() {
    assert!(rfc3339_to_sqlite("not a date").is_none());
    assert!(rfc3339_to_sqlite("2021-13-01T12:01:03+00:00").is_none());
}

#[test]
fn epoch_renders_sqlite_form() {
    // 2021-12-01 12:01:03 UTC
    let e = Epoch::from_timestamp(1638360063);
    assert_eq!(e.to_string(), "2021-12-01 12:01:03");
}

#[test]
fn epoch_keeps_pre_epoch_instants() {
    let e = Epoch::from_timestamp(-3600);
    assert_eq!(e.to_string(), "1969-12-31 23:00:00");
}

#[test]
fn epoch_zero_falls_back_to_now() {
    let e = Epoch::from_timestamp(0);
    // The current instant, not the epoch origin.
    assert_ne!(e.to_string(), "1970-01-01 00:00:00");
}
