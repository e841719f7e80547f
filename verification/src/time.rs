//! Timestamps: epoch seconds, the store's `YYYY-MM-DD HH:MM:SS` form,
//! and the RFC-3339 form the Atom rendering uses.  The conversion
//! between the two textual forms is purely positional and is verified;
//! only rendering an epoch as calendar text and reading the clock rely
//! on an outside library.

use vstd::prelude::*;
use vstd::string::StrSliceExecFns;
use vstd::string::StringExecFns;

verus! {

/// The first epoch second of the year 10000, where four-digit years
/// end.
pub const EPOCH_LIMIT: i64 = 253402300800;

/// The first epoch second of the year 0, where four-digit years begin.
pub const EPOCH_MIN: i64 = -62167219200;

pub open spec fn is_digit(c: char) -> bool {
    48 <= c as u32 && c as u32 <= 57
}

pub open spec fn digit_val(c: char) -> int {
    c as u32 - 48
}

/// The two-digit number at positions `i`, `i + 1`.
pub open spec fn num2(s: Seq<char>, i: int) -> int {
    digit_val(s[i]) * 10 + digit_val(s[i + 1])
}

/// The four-digit number at positions `i` .. `i + 3`.
pub open spec fn num4(s: Seq<char>, i: int) -> int {
    digit_val(s[i]) * 1000 + digit_val(s[i + 1]) * 100 + digit_val(s[i + 2]) * 10 + digit_val(
        s[i + 3],
    )
}

pub open spec fn is_leap_year(y: int) -> bool {
    y % 4 == 0 && (y % 100 != 0 || y % 400 == 0)
}

pub open spec fn days_in_month(y: int, m: int) -> int {
    if m == 2 {
        if is_leap_year(y) {
            29
        } else {
            28
        }
    } else if m == 4 || m == 6 || m == 9 || m == 11 {
        30
    } else {
        31
    }
}

/// A well-formed store timestamp: `YYYY-MM-DD HH:MM:SS` with a real
/// calendar date and a real time of day.
pub open spec fn valid_sqlite_stamp(s: Seq<char>) -> bool {
    &&& s.len() == 19
    &&& is_digit(s[0]) && is_digit(s[1]) && is_digit(s[2]) && is_digit(s[3])
    &&& s[4] == '-'
    &&& is_digit(s[5]) && is_digit(s[6])
    &&& s[7] == '-'
    &&& is_digit(s[8]) && is_digit(s[9])
    &&& s[10] == ' '
    &&& is_digit(s[11]) && is_digit(s[12])
    &&& s[13] == ':'
    &&& is_digit(s[14]) && is_digit(s[15])
    &&& s[16] == ':'
    &&& is_digit(s[17]) && is_digit(s[18])
    &&& 1 <= num2(s, 5) <= 12
    &&& 1 <= num2(s, 8) <= days_in_month(num4(s, 0), num2(s, 5))
    &&& num2(s, 11) <= 23
    &&& num2(s, 14) <= 59
    &&& num2(s, 17) <= 59
}

/// The RFC-3339 rendering of a store timestamp: the date part, `T`, the
/// time part, and the UTC offset.
pub open spec fn rfc3339_of_sqlite(s: Seq<char>) -> Seq<char> {
    s.subrange(0, 10) + "T"@ + s.subrange(11, 19) + "+00:00"@
}

/// Reading an RFC-3339 UTC rendering back into the store's form.
pub open spec fn sqlite_of_rfc3339(t: Seq<char>) -> Seq<char> {
    t.subrange(0, 10) + " "@ + t.subrange(11, 19)
}

/// Round trip: rendering a well-formed store timestamp as RFC-3339 and
/// reading it back yields the very same timestamp text, hence the same
/// instant.
pub proof fn lemma_rfc3339_round_trip(s: Seq<char>)
    requires
        valid_sqlite_stamp(s),
    ensures
        sqlite_of_rfc3339(rfc3339_of_sqlite(s)) == s,
        rfc3339_of_sqlite(s).len() == 25,
{
    reveal_strlit("T");
    reveal_strlit(" ");
    reveal_strlit("+00:00");
    let t = rfc3339_of_sqlite(s);
    assert(t.subrange(0, 10) =~= s.subrange(0, 10));
    assert(t.subrange(11, 19) =~= s.subrange(11, 19));
    assert(sqlite_of_rfc3339(t) =~= s);
}

fn digit_value(c: char) -> (r: Option<u32>)
    ensures
        r is Some <==> is_digit(c),
        r matches Some(v) ==> v == digit_val(c),
{
    let u = c as u32;
    if 48 <= u && u <= 57 {
        Some(u - 48)
    } else {
        None
    }
}

fn char_at_is(s: &str, i: usize, c: char) -> (r: bool)
    requires
        i < s@.len(),
    ensures
        r == (s@[i as int] == c),
{
    s.get_char(i) == c
}

fn read_num2(s: &str, i: usize) -> (r: Option<u32>)
    requires
        s@.len() == 19,
        i + 1 < 19,
    ensures
        r is Some <==> is_digit(s@[i as int]) && is_digit(s@[i + 1]),
        r matches Some(v) ==> v == num2(s@, i as int),
{
    let a = digit_value(s.get_char(i));
    let b = digit_value(s.get_char(i + 1));
    match (a, b) {
        (Some(x), Some(y)) => Some(x * 10 + y),
        _ => None,
    }
}

fn read_num4(s: &str, i: usize) -> (r: Option<u32>)
    requires
        s@.len() == 19,
        i + 3 < 19,
    ensures
        r is Some <==> is_digit(s@[i as int]) && is_digit(s@[i + 1]) && is_digit(s@[i + 2])
            && is_digit(s@[i + 3]),
        r matches Some(v) ==> v == num4(s@, i as int),
{
    let a = digit_value(s.get_char(i));
    let b = digit_value(s.get_char(i + 1));
    let c = digit_value(s.get_char(i + 2));
    let d = digit_value(s.get_char(i + 3));
    match (a, b, c, d) {
        (Some(x), Some(y), Some(z), Some(w)) => Some(x * 1000 + y * 100 + z * 10 + w),
        _ => None,
    }
}

fn month_days(y: u32, m: u32) -> (r: u32)
    ensures
        r == days_in_month(y as int, m as int),
{
    if m == 2 {
        if y % 4 == 0 && (y % 100 != 0 || y % 400 == 0) {
            29
        } else {
            28
        }
    } else if m == 4 || m == 6 || m == 9 || m == 11 {
        30
    } else {
        31
    }
}

/// Decide whether `s` is a well-formed store timestamp.
pub fn is_valid_sqlite_stamp(s: &str) -> (r: bool)
    ensures
        r == valid_sqlite_stamp(s@),
{
    if s.unicode_len() != 19 {
        return false;
    }
    if !(char_at_is(s, 4, '-') && char_at_is(s, 7, '-') && char_at_is(s, 10, ' ') && char_at_is(
        s,
        13,
        ':',
    ) && char_at_is(s, 16, ':')) {
        return false;
    }
    let year = match read_num4(s, 0) {
        Some(v) => v,
        None => {
            return false;
        },
    };
    let month = match read_num2(s, 5) {
        Some(v) => v,
        None => {
            return false;
        },
    };
    let day = match read_num2(s, 8) {
        Some(v) => v,
        None => {
            return false;
        },
    };
    let hour = match read_num2(s, 11) {
        Some(v) => v,
        None => {
            return false;
        },
    };
    let minute = match read_num2(s, 14) {
        Some(v) => v,
        None => {
            return false;
        },
    };
    let second = match read_num2(s, 17) {
        Some(v) => v,
        None => {
            return false;
        },
    };
    1 <= month && month <= 12 && 1 <= day && day <= month_days(year, month) && hour <= 23
        && minute <= 59 && second <= 59
}

/// Render a store timestamp in RFC-3339 form.  Callers must hand a
/// well-formed timestamp; [`rfc3339`] is the total variant.
pub fn sqlite_datetime_to_rfc3339(date: &str) -> (r: String)
    requires
        valid_sqlite_stamp(date@),
    ensures
        r@ == rfc3339_of_sqlite(date@),
{
    let mut out = date.substring_char(0, 10).to_owned();
    out.append("T");
    out.append(date.substring_char(11, 19));
    out.append("+00:00");
    proof {
        assert(out@ =~= rfc3339_of_sqlite(date@));
    }
    out
}

/// The RFC-3339 rendering of a store timestamp, or `None` when the text
/// is not a well-formed store timestamp.
pub fn rfc3339(s: &str) -> (r: Option<String>)
    ensures
        r is Some <==> valid_sqlite_stamp(s@),
        r matches Some(t) ==> t@ == rfc3339_of_sqlite(s@),
{
    if is_valid_sqlite_stamp(s) {
        Some(sqlite_datetime_to_rfc3339(s))
    } else {
        None
    }
}

/// Read an RFC-3339 UTC rendering back into the store's form: the
/// result is `Some` exactly when the text came from a well-formed store
/// timestamp.
pub fn rfc3339_to_sqlite(s: &str) -> (r: Option<String>)
    ensures
        r matches Some(t) ==> t@ == sqlite_of_rfc3339(s@) && valid_sqlite_stamp(t@),
        r is None ==> !(exists|q: Seq<char>|
            valid_sqlite_stamp(q) && s@ == rfc3339_of_sqlite(q)),
{
    if s.unicode_len() != 25 {
        proof {
            if exists|q: Seq<char>| valid_sqlite_stamp(q) && s@ == rfc3339_of_sqlite(q) {
                let q = choose|q: Seq<char>| valid_sqlite_stamp(q) && s@ == rfc3339_of_sqlite(q);
                lemma_rfc3339_round_trip(q);
            }
        }
        return None;
    }
    let mut out = s.substring_char(0, 10).to_owned();
    out.append(" ");
    out.append(s.substring_char(11, 19));
    proof {
        assert(out@ =~= sqlite_of_rfc3339(s@));
    }
    if is_valid_sqlite_stamp(out.as_str()) {
        proof {
            lemma_rfc3339_round_trip(out@);
        }
        Some(out)
    } else {
        proof {
            if exists|q: Seq<char>| valid_sqlite_stamp(q) && s@ == rfc3339_of_sqlite(q) {
                let q = choose|q: Seq<char>| valid_sqlite_stamp(q) && s@ == rfc3339_of_sqlite(q);
                lemma_rfc3339_round_trip(q);
                assert(sqlite_of_rfc3339(s@) == q);
            }
        }
        None
    }
}

/// What the outside formatter returns for an epoch second: the
/// 19-character UTC calendar rendering, a function of the timestamp
/// alone.
pub uninterp spec fn stamp_text(t: i64) -> Seq<char>;

/// Relies on chrono's `DateTime::<Utc>::from_timestamp` and its
/// `%Y-%m-%d %H:%M:%S` formatting: for epoch seconds within the
/// four-digit years (year 0 up to year 10000) the result is the
/// well-formed UTC calendar rendering of the timestamp, determined by
/// the timestamp alone.
#[verifier::external_body]
fn format_epoch(t: i64) -> (r: String)
    requires
        EPOCH_MIN <= t < EPOCH_LIMIT,
    ensures
        r@ == stamp_text(t),
        valid_sqlite_stamp(r@),
{
    match chrono::DateTime::<chrono::Utc>::from_timestamp(t, 0) {
        Some(dt) => dt.format("%Y-%m-%d %H:%M:%S").to_string(),
        None => String::new(),
    }
}

/// Relies on chrono's `Utc::now` for the current wall-clock time; no
/// property of the result is assumed.
#[verifier::external_body]
fn current_epoch() -> (r: i64) {
    chrono::Utc::now().timestamp()
}

/// An instant as whole epoch seconds.
#[derive(Debug, Clone, Copy)]
pub struct Epoch(pub i64);

impl Epoch {
    /// The clock's current instant, clamped into the representable
    /// range.
    pub fn now() -> (r: Epoch)
        ensures
            0 <= r.0 < EPOCH_LIMIT,
    {
        let t = current_epoch();
        if 0 <= t && t < EPOCH_LIMIT {
            Epoch(t)
        } else {
            Epoch(0)
        }
    }

    /// An epoch from a parsed timestamp.  A parsed value is kept, even
    /// one before 1970; only zero — the parser's failure substitute —
    /// and values outside the four-digit years fall back to the
    /// current instant.
    pub fn from_timestamp(t: i64) -> (r: Epoch)
        ensures
            t != 0 && EPOCH_MIN <= t < EPOCH_LIMIT ==> r.0 == t,
            EPOCH_MIN <= r.0 < EPOCH_LIMIT,
    {
        if t != 0 && EPOCH_MIN <= t && t < EPOCH_LIMIT {
            Epoch(t)
        } else {
            Epoch::now()
        }
    }

    /// The store's textual rendering of this instant.
    pub fn to_string(&self) -> (r: String)
        requires
            EPOCH_MIN <= self.0 < EPOCH_LIMIT,
        ensures
            r@ == stamp_text(self.0),
            valid_sqlite_stamp(r@),
    {
        format_epoch(self.0)
    }
}

} // verus!
