//! Wall-clock timestamps at a resolution of one second, and their written
//! form `YYYY-MM-DD HH:MM:SS`.

use vstd::prelude::*;

verus! {

/// The layout in which timestamps are written and read.
pub const TIME_FORMAT: &'static str = "%Y-%m-%d %H:%M:%S";

/// Seconds from `1970-01-01 00:00:00` to `0000-01-01 00:00:00`.
pub const MIN_SECONDS: i64 = -62_167_219_200;

/// Seconds from `1970-01-01 00:00:00` to `9999-12-31 23:59:59`.
pub const MAX_SECONDS: i64 = 253_402_300_799;

/// Whether a count of seconds names a moment that is written with a
/// four-digit year.
pub open spec fn representable(seconds: int) -> bool {
    MIN_SECONDS <= seconds <= MAX_SECONDS
}

/// What `chrono::NaiveDateTime::parse_from_str` makes of `text` under
/// `format`: the seconds between `1970-01-01 00:00:00` and the parsed date
/// and time, or `None` where it reports an error.
pub uninterp spec fn parsed_timestamp(text: Seq<char>, format: Seq<char>) -> Option<i64>;

/// What `chrono::NaiveDateTime::format` writes, under `format`, for the date
/// and time that lies `seconds` after `1970-01-01 00:00:00`.
pub uninterp spec fn formatted_timestamp(seconds: i64, format: Seq<char>) -> Seq<char>;

/// The timestamp that a text stands for, if it stands for one.
pub open spec fn timestamp_of(text: Seq<char>) -> Option<int> {
    match parsed_timestamp(text, TIME_FORMAT@) {
        Some(seconds) => if representable(seconds as int) {
            Some(seconds as int)
        } else {
            None
        },
        None => None,
    }
}

/// The written form of a timestamp.
pub open spec fn text_of(seconds: int) -> Seq<char> {
    formatted_timestamp(seconds as i64, TIME_FORMAT@)
}

/// Whether the written form of a timestamp is read back as that timestamp.
/// [`Timestamp::format`] ensures this of every timestamp it writes.
pub open spec fn reads_back(seconds: int) -> bool {
    timestamp_of(text_of(seconds)) == Some(seconds)
}

/// Calls `chrono::NaiveDateTime::parse_from_str` and converts the date and time
/// it returns to seconds since `1970-01-01 00:00:00`; an error becomes `None`.
///
/// Not proved, but taken from chrono: the answer depends on the text and the
/// format alone. Which texts it accepts is left to chrono.
#[verifier::external_body]
fn chrono_parse(text: &str, format: &str) -> (seconds: Option<i64>)
    requires
        format@ == TIME_FORMAT@,
    ensures
        seconds == parsed_timestamp(text@, format@),
{
    match chrono::NaiveDateTime::parse_from_str(text, format) {
        Ok(moment) => Some(moment.and_utc().timestamp()),
        Err(_) => None,
    }
}

/// Calls `chrono::NaiveDateTime::format` on the date and time that lies
/// `seconds` after `1970-01-01 00:00:00`, which `chrono::DateTime::from_timestamp`
/// makes.
///
/// Not proved, but taken from chrono: it holds every moment with a four-digit
/// year; what it writes depends on the seconds and the format alone; and
/// under [`TIME_FORMAT`], where year, month, day, hour, minute and second are
/// written in full with leading zeros, `parse_from_str` reads the text back
/// as the same moment.
#[verifier::external_body]
fn chrono_format(seconds: i64, format: &str) -> (text: String)
    requires
        representable(seconds as int),
        format@ == TIME_FORMAT@,
    ensures
        text@ == formatted_timestamp(seconds, format@),
        parsed_timestamp(text@, format@) == Some(seconds),
{
    chrono::DateTime::from_timestamp(seconds, 0).unwrap().naive_utc().format(format).to_string()
}

/// A reading of the local wall clock, in whole seconds.
///
/// Its view is the number of seconds since `1970-01-01 00:00:00` on that
/// clock. Only moments from year 0000 to year 9999 are held, so that every
/// timestamp has a written form with a four-digit year.
///
/// No time zone is kept. Two readings are as far apart as the clock showed:
/// where the clock was set forward or back between them, as for daylight
/// saving time, that is not the time that passed.
#[derive(Clone, Copy, Debug, PartialEq, Eq, Structural)]
pub struct Timestamp {
    seconds: i64,
}

impl View for Timestamp {
    type V = int;

    closed spec fn view(&self) -> int {
        self.seconds as int
    }
}

impl Timestamp {
    #[verifier::type_invariant]
    spec fn in_range(self) -> bool {
        representable(self.seconds as int)
    }

    /// The timestamp `seconds` after `1970-01-01 00:00:00`, if it is
    /// representable.
    pub fn from_secs(seconds: i64) -> (made: Option<Timestamp>)
        ensures
            made is Some <==> representable(seconds as int),
            made matches Some(t) ==> t@ == seconds,
    {
        if MIN_SECONDS <= seconds && seconds <= MAX_SECONDS {
            Some(Timestamp { seconds })
        } else {
            None
        }
    }

    /// Seconds since `1970-01-01 00:00:00`.
    pub fn seconds(&self) -> (seconds: i64)
        ensures
            seconds == self@,
            representable(self@),
    {
        proof {
            use_type_invariant(self);
        }
        self.seconds
    }

    /// Reads a timestamp written as `YYYY-MM-DD HH:MM:SS`.
    pub fn parse(text: &str) -> (read: Option<Timestamp>)
        ensures
            read is Some <==> timestamp_of(text@) is Some,
            read matches Some(t) ==> timestamp_of(text@) == Some(t@) && representable(t@),
    {
        match chrono_parse(text, TIME_FORMAT) {
            Some(seconds) => Timestamp::from_secs(seconds),
            None => None,
        }
    }

    /// Writes the timestamp as `YYYY-MM-DD HH:MM:SS`. Reading the text back
    /// gives the same timestamp.
    pub fn format(&self) -> (text: String)
        ensures
            text@ == text_of(self@),
            reads_back(self@),
    {
        proof {
            use_type_invariant(self);
        }
        chrono_format(self.seconds, TIME_FORMAT)
    }
}

/// Seconds from one reading of the clock to a later one; zero where the
/// second is not later.
pub open spec fn elapsed(since: int, until: int) -> nat {
    if until > since {
        (until - since) as nat
    } else {
        0
    }
}

/// Seconds from one timestamp to a later one; zero where the second is not
/// later.
pub fn seconds_between(since: Timestamp, until: Timestamp) -> (seconds: u64)
    ensures
        seconds == elapsed(since@, until@),
{
    let from = since.seconds();
    let to = until.seconds();
    if to > from {
        (to - from) as u64
    } else {
        0
    }
}

/// Two timestamps with the same view are the same timestamp.
pub proof fn lemma_timestamp_by_view(a: Timestamp, b: Timestamp)
    ensures
        a@ == b@ <==> a == b,
{
}

} // verus!
