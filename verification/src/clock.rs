//! Instants, timestamps as they are written in the log, and elapsed time.

use chrono::{DateTime, NaiveDateTime};
use std::time::SystemTime;
use std::time::UNIX_EPOCH;
use vstd::prelude::*;

verus! {

/// A point in time: whole seconds since the Unix epoch and the nanoseconds
/// past that second.
#[derive(Clone, Copy, Debug, PartialEq, Eq, Structural)]
pub struct Instant {
    pub secs: i64,
    pub nanos: u32,
}

impl Instant {
    /// Nanoseconds since the epoch.
    pub open spec fn total_nanos(self) -> int {
        self.secs as int * 1_000_000_000 + self.nanos as int
    }

    /// `self` is not later than `other`.
    pub open spec fn at_or_before(self, other: Instant) -> bool {
        self.total_nanos() <= other.total_nanos()
    }
}

/// Whole seconds from `from` to `to`: zero where `to` is not after `from`,
/// and never more than an `i64` holds.
pub open spec fn span_seconds(from: Instant, to: Instant) -> int {
    let nanos = to.total_nanos() - from.total_nanos();
    if nanos <= 0 {
        0
    } else if nanos / 1_000_000_000 > i64::MAX as int {
        i64::MAX as int
    } else {
        nanos / 1_000_000_000
    }
}

/// Whole seconds elapsed from `from` to `to`, clamped at zero.
pub fn elapsed_seconds(from: Instant, to: Instant) -> (r: i64)
    ensures
        r == span_seconds(from, to),
        r >= 0,
{
    let secs: i128 = to.secs as i128 - from.secs as i128;
    let nanos: i128 = secs * 1_000_000_000 + (to.nanos as i128 - from.nanos as i128);
    if nanos <= 0 {
        0
    } else {
        let whole: i128 = nanos / 1_000_000_000;
        if whole > i64::MAX as i128 {
            i64::MAX
        } else {
            whole as i64
        }
    }
}

/// The later `to` is, the longer the span from a fixed `from`.
pub proof fn lemma_span_monotonic(from: Instant, earlier: Instant, later: Instant)
    requires
        earlier.at_or_before(later),
    ensures
        span_seconds(from, earlier) <= span_seconds(from, later),
{
}

/// The layout in which the log writes an instant: date, `T`, time with an
/// optional fraction, and a numeric offset.
pub const TIMESTAMP_FORMAT: &'static str = "%Y-%m-%dT%H:%M:%S%.f%z";

/// What chrono reads out of `text` under the layout `format`: seconds since
/// the epoch and nanoseconds, or nothing where the text does not fit.
pub uninterp spec fn parsed_instant(text: Seq<char>, format: Seq<char>) -> Option<(i64, u32)>;

/// Calls `chrono::NaiveDateTime::parse_from_str` and hands back the date
/// and time it read as seconds (`timestamp`) and nanoseconds
/// (`timestamp_subsec_nanos`), taken as UTC by `and_utc`: the written
/// offset is not applied. Claimed: the outcome is a function of the two
/// texts alone.
#[verifier::external_body]
fn parse_instant(text: &str, format: &str) -> (r: Option<Instant>)
    ensures
        match r {
            Some(i) => parsed_instant(text@, format@) == Some((i.secs, i.nanos)),
            None => parsed_instant(text@, format@) is None,
        },
{
    match NaiveDateTime::parse_from_str(text, format) {
        Ok(d) => Some(Instant { secs: d.and_utc().timestamp(), nanos: d.and_utc().timestamp_subsec_nanos() }),
        Err(_) => None,
    }
}

/// Reads the system clock with `std::time::SystemTime::now` and takes
/// the time since the epoch with `duration_since`: whole seconds
/// (`as_secs`) and the nanoseconds past them (`subsec_nanos`). Nothing
/// comes back where the clock stands before the epoch. Nothing is claimed
/// of the result.
#[verifier::external_body]
fn since_epoch() -> (r: Option<(u64, u32)>) {
    match SystemTime::now().duration_since(UNIX_EPOCH) {
        Ok(d) => Some((d.as_secs(), d.subsec_nanos())),
        Err(_) => None,
    }
}

/// What chrono writes for the UTC moment `secs` seconds and `nanos`
/// nanoseconds after the epoch, or nothing where it holds no such moment.
pub uninterp spec fn rfc3339_text(secs: i64, nanos: u32) -> Option<Seq<char>>;

/// Makes a UTC date and time with `chrono::DateTime::from_timestamp` and
/// writes it with `to_rfc3339`. Claimed: the outcome is a function of the
/// two numbers alone.
#[verifier::external_body]
fn write_rfc3339(secs: i64, nanos: u32) -> (r: Option<String>)
    ensures
        match r {
            Some(text) => rfc3339_text(secs, nanos) == Some(text@),
            None => rfc3339_text(secs, nanos) is None,
        },
{
    match DateTime::from_timestamp(secs, nanos) {
        Some(at) => Some(at.to_rfc3339()),
        None => None,
    }
}

/// The instant that a log timestamp stands for, if it is one.
pub open spec fn instant_of(text: Seq<char>) -> Option<Instant> {
    if text.len() == 0 {
        None
    } else {
        match parsed_instant(text, TIMESTAMP_FORMAT@) {
            Some((secs, nanos)) => Some(Instant { secs, nanos }),
            None => None,
        }
    }
}

/// What a `Timestamp` is: its text and the instant read from it.
pub struct Stamp {
    pub text: Seq<char>,
    pub at: Instant,
}

impl Stamp {
    /// The text is a timestamp and `at` is what it says.
    pub open spec fn wf(self) -> bool {
        instant_of(self.text) == Some(self.at)
    }
}

/// A timestamp of the log: the text as written, kept beside the instant it
/// denotes, so that writing it back changes nothing.
#[derive(Debug)]
pub struct Timestamp {
    text: String,
    at: Instant,
}

impl View for Timestamp {
    type V = Stamp;

    closed spec fn view(&self) -> Stamp {
        Stamp { text: self.text@, at: self.at }
    }
}

impl Clone for Timestamp {
    fn clone(&self) -> (r: Self)
        ensures
            r@ == self@,
    {
        proof {
            use_type_invariant(self);
        }
        Timestamp { text: self.text.clone(), at: self.at }
    }
}

impl Timestamp {
    #[verifier::type_invariant]
    spec fn inv(self) -> bool {
        instant_of(self.text@) == Some(self.at)
    }

    /// Reads `text` as a timestamp. Empty text and text that does not fit
    /// the layout give nothing.
    pub fn parse(text: String) -> (r: Option<Timestamp>)
        ensures
            match r {
                Some(t) => t@.text == text@ && t@.wf(),
                None => instant_of(text@) is None,
            },
    {
        if text.as_str().is_empty() {
            return None;
        }
        match parse_instant(text.as_str(), TIMESTAMP_FORMAT) {
            Some(at) => Some(Timestamp { text, at }),
            None => None,
        }
    }

    /// The timestamp written for the moment `secs` seconds and `nanos`
    /// nanoseconds after the epoch, if there is such a moment and its text
    /// reads back as a timestamp.
    pub fn from_epoch(secs: i64, nanos: u32) -> (r: Option<Timestamp>)
        ensures
            match rfc3339_text(secs, nanos) {
                Some(text) => match instant_of(text) {
                    Some(at) => r matches Some(t) && t@ == (Stamp { text, at }),
                    None => r is None,
                },
                None => r is None,
            },
            r matches Some(t) ==> t@.wf(),
    {
        match write_rfc3339(secs, nanos) {
            Some(text) => Timestamp::parse(text),
            None => None,
        }
    }

    /// The current moment as a timestamp, if the clock can be read and
    /// the text written for its reading reads back as a timestamp.
    pub fn now() -> (r: Option<Timestamp>)
        ensures
            r matches Some(t) ==> t@.wf() && exists|secs: i64, nanos: u32|
                secs >= 0 && rfc3339_text(secs, nanos) == Some(t@.text),
    {
        match since_epoch() {
            Some((secs, nanos)) => if secs <= i64::MAX as u64 {
                Timestamp::from_epoch(secs as i64, nanos)
            } else {
                None
            },
            None => None,
        }
    }

    /// The text as it stands in the log.
    pub fn as_str(&self) -> (r: &str)
        ensures
            r@ == self@.text,
            self@.wf(),
    {
        proof {
            use_type_invariant(self);
        }
        self.text.as_str()
    }

    /// The instant that the text denotes.
    pub fn instant(&self) -> (r: Instant)
        ensures
            r == self@.at,
            self@.wf(),
    {
        proof {
            use_type_invariant(self);
        }
        self.at
    }
}

impl Instant {
    /// Whether `self` is not later than `other`.
    pub fn not_after(self, other: Instant) -> (r: bool)
        ensures
            r == self.at_or_before(other),
    {
        let mine: i128 = self.secs as i128 * 1_000_000_000 + self.nanos as i128;
        let theirs: i128 = other.secs as i128 * 1_000_000_000 + other.nanos as i128;
        mine <= theirs
    }

    /// The current moment by the system clock, if the clock can be read:
    /// never one before the epoch.
    pub fn now() -> (r: Option<Instant>)
        ensures
            r matches Some(at) ==> at.secs >= 0,
    {
        match since_epoch() {
            Some((secs, nanos)) => if secs <= i64::MAX as u64 {
                Some(Instant { secs: secs as i64, nanos })
            } else {
                None
            },
            None => None,
        }
    }
}

} // verus!
