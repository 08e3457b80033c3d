//! Instants on the UTC time line, and their written forms.
//!
//! An instant is held as the number of microseconds since the Unix epoch. The
//! calendar that writes it out covers the years -262143 to 262142; a
//! [`Timestamp`] is always inside that span.

use vstd::prelude::*;
use chrono::DateTime;

verus! {

/// The first microsecond that the calendar covers: the start of the year
/// -262143.
pub const MIN_MICROS: i64 = -8_334_601_228_800_000_000;

/// The last microsecond that the calendar covers: the end of the year 262142.
pub const MAX_MICROS: i64 = 8_210_266_876_799_999_999;

/// The first second that the calendar covers.
pub const MIN_SECONDS: i64 = -8_334_601_228_800;

/// The last second that the calendar covers.
pub const MAX_SECONDS: i64 = 8_210_266_876_799;

/// Whether the calendar covers the instant `micros` microseconds after the
/// epoch.
pub open spec fn in_calendar(micros: int) -> bool {
    MIN_MICROS <= micros <= MAX_MICROS
}

/// The RFC 3339 text of the instant `micros` microseconds after the epoch, in
/// UTC: what `chrono::DateTime::<Utc>::to_rfc3339` returns for it.
pub uninterp spec fn rfc3339_text(micros: int) -> Seq<char>;

/// The text of the date and time of day, without zone, of the instant
/// `micros` microseconds after the epoch: what the `Debug` form of
/// `chrono::NaiveDateTime` is for it.
pub uninterp spec fn naive_debug_text(micros: int) -> Seq<char>;

/// Writes an instant in RFC 3339 form. Calls
/// `chrono::DateTime::from_timestamp_micros` and, on what it gives,
/// `to_rfc3339`. The first returns `None` exactly where the day of the instant
/// lies outside the years -262143 to 262142; the second is a function of the
/// instant alone and does not fail.
#[verifier::external_body]
fn chrono_rfc3339(micros: i64) -> (text: Option<String>)
    ensures
        text is Some <==> in_calendar(micros as int),
        text matches Some(t) ==> t@ == rfc3339_text(micros as int),
{
    match DateTime::from_timestamp_micros(micros) {
        Some(at) => Some(at.to_rfc3339()),
        None => None,
    }
}

/// Writes the date and time of day of an instant. Calls
/// `chrono::DateTime::from_timestamp_micros`, takes the `NaiveDateTime` of
/// what it gives, and formats that with `{:?}`. The first returns `None`
/// exactly where the day of the instant lies outside the years -262143 to
/// 262142; the `Debug` form is a function of the instant alone.
#[verifier::external_body]
fn chrono_naive_debug(micros: i64) -> (text: Option<String>)
    ensures
        text is Some <==> in_calendar(micros as int),
        text matches Some(t) ==> t@ == naive_debug_text(micros as int),
{
    match DateTime::from_timestamp_micros(micros) {
        Some(at) => Some(format!("{:?}", at.naive_utc())),
        None => None,
    }
}

/// An instant that the calendar covers.
#[derive(Clone, Copy, Debug, PartialEq, Eq)]
pub struct Timestamp {
    micros: i64,
}

impl View for Timestamp {
    type V = int;

    /// The microseconds between the epoch and the instant.
    closed spec fn view(&self) -> int {
        self.micros as int
    }
}

impl Timestamp {
    #[verifier::type_invariant]
    spec fn covered(self) -> bool {
        in_calendar(self.micros as int)
    }

    /// The instant `micros` microseconds after the epoch, if the calendar
    /// covers it.
    pub fn from_micros(micros: i64) -> (at: Option<Timestamp>)
        ensures
            at is Some <==> in_calendar(micros as int),
            at matches Some(t) ==> t@ == micros,
    {
        if MIN_MICROS <= micros && micros <= MAX_MICROS {
            Some(Timestamp { micros })
        } else {
            None
        }
    }

    /// The instant `seconds` seconds after the epoch, if the calendar covers
    /// it.
    pub fn from_unix_seconds(seconds: i64) -> (at: Option<Timestamp>)
        ensures
            at is Some <==> in_calendar(seconds * 1_000_000),
            at matches Some(t) ==> t@ == seconds * 1_000_000,
    {
        if MIN_SECONDS <= seconds && seconds <= MAX_SECONDS {
            Some(Timestamp { micros: seconds * 1_000_000 })
        } else {
            None
        }
    }

    /// The microseconds between the epoch and the instant.
    pub fn micros(&self) -> (micros: i64)
        ensures
            micros == self@,
            in_calendar(self@),
    {
        proof {
            use_type_invariant(self);
        }
        self.micros
    }

    /// The instant in RFC 3339 form, in UTC.
    pub fn to_rfc3339(&self) -> (text: String)
        ensures
            text@ == rfc3339_text(self@),
    {
        proof {
            use_type_invariant(self);
        }
        match chrono_rfc3339(self.micros) {
            Some(text) => text,
            None => {
                assert(false);
                String::new()
            },
        }
    }

    /// The date and time of day of the instant, as the store's rows show it
    /// when they are printed for inspection.
    pub fn to_debug_text(&self) -> (text: String)
        ensures
            text@ == naive_debug_text(self@),
    {
        proof {
            use_type_invariant(self);
        }
        match chrono_naive_debug(self.micros) {
            Some(text) => text,
            None => {
                assert(false);
                String::new()
            },
        }
    }
}

} // verus!
