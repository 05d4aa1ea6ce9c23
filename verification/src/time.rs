//! Points in time (UTC), as whole seconds since the Unix epoch and a
//! sub-second count of nanoseconds, with their RFC 3339 text form.
use vstd::prelude::*;

verus! {

/// The RFC 3339 text that chrono writes for the UTC instant `secs`
/// seconds and `nanos` nanoseconds after the Unix epoch, or `None` where
/// chrono has no such instant.
pub uninterp spec fn rfc3339_text(secs: i64, nanos: u32) -> Option<Seq<char>>;

/// What chrono reads from an RFC 3339 text, converted to UTC: the instant as
/// (seconds, nanoseconds), or the text of the parse error.
pub uninterp spec fn rfc3339_parsed(text: Seq<char>) -> Result<(i64, u32), Seq<char>>;

/// The first and last second of the years 0000 to 9999, the years that an
/// RFC 3339 text writes with four digits.
pub open spec fn four_digit_year(secs: i64) -> bool {
    -62167219200 <= secs <= 253402300799
}

/// The nanoseconds `nanos` fit the second `secs`: under one second, or, for
/// a leap second (a second that ends a minute), under two.
pub open spec fn nanos_fit(secs: i64, nanos: u32) -> bool {
    nanos < 1_000_000_000 || (nanos < 2_000_000_000 && secs % 60 == 59)
}

/// Calls chrono's `DateTime::<Utc>::from_timestamp` and then `to_rfc3339`.
/// Claims: the result is `rfc3339_text` of the arguments; chrono has no
/// instant with 2 seconds' worth of nanoseconds or more (nanoseconds of a
/// second or more mark a leap second, which chrono writes as second 60);
/// and for an instant of the years 0000 to 9999, leap seconds included,
/// `DateTime::parse_from_rfc3339` reads the same instant back. Claims too
/// when chrono has the instant: `from_timestamp` refuses nanoseconds that
/// do not fit the second (`NaiveTime::from_num_seconds_from_midnight_opt`)
/// and accepts every second of the years 0000 to 9999 (its dates reach
/// much further).
#[verifier::external_body]
fn format_rfc3339(secs: i64, nanos: u32) -> (r: Option<String>)
    ensures
        match r {
            Some(t) => {
                &&& rfc3339_text(secs, nanos) == Some(t@)
                &&& nanos < 2_000_000_000
                &&& four_digit_year(secs) ==> rfc3339_parsed(t@) == Ok::<(i64, u32), Seq<char>>(
                    (secs, nanos),
                )
            },
            None => rfc3339_text(secs, nanos) is None,
        },
        !nanos_fit(secs, nanos) ==> r is None,
        four_digit_year(secs) && nanos_fit(secs, nanos) ==> r is Some,
{
    match chrono::DateTime::<chrono::Utc>::from_timestamp(secs, nanos) {
        Some(d) => Some(d.to_rfc3339()),
        None => None,
    }
}

/// Calls chrono's `DateTime::parse_from_rfc3339`, converts the result to
/// UTC and takes its seconds and sub-second nanoseconds, or the error's
/// text. Claims: the result is `rfc3339_parsed` of the text, and an instant
/// that chrono parsed is one that it can write again.
#[verifier::external_body]
fn parse_rfc3339_text(text: &str) -> (r: Result<(i64, u32), String>)
    ensures
        match r {
            Ok(p) => rfc3339_parsed(text@) == Ok::<(i64, u32), Seq<char>>(p) && rfc3339_text(
                p.0,
                p.1,
            ) is Some,
            Err(m) => rfc3339_parsed(text@) == Err::<(i64, u32), Seq<char>>(m@),
        },
{
    match chrono::DateTime::parse_from_rfc3339(text) {
        Ok(d) => {
            let u = d.with_timezone(&chrono::Utc);
            Ok((u.timestamp(), u.timestamp_subsec_nanos()))
        },
        Err(e) => Err(e.to_string()),
    }
}

/// Calls chrono's `Utc::now` and takes its seconds and sub-second
/// nanoseconds. chrono builds that instant with `from_timestamp` from the
/// system clock's `Duration` since the Unix epoch (and panics where the
/// clock stands before the epoch). Claims: the seconds are not negative,
/// the nanoseconds are those of a `Duration` (under one second, so no leap
/// second), and chrono can write the instant. Which instant comes back
/// depends on the clock and is left unsaid.
#[verifier::external_body]
fn clock_now() -> (r: (i64, u32))
    ensures
        0 <= r.0,
        r.1 < 1_000_000_000,
        rfc3339_text(r.0, r.1) is Some,
{
    let now = chrono::Utc::now();
    (now.timestamp(), now.timestamp_subsec_nanos())
}

/// A UTC instant that chrono can represent.
#[derive(Clone, Copy)]
pub struct Timestamp {
    secs: i64,
    nanos: u32,
}

impl View for Timestamp {
    type V = (i64, u32);

    closed spec fn view(&self) -> (i64, u32) {
        (self.secs, self.nanos)
    }
}

/// Whether the instant `a` comes strictly before `b`.
pub open spec fn earlier(a: (i64, u32), b: (i64, u32)) -> bool {
    a.0 < b.0 || (a.0 == b.0 && a.1 < b.1)
}

/// The instant `t` as a number of nanoseconds since the Unix epoch.
pub open spec fn nanos_since_epoch(t: (i64, u32)) -> int {
    t.0 * 1_000_000_000 + t.1
}

impl Timestamp {
    #[verifier::type_invariant]
    closed spec fn representable(self) -> bool {
        rfc3339_text(self.secs, self.nanos) is Some
    }

    /// The current time: an instant at or after the Unix epoch, outside a
    /// leap second, that chrono can write. Which instant it is depends on
    /// the clock.
    pub fn now() -> (t: Timestamp)
        ensures
            0 <= t@.0,
            t@.1 < 1_000_000_000,
            rfc3339_text(t@.0, t@.1) is Some,
    {
        let (secs, nanos) = clock_now();
        Timestamp { secs, nanos }
    }

    /// The instant `secs` seconds and `nanos` nanoseconds after the Unix
    /// epoch, where chrono has it.
    pub fn from_unix(secs: i64, nanos: u32) -> (r: Option<Timestamp>)
        ensures
            r is Some <==> rfc3339_text(secs, nanos) is Some,
            r matches Some(t) ==> t@ == (secs, nanos),
            !nanos_fit(secs, nanos) ==> r is None,
            four_digit_year(secs) && nanos_fit(secs, nanos) ==> r is Some,
    {
        match format_rfc3339(secs, nanos) {
            Some(_) => Some(Timestamp { secs, nanos }),
            None => None,
        }
    }

    /// Whole seconds since the Unix epoch.
    pub fn secs(&self) -> (s: i64)
        ensures
            s == self@.0,
    {
        self.secs
    }

    /// Nanoseconds past the whole second.
    pub fn subsec_nanos(&self) -> (n: u32)
        ensures
            n == self@.1,
    {
        self.nanos
    }

    /// Whether this instant comes strictly before `other`.
    pub fn is_before(&self, other: &Timestamp) -> (b: bool)
        ensures
            b == earlier(self@, other@),
    {
        self.secs < other.secs || (self.secs == other.secs && self.nanos < other.nanos)
    }

    /// The RFC 3339 text of this instant.
    pub fn to_rfc3339(&self) -> (s: String)
        ensures
            rfc3339_text(self@.0, self@.1) == Some(s@),
            four_digit_year(self@.0) ==> rfc3339_parsed(s@) == Ok::<
                (i64, u32),
                Seq<char>,
            >(self@),
    {
        proof {
            use_type_invariant(self);
        }
        match format_rfc3339(self.secs, self.nanos) {
            Some(s) => s,
            None => String::new(),
        }
    }

    /// Reads an RFC 3339 text and converts it to UTC.
    pub fn parse_rfc3339(text: &str) -> (r: Result<Timestamp, String>)
        ensures
            match r {
                Ok(t) => rfc3339_parsed(text@) == Ok::<(i64, u32), Seq<char>>(t@),
                Err(m) => rfc3339_parsed(text@) == Err::<(i64, u32), Seq<char>>(m@),
            },
    {
        match parse_rfc3339_text(text) {
            Ok((secs, nanos)) => Ok(Timestamp { secs, nanos }),
            Err(m) => Err(m),
        }
    }
}

} // verus!
