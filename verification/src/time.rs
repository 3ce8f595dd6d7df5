//! Dates: when a resource counts as old, and the date texts of the README,
//! formatted and parsed by `chrono`.

use vstd::prelude::*;
use std::fmt::Write;
use crate::order::Timestamp;

verus! {

#[verifier::external_type_specification]
#[verifier::external_body]
pub struct ExChronoParseError(chrono::ParseError);

/// A repository without activity for this many seconds (two years of 365
/// days) counts as inactive.
pub const MAX_AGE_SECS: i64 = 63_072_000;

/// `t` lies more than `MAX_AGE_SECS` before `now`: `t < now - MAX_AGE`.
pub open spec fn is_older(t: Timestamp, now: Timestamp) -> bool {
    t.secs + MAX_AGE_SECS < now.secs || (t.secs + MAX_AGE_SECS == now.secs && t.nanos < now.nanos)
}

/// Whether `t` lies more than two years before `now`.
pub fn is_old(t: &Timestamp, now: &Timestamp) -> (r: bool)
    ensures
        r == is_older(*t, *now),
{
    let shifted: i128 = t.secs as i128 + MAX_AGE_SECS as i128;
    let current: i128 = now.secs as i128;
    shifted < current || (shifted == current && t.nanos < now.nanos)
}

/// What `chrono` writes for the instant `(secs, nanos)` with the strftime
/// format `fmt`, or `None` where `DateTime::from_timestamp` refuses the
/// instant or the format cannot be written.
pub uninterp spec fn formatted_time(secs: int, nanos: int, fmt: Seq<char>) -> Option<Seq<char>>;

/// The instant `(seconds, nanoseconds)` that `DateTime<Utc>::from_str`
/// reads from `s`, or `None` where it fails.
pub uninterp spec fn parsed_time(s: Seq<char>) -> Option<(int, int)>;

/// Every `%` in `fmt` starts one of the specifiers `%Y`, `%m`, `%d`.
pub open spec fn ymd_format(fmt: Seq<char>) -> bool {
    forall|i: int|
        0 <= i < fmt.len() && #[trigger] fmt[i] == '%' ==> i + 1 < fmt.len() && (fmt[i + 1] == 'Y'
            || fmt[i + 1] == 'm' || fmt[i + 1] == 'd')
}

/// Formats `t` with `fmt` through `chrono::DateTime::format`, after
/// `DateTime::from_timestamp` (which refuses out-of-range instants). The
/// contract names the text; of chrono's formatting rules it states only what
/// its strftime table gives for `%Y` (the year, zero-padded to four digits,
/// with a sign outside 0..=9999), `%m` and `%d` (two zero-padded digits),
/// other characters being copied: with no other specifier, the text is at
/// least as long as the format and holds a `:` only where the format does.
#[verifier::external_body]
fn format_timestamp(t: &Timestamp, fmt: &str) -> (r: Option<String>)
    ensures
        r.deep_view() == formatted_time(t.secs as int, t.nanos as int, fmt@),
        r matches Some(text) ==> (ymd_format(fmt@) ==> text@.len() >= fmt@.len()),
        r matches Some(text) ==> (ymd_format(fmt@) && !fmt@.contains(':') ==> !text@.contains(':')),
{
    match chrono::DateTime::from_timestamp(t.secs, t.nanos) {
        Some(d) => {
            let mut out = String::new();
            match write!(out, "{}", d.format(fmt)) {
                Ok(()) => Some(out),
                Err(_) => None,
            }
        },
        None => None,
    }
}

/// Parses `s` with `<DateTime<Utc> as FromStr>::from_str` (a relaxed
/// RFC 3339) and reads back its timestamp and nanoseconds. The contract
/// names the result; of the accepted syntax it states only that a text read
/// holds a `:`, which the time of day (`HH:MM:SS`) requires.
#[verifier::external_body]
fn parse_timestamp(s: &str) -> (r: Result<Timestamp, chrono::ParseError>)
    ensures
        r matches Ok(t) ==> parsed_time(s@) == Some((t.secs as int, t.nanos as int)),
        r is Err ==> parsed_time(s@) is None,
        r is Ok ==> s@.contains(':'),
{
    match s.parse::<chrono::DateTime<chrono::Utc>>() {
        Ok(d) => Ok(Timestamp { secs: d.timestamp(), nanos: d.timestamp_subsec_nanos() }),
        Err(e) => Err(e),
    }
}

/// The format of README dates: `YYYY&#x2011;MM&#x2011;DD`, with non-breaking
/// hyphens.
pub open spec fn readme_date_format() -> Seq<char> {
    "%Y&#x2011;%m&#x2011;%d"@
}

/// `text` is the README date text of `d`: the empty text without a date,
/// else chrono's text for the instant in `readme_date_format`, which is
/// never empty and holds no `:`.
pub open spec fn written_date(d: Option<Timestamp>, text: Seq<char>) -> bool {
    match d {
        None => text.len() == 0,
        Some(t) => {
            &&& formatted_time(t.secs as int, t.nanos as int, readme_date_format()) == Some(text)
            &&& text.len() > 0
            &&& !text.contains(':')
        },
    }
}

/// What reading the date text `text` of a README row gives: `Some(None)`
/// (no date) for the empty text, `Some(Some(instant))` for a text that
/// `DateTime<Utc>::from_str` reads, and `None` (an error) otherwise, among
/// them every text without a `:`.
pub open spec fn date_read(text: Seq<char>) -> Option<Option<(int, int)>> {
    if text.len() == 0 {
        Some(None)
    } else if !text.contains(':') {
        None
    } else {
        match parsed_time(text) {
            Some(instant) => Some(Some(instant)),
            None => None,
        }
    }
}

/// A read date as plain values: `Some(None)` for no date, `Some(Some(..))`
/// for an instant, `None` for an error.
pub open spec fn read_outcome(r: Result<Option<Timestamp>, chrono::ParseError>) -> Option<Option<(int, int)>> {
    match r {
        Ok(None) => Some(None),
        Ok(Some(t)) => Some(Some((t.secs as int, t.nanos as int))),
        Err(_) => None,
    }
}

/// The date text of a README row: `YYYY&#x2011;MM&#x2011;DD` (non-breaking
/// hyphens), or the empty text without a date; `None` only where chrono
/// cannot represent the instant.
pub fn readme_date(d: &Option<Timestamp>) -> (r: Option<String>)
    ensures
        r.deep_view() == match d {
            Some(t) => formatted_time(t.secs as int, t.nanos as int, readme_date_format()),
            None => Some(Seq::<char>::empty()),
        },
        r matches Some(text) ==> written_date(*d, text@),
{
    match d {
        Some(t) => {
            let fmt = "%Y&#x2011;%m&#x2011;%d";
            proof {
                reveal_strlit("%Y&#x2011;%m&#x2011;%d");
                assert(ymd_format(fmt@));
                assert(!fmt@.contains(':'));
            }
            format_timestamp(t, fmt)
        },
        None => Some(String::new()),
    }
}

/// The plain date text `YYYY-MM-DD`, or the empty text without a date;
/// `None` only where chrono cannot represent the instant.
pub fn day_label(d: &Option<Timestamp>) -> (r: Option<String>)
    ensures
        r.deep_view() == match d {
            Some(t) => formatted_time(t.secs as int, t.nanos as int, "%Y-%m-%d"@),
            None => Some(Seq::<char>::empty()),
        },
{
    match d {
        Some(t) => format_timestamp(t, "%Y-%m-%d"),
        None => Some(String::new()),
    }
}

/// Reads the date of a README row back: no value and the empty text mean
/// no date; other texts are parsed as RFC 3339.
pub fn parse_last_updated(s: Option<String>) -> (r: Result<Option<Timestamp>, chrono::ParseError>)
    ensures
        read_outcome(r) == match s {
            None => Some(None),
            Some(text) => date_read(text@),
        },
{
    match s {
        None => Ok(None),
        Some(text) => {
            if text.unicode_len() == 0 {
                Ok(None)
            } else {
                match parse_timestamp(text.as_str()) {
                    Ok(t) => Ok(Some(t)),
                    Err(e) => Err(e),
                }
            }
        },
    }
}

/// What `readme_date` writes, `parse_last_updated` reads back where there
/// was no date: the empty text reads as no date. A written date does not read
/// back: its text holds no time of day, and reading it fails.
pub proof fn lemma_readme_date_round_trip(d: Option<Timestamp>, text: Seq<char>)
    requires
        written_date(d, text),
    ensures
        d is None ==> date_read(text) == Some(None::<(int, int)>),
        d is Some ==> date_read(text) is None,
{
}

} // verus!
