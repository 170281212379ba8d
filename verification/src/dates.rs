//! Calendar dates and the trailing time window.
//!
//! Instants are carried as whole seconds since the Unix epoch; calendar
//! dates as year, month and day.  The clock and the calendar arithmetic
//! come from an outside crate through the trusted items below; every
//! computation on the plain values is verified.

use vstd::prelude::*;
use vstd::string::StringExecFns;
use crate::text::dec_str;
use crate::text::u64_to_string;

verus! {

/// `n` in decimal, padded with zeroes on the left to at least two digits.
pub open spec fn pad2(n: nat) -> Seq<char> {
    if n < 10 {
        seq!['0'] + dec_str(n)
    } else {
        dec_str(n)
    }
}

/// `n` in decimal, padded with zeroes on the left to at least four digits.
pub open spec fn pad4(n: nat) -> Seq<char> {
    if n < 10 {
        seq!['0', '0', '0'] + dec_str(n)
    } else if n < 100 {
        seq!['0', '0'] + dec_str(n)
    } else if n < 1000 {
        seq!['0'] + dec_str(n)
    } else {
        dec_str(n)
    }
}

/// The `YYYY-MM-DD` rendering of a calendar date.
pub open spec fn date_str(y: nat, m: nat, d: nat) -> Seq<char> {
    pad4(y) + seq!['-'] + pad2(m) + seq!['-'] + pad2(d)
}

/// A calendar date as the local clock shows it.
pub struct CivilDate {
    pub year: u64,
    pub month: u64,
    pub day: u64,
}

impl CivilDate {
    /// A date this crate can render: a four-digit year and a month and
    /// day in their calendar ranges.
    pub open spec fn wf(self) -> bool {
        self.year < 10000 && 1 <= self.month <= 12 && 1 <= self.day <= 31
    }
}

fn pad2_exec(n: u64) -> (r: String)
    ensures
        n < 100 ==> r@ == pad2(n as nat),
{
    if n < 10 {
        let r = String::from_str("0").concat(u64_to_string(n).as_str());
        proof {
            reveal_strlit("0");
            assert("0"@ =~= seq!['0']);
        }
        r
    } else {
        u64_to_string(n)
    }
}

fn pad4_exec(n: u64) -> (r: String)
    ensures
        n < 10000 ==> r@ == pad4(n as nat),
{
    if n < 10 {
        let r = String::from_str("000").concat(u64_to_string(n).as_str());
        proof {
            reveal_strlit("000");
            assert("000"@ =~= seq!['0', '0', '0']);
        }
        r
    } else if n < 100 {
        let r = String::from_str("00").concat(u64_to_string(n).as_str());
        proof {
            reveal_strlit("00");
            assert("00"@ =~= seq!['0', '0']);
        }
        r
    } else if n < 1000 {
        let r = String::from_str("0").concat(u64_to_string(n).as_str());
        proof {
            reveal_strlit("0");
            assert("0"@ =~= seq!['0']);
        }
        r
    } else {
        u64_to_string(n)
    }
}

/// Renders a calendar date as `YYYY-MM-DD`.
pub fn format_date(date: &CivilDate) -> (r: String)
    requires
        date.wf(),
    ensures
        r@ == date_str(date.year as nat, date.month as nat, date.day as nat),
{
    let dash = "-";
    proof {
        reveal_strlit("-");
        assert(dash@ =~= seq!['-']);
    }
    let r = pad4_exec(date.year)
        .concat(dash)
        .concat(pad2_exec(date.month).as_str())
        .concat(dash)
        .concat(pad2_exec(date.day).as_str());
    proof {
        assert(r@ =~= date_str(date.year as nat, date.month as nat, date.day as nat));
    }
    r
}

/// The instant `days` whole days before `now`, in epoch seconds.
pub open spec fn window_start_of(now: int, days: int) -> int {
    now - days * 86400
}

/// Start of the trailing window `days` days before `now`.  `None` only
/// when the subtraction would leave the range of epoch seconds.
pub fn window_start(now: i64, days: u32) -> (r: Option<i64>)
    ensures
        r is Some <==> i64::MIN <= window_start_of(now as int, days as int),
        r is Some ==> r->Some_0 == window_start_of(now as int, days as int),
{
    let span: i64 = (days as i64) * 86400;
    now.checked_sub(span)
}

/// What an RFC 3339 timestamp reads as, in whole seconds since the Unix
/// epoch; `None` where the text is not a valid timestamp.
pub uninterp spec fn rfc3339_epoch(s: Seq<char>) -> Option<int>;

/// Relies on `chrono::DateTime::parse_from_rfc3339` and
/// `chrono::DateTime::timestamp`: reads an RFC 3339 timestamp as whole
/// seconds since the Unix epoch.  Both depend on the text alone.
#[verifier::external_body]
pub(crate) fn parse_rfc3339_epoch(s: &str) -> (r: Option<i64>)
    ensures
        r is Some <==> rfc3339_epoch(s@) is Some,
        r is Some ==> rfc3339_epoch(s@) == Some(r->Some_0 as int),
{
    chrono::DateTime::parse_from_rfc3339(s).ok().map(|t| t.timestamp())
}

/// Relies on `chrono::Local::now` and `chrono::DateTime::timestamp`: the
/// current time in whole seconds since the Unix epoch.  Nothing is
/// promised of the value.
#[verifier::external_body]
pub(crate) fn now_epoch() -> i64 {
    chrono::Local::now().timestamp()
}

/// Relies on `chrono::DateTime::from_timestamp`,
/// `chrono::DateTime::with_timezone` and the `chrono::Datelike`
/// accessors: the calendar date of the instant in the machine's local
/// time zone.  The month runs from 1 to 12 and the day from 1 to 31, as
/// `Datelike` documents; the year is unbounded, and the whole result
/// depends on the machine's time zone.  `from_timestamp` is `None` only
/// outside the calendar's range — its dates span the years −262143 to
/// 262142, so every instant within 8 · 10¹² seconds of the epoch
/// (about 253 000 years either way, well inside that span) maps; the
/// accessors themselves never fail.
#[verifier::external_body]
pub(crate) fn local_ymd(epoch: i64) -> (r: Option<(i64, u32, u32)>)
    ensures
        r is Some ==> 1 <= r->Some_0.1 <= 12 && 1 <= r->Some_0.2 <= 31,
        -8_000_000_000_000 <= epoch <= 8_000_000_000_000 ==> r is Some,
{
    match chrono::DateTime::from_timestamp(epoch, 0) {
        Some(utc) => {
            let local = utc.with_timezone(&chrono::Local);
            Some((
                chrono::Datelike::year(&local) as i64,
                chrono::Datelike::month(&local),
                chrono::Datelike::day(&local),
            ))
        },
        None => None,
    }
}

/// Shapes a year, month and day into a `CivilDate`: exactly the dates
/// with a four-digit year and the month and day in their calendar
/// ranges pass, unchanged.
pub fn civil_date_from_ymd(y: i64, m: u32, d: u32) -> (r: Option<CivilDate>)
    ensures
        r is Some <==> 0 <= y < 10000 && 1 <= m <= 12 && 1 <= d <= 31,
        r is Some ==> r->Some_0.year == y && r->Some_0.month == m && r->Some_0.day == d,
{
    if 0 <= y && y < 10000 && 1 <= m && m <= 12 && 1 <= d && d <= 31 {
        Some(CivilDate { year: y as u64, month: m as u64, day: d as u64 })
    } else {
        None
    }
}

/// The local calendar date of an instant, where the machine's calendar
/// can name it with a four-digit year.  The year test is the only step
/// after the trusted calendar call: whatever year, month and day that
/// call hands back run through `civil_date_from_ymd` unchanged.
pub fn civil_date_of_epoch(epoch: i64) -> (r: Option<CivilDate>)
    ensures
        r is Some ==> r->Some_0.wf(),
{
    match local_ymd(epoch) {
        Some((y, m, d)) => civil_date_from_ymd(y, m, d),
        None => None,
    }
}

} // verus!
