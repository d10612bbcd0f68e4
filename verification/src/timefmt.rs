//! Rendering of unix timestamps as ISO 8601 UTC strings, by direct
//! Gregorian calendar arithmetic from the epoch.

use vstd::prelude::*;
use crate::num;

verus! {

pub open spec fn is_leap_year(y: nat) -> bool {
    (y % 4 == 0 && y % 100 != 0) || y % 400 == 0
}

pub open spec fn days_in_year(y: nat) -> nat {
    if is_leap_year(y) {
        366
    } else {
        365
    }
}

pub open spec fn days_in_month(y: nat, m: nat) -> nat {
    if m == 1 {
        if is_leap_year(y) {
            29
        } else {
            28
        }
    } else if m == 3 || m == 5 || m == 8 || m == 10 {
        30
    } else {
        31
    }
}

/// The year holding the day `days` after the epoch, with the day's index
/// within that year, counting years up from `y`.
pub open spec fn year_and_day(y: nat, days: nat) -> (nat, nat)
    decreases days,
{
    if days >= days_in_year(y) {
        year_and_day(y + 1, (days - days_in_year(y)) as nat)
    } else {
        (y, days)
    }
}

/// The month index (0-based) holding day `days` of year `y`, with the
/// day's index within that month, counting months up from `m`.
pub open spec fn month_and_day(y: nat, m: nat, days: nat) -> (nat, nat)
    decreases 12 - m,
{
    if m >= 11 {
        (m, days)
    } else if days >= days_in_month(y, m) {
        month_and_day(y, m + 1, (days - days_in_month(y, m)) as nat)
    } else {
        (m, days)
    }
}

/// `secs` after the epoch as `YYYY-MM-DDThh:mm:ssZ`.
pub open spec fn format_time_spec(secs: nat) -> Seq<char> {
    let days = secs / 86400;
    let sod = secs % 86400;
    let yd = year_and_day(1970, days);
    let md = month_and_day(yd.0, 0, yd.1);
    num::dec_padded(yd.0, 4) + seq!['-'] + num::dec_padded(md.0 + 1, 2) + seq!['-']
        + num::dec_padded(md.1 + 1, 2) + seq!['T'] + num::dec_padded(sod / 3600, 2) + seq![':']
        + num::dec_padded((sod % 3600) / 60, 2) + seq![':'] + num::dec_padded(sod % 60, 2)
        + seq!['Z']
}

fn days_in_year_exec(y: u64) -> (d: u64)
    ensures
        d == days_in_year(y as nat),
{
    if (y % 4 == 0 && y % 100 != 0) || y % 400 == 0 {
        366
    } else {
        365
    }
}

fn days_in_month_exec(y: u64, m: u64) -> (d: u64)
    ensures
        d == days_in_month(y as nat, m as nat),
{
    if m == 1 {
        if (y % 4 == 0 && y % 100 != 0) || y % 400 == 0 {
            29
        } else {
            28
        }
    } else if m == 3 || m == 5 || m == 8 || m == 10 {
        30
    } else {
        31
    }
}

/// Render `secs` after the epoch as an ISO 8601 UTC string.
pub fn format_time(secs: u64) -> (r: String)
    ensures
        r@ == format_time_spec(secs as nat),
{
    let days: u64 = secs / 86400;
    let sod: u64 = secs % 86400;
    let hours: u64 = sod / 3600;
    let minutes: u64 = (sod % 3600) / 60;
    let seconds: u64 = sod % 60;

    let mut year: u64 = 1970;
    let mut rem: u64 = days;
    while rem >= days_in_year_exec(year)
        invariant
            year_and_day(1970, days as nat) == year_and_day(year as nat, rem as nat),
            year <= 1970 + (days - rem),
            rem <= days,
            days <= u64::MAX / 86400,
        decreases rem,
    {
        let diy = days_in_year_exec(year);
        rem = rem - diy;
        year = year + 1;
    }
    proof {
        assert(year_and_day(year as nat, rem as nat) == (year as nat, rem as nat));
    }

    let mut month: u64 = 0;
    while month < 11 && rem >= days_in_month_exec(year, month)
        invariant
            month <= 11,
            rem <= days,
            month_and_day(year as nat, 0, year_and_day(1970, days as nat).1)
                == month_and_day(year as nat, month as nat, rem as nat),
            year_and_day(1970, days as nat).0 == year as nat,
        decreases 11 - month,
    {
        let dim = days_in_month_exec(year, month);
        rem = rem - dim;
        month = month + 1;
    }
    proof {
        assert(month_and_day(year as nat, month as nat, rem as nat) == (month as nat, rem as nat));
    }

    let mut out = num::u64_to_dec_pad(year, 4);
    proof {
        reveal_strlit("-");
        reveal_strlit("T");
        reveal_strlit(":");
        reveal_strlit("Z");
    }
    out.append("-");
    out.append(num::u64_to_dec_pad(month + 1, 2).as_str());
    out.append("-");
    out.append(num::u64_to_dec_pad(rem + 1, 2).as_str());
    out.append("T");
    out.append(num::u64_to_dec_pad(hours, 2).as_str());
    out.append(":");
    out.append(num::u64_to_dec_pad(minutes, 2).as_str());
    out.append(":");
    out.append(num::u64_to_dec_pad(seconds, 2).as_str());
    out.append("Z");
    proof {
        assert(("-")@ =~= seq!['-']);
        assert(("T")@ =~= seq!['T']);
        assert((":")@ =~= seq![':']);
        assert(("Z")@ =~= seq!['Z']);
    }
    out
}

} // verus!
