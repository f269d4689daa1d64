//! Wall-clock reads and the rendering of an ISO-8601 UTC timestamp, second
//! precision, from seconds since the epoch.

use std::time::SystemTime;
use std::time::UNIX_EPOCH;
use vstd::prelude::*;
use vstd::string::*;
use crate::text::{push_char, push_u64_padded, spec_u64_padded};

verus! {

/// Relies on `std::time::SystemTime::now`: milliseconds since the Unix epoch
/// (0 when the clock reads before the epoch). A clock read promises nothing.
#[verifier::external_body]
pub fn now_millis() -> u64 {
    SystemTime::now().duration_since(UNIX_EPOCH).unwrap_or_default().as_millis() as u64
}

/// Relies on `std::time::SystemTime::now`: seconds since the Unix epoch
/// (0 when the clock reads before the epoch). A clock read promises nothing.
#[verifier::external_body]
fn now_secs() -> u64 {
    SystemTime::now().duration_since(UNIX_EPOCH).unwrap_or_default().as_secs()
}

/// The civil date `days` days after 1970-01-01, as (year, month, day) in the
/// proleptic Gregorian calendar: the era/day-of-era decomposition, written
/// over the integers.
pub open spec fn spec_days_to_date(days: u64) -> (int, int, int) {
    let z = days + 719468;
    let era = z / 146097;
    let doe = z % 146097;
    let yoe = (doe - doe / 1460 + doe / 36524 - doe / 146096) / 365;
    let doy = doe - (365 * yoe + yoe / 4 - yoe / 100);
    let mp = (5 * doy + 2) / 153;
    let d = doy - (153 * mp + 2) / 5 + 1;
    let m = if mp < 10 {
        mp + 3
    } else {
        mp - 9
    };
    let y = if m <= 2 {
        yoe + era * 400 + 1
    } else {
        yoe + era * 400
    };
    (y, m, d)
}

/// The day-of-era arithmetic stays in range: the year-of-era never claims
/// more days than the era holds, and a day-of-year always falls inside a
/// month of the shifted calendar.
proof fn lemma_date_arith_in_range(doe: int)
    requires
        0 <= doe < 146097,
    ensures
        ({
            let yoe = (doe - doe / 1460 + doe / 36524 - doe / 146096) / 365;
            let doy = doe - (365 * yoe + yoe / 4 - yoe / 100);
            let mp = (5 * doy + 2) / 153;
            &&& 0 <= yoe <= 399
            &&& 0 <= doy <= 365
            &&& 0 <= mp <= 11
            &&& (153 * mp + 2) / 5 <= doy
            &&& doy - (153 * mp + 2) / 5 <= 30
        }),
{
    let num = doe - doe / 1460 + doe / 36524 - doe / 146096;
    let yoe = num / 365;
    assert(365 * yoe + yoe / 4 - yoe / 100 <= doe) by (nonlinear_arith)
        requires
            0 <= doe < 146097,
            num == doe - doe / 1460 + doe / 36524 - doe / 146096,
            yoe == num / 365,
    ;
    let doy = doe - (365 * yoe + yoe / 4 - yoe / 100);
    assert(doy <= 365) by (nonlinear_arith)
        requires
            0 <= doe < 146097,
            num == doe - doe / 1460 + doe / 36524 - doe / 146096,
            yoe == num / 365,
            doy == doe - (365 * yoe + yoe / 4 - yoe / 100),
    ;
    let mp = (5 * doy + 2) / 153;
    assert(mp <= 11 && (153 * mp + 2) / 5 <= doy && doy - (153 * mp + 2) / 5 <= 30)
        by (nonlinear_arith)
        requires
            0 <= doy <= 365,
            mp == (5 * doy + 2) / 153,
    ;
}

/// The day number of the civil date (`y`, `m`, `d`): the era/day-of-era
/// composition, the inverse direction of the date computation.
pub open spec fn spec_days_from_civil(y: int, m: int, d: int) -> int {
    let ys = if m <= 2 {
        y - 1
    } else {
        y
    };
    let era = ys / 400;
    let yoe = ys - era * 400;
    let mp = (m + 9) % 12;
    let doy = (153 * mp + 2) / 5 + d - 1;
    let doe = yoe * 365 + yoe / 4 - yoe / 100 + doy;
    era * 146097 + doe - 719468
}

/// The date computation is exact: the civil date it yields is the one whose
/// day number is the input.
pub proof fn lemma_days_to_date_inverts(days: u64)
    ensures
        ({
            let date = spec_days_to_date(days);
            spec_days_from_civil(date.0, date.1, date.2) == days
        }),
{
    let z = days + 719468;
    let era = z / 146097;
    let doe = z % 146097;
    lemma_date_arith_in_range(doe);
    let yoe = (doe - doe / 1460 + doe / 36524 - doe / 146096) / 365;
    let doy = doe - (365 * yoe + yoe / 4 - yoe / 100);
    let mp = (5 * doy + 2) / 153;
    let d = doy - (153 * mp + 2) / 5 + 1;
    let m = if mp < 10 {
        mp + 3
    } else {
        mp - 9
    };
    let y = if m <= 2 {
        yoe + era * 400 + 1
    } else {
        yoe + era * 400
    };
    // The year splits back into the same era and year-of-era.
    let ys = if m <= 2 {
        y - 1
    } else {
        y
    };
    assert(m <= 2 <==> mp >= 10);
    assert(ys == era * 400 + yoe);
    assert(ys / 400 == era) by (nonlinear_arith)
        requires
            ys == era * 400 + yoe,
            0 <= yoe <= 399,
            era >= 0,
    ;
    // The month maps back to the same shifted month.
    assert((m + 9) % 12 == mp) by (nonlinear_arith)
        requires
            0 <= mp <= 11,
            m == if mp < 10 {
                mp + 3
            } else {
                mp - 9
            },
    ;
    // Day-of-year and day-of-era recompose exactly.
    assert((153 * mp + 2) / 5 + d - 1 == doy);
    assert(yoe * 365 + yoe / 4 - yoe / 100 + doy == doe);
    assert(era * 146097 + doe == z);
}

/// Computes the civil date `days_since_epoch` days after 1970-01-01 in the
/// proleptic Gregorian calendar. The month and day are always in range.
pub fn days_to_date(days_since_epoch: u64) -> (r: (u64, u64, u64))
    requires
        days_since_epoch <= u64::MAX - 719468,
    ensures
        (r.0 as int, r.1 as int, r.2 as int) == spec_days_to_date(days_since_epoch),
        1 <= r.1 <= 12,
        1 <= r.2 <= 31,
{
    let z: u64 = days_since_epoch + 719468;
    let era: u64 = z / 146097;
    let doe: u64 = z % 146097;
    proof {
        lemma_date_arith_in_range(doe as int);
    }
    let num: u64 = doe - doe / 1460 + doe / 36524 - doe / 146096;
    let yoe: u64 = num / 365;
    let doy: u64 = doe - (365 * yoe + yoe / 4 - yoe / 100);
    let mp: u64 = (5 * doy + 2) / 153;
    let d: u64 = doy - (153 * mp + 2) / 5 + 1;
    let m: u64 = if mp < 10 {
        mp + 3
    } else {
        mp - 9
    };
    proof {
        assert(era <= u64::MAX / 146097);
    }
    let y: u64 = if m <= 2 {
        yoe + era * 400 + 1
    } else {
        yoe + era * 400
    };
    (y, m, d)
}

/// The ISO-8601 UTC rendering, second precision, of `secs` seconds after the
/// epoch: date and time-of-day fields zero-padded, joined in the usual shape.
pub open spec fn spec_iso_from_secs(secs: u64) -> Seq<char> {
    let days = secs / 86400;
    let rem = secs % 86400;
    let date = spec_days_to_date(days);
    spec_u64_padded(date.0 as u64, 4) + seq!['-'] + spec_u64_padded(date.1 as u64, 2) + seq!['-']
        + spec_u64_padded(date.2 as u64, 2) + seq!['T'] + spec_u64_padded((rem / 3600) as u64, 2)
        + seq![':'] + spec_u64_padded(((rem % 3600) / 60) as u64, 2) + seq![':'] + spec_u64_padded(
        (rem % 60) as u64,
        2,
    ) + ".000Z"@
}

/// Renders `secs` seconds after the epoch as an ISO-8601 UTC timestamp,
/// second precision.
pub fn iso_from_secs(secs: u64) -> (r: String)
    ensures
        r@ == spec_iso_from_secs(secs),
{
    let days: u64 = secs / 86400;
    let rem: u64 = secs % 86400;
    let hours: u64 = rem / 3600;
    let minutes: u64 = (rem % 3600) / 60;
    let seconds: u64 = rem % 60;
    proof {
        assert(days <= u64::MAX - 719468) by {
            assert(secs / 86400 <= u64::MAX / 86400);
        }
    }
    let date = days_to_date(days);
    let mut s = String::new();
    push_u64_padded(&mut s, date.0, 4);
    push_char(&mut s, '-');
    push_u64_padded(&mut s, date.1, 2);
    push_char(&mut s, '-');
    push_u64_padded(&mut s, date.2, 2);
    push_char(&mut s, 'T');
    push_u64_padded(&mut s, hours, 2);
    push_char(&mut s, ':');
    push_u64_padded(&mut s, minutes, 2);
    push_char(&mut s, ':');
    push_u64_padded(&mut s, seconds, 2);
    s.append(".000Z");
    proof {
        assert(s@ =~= spec_iso_from_secs(secs));
    }
    s
}

/// The current wall-clock time as an ISO-8601 UTC timestamp, second
/// precision: the `iso_from_secs` rendering of some clock reading — which
/// reading, the clock alone decides.
pub fn chrono_now_iso() -> (r: String)
    ensures
        exists|s: u64| r@ == spec_iso_from_secs(s),
{
    let secs = now_secs();
    let r = iso_from_secs(secs);
    proof {
        assert(r@ == spec_iso_from_secs(secs));
    }
    r
}

} // verus!

