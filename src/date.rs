//! Calendar dates as plain values, and certificate expiry dates (MMYY).
use vstd::prelude::*;

use chrono::Datelike;

use crate::bcd::{numeric, numeric_spec};
use crate::errors::VerifyError;

verus! {

/// A day of the proleptic Gregorian calendar.
#[derive(Debug, PartialEq, Eq, Structural, Clone, Copy)]
pub struct Date {
    pub year: i32,
    pub month: u32,
    pub day: u32,
}

pub open spec fn is_leap(y: int) -> bool {
    (y % 4 == 0 && y % 100 != 0) || y % 400 == 0
}

pub open spec fn days_in_month(y: int, m: int) -> int {
    if m == 2 {
        if is_leap(y) {
            29
        } else {
            28
        }
    } else if m == 4 || m == 6 || m == 9 || m == 11 {
        30
    } else {
        31
    }
}

pub open spec fn valid_date(y: int, m: int, d: int) -> bool {
    1 <= m <= 12 && 1 <= d <= days_in_month(y, m)
}

/// The day before (y, m, d).
pub open spec fn prev_day(y: int, m: int, d: int) -> (int, int, int) {
    if d > 1 {
        (y, m, d - 1)
    } else if m > 1 {
        (y, m - 1, days_in_month(y, m - 1))
    } else {
        (y - 1, 12, 31)
    }
}

/// Relies on chrono's `NaiveDate::from_ymd_opt` (`None` for an invalid date)
/// and `NaiveDate::pred_opt` (`None` only before chrono's first day): the day
/// before a valid date of the proleptic Gregorian calendar, read back with
/// `Datelike`'s getters.
#[verifier::external_body]
fn day_before(year: i32, month: u32, day: u32) -> (r: Option<(i32, u32, u32)>)
    ensures
        r matches Some(t) ==> valid_date(year as int, month as int, day as int) && (
        t.0 as int,
        t.1 as int,
        t.2 as int,
        ) == prev_day(year as int, month as int, day as int),
        valid_date(year as int, month as int, day as int) && 1 <= year <= 9999 ==> r is Some,
{
    match chrono::NaiveDate::from_ymd_opt(year, month, day) {
        Some(d) => match d.pred_opt() {
            Some(p) => Some((p.year(), p.month(), p.day())),
            None => None,
        },
        None => None,
    }
}

/// The expiry date that the BCD bytes month `mm` and year `yy` (20yy)
/// stand for: the last day of that month.
pub open spec fn expiry_spec(mm: u8, yy: u8) -> Result<Date, VerifyError> {
    match (numeric_spec(seq![mm]), numeric_spec(seq![yy])) {
        (Ok(m), Ok(y)) => if 1 <= m <= 12 {
            Ok(
                Date {
                    year: (2000 + y) as i32,
                    month: m as u32,
                    day: days_in_month(2000 + y, m as int) as u32,
                },
            )
        } else {
            Err(VerifyError::InvalidData)
        },
        _ => Err(VerifyError::InvalidData),
    }
}

/// Reads an MMYY expiry date: the last day of the month, found as the day
/// before the first of the next month.
pub fn date_ym(mmyy: &[u8]) -> (r: Result<Date, VerifyError>)
    requires
        mmyy@.len() == 2,
    ensures
        r == expiry_spec(mmyy@[0], mmyy@[1]),
{
    let month = match numeric(vstd::slice::slice_subrange(mmyy, 0, 1)) {
        Ok(m) => m,
        Err(_) => {
            proof {
                assert(mmyy@.subrange(0, 1) =~= seq![mmyy@[0]]);
            }
            return Err(VerifyError::InvalidData);
        },
    };
    let year = match numeric(vstd::slice::slice_subrange(mmyy, 1, 2)) {
        Ok(y) => y,
        Err(_) => {
            proof {
                assert(mmyy@.subrange(0, 1) =~= seq![mmyy@[0]]);
                assert(mmyy@.subrange(1, 2) =~= seq![mmyy@[1]]);
            }
            return Err(VerifyError::InvalidData);
        },
    };
    proof {
        assert(mmyy@.subrange(0, 1) =~= seq![mmyy@[0]]);
        assert(mmyy@.subrange(1, 2) =~= seq![mmyy@[1]]);
        reveal_with_fuel(crate::bcd::decimal, 3);
        crate::bcd::lemma_byte_decimal(mmyy@[1]);
    }
    if month < 1 || month > 12 {
        return Err(VerifyError::InvalidData);
    }
    let y = 2000 + year as i32;
    let m = month as u32;
    let (ny, nm) = if m == 12 {
        (y + 1, 1u32)
    } else {
        (y, m + 1)
    };
    match day_before(ny, nm, 1) {
        Some((ry, rm, rd)) => Ok(Date { year: ry, month: rm, day: rd }),
        None => Err(VerifyError::InvalidData),
    }
}

} // verus!
