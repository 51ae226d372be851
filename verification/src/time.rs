//! Calendar arithmetic: turning a timestamp into milliseconds on a single
//! time line, so that printing times are plain integer differences.
//!
//! The one calendar fact the library does not compute itself is the number of
//! days between a date and the epoch; chrono supplies it.

use vstd::prelude::*;
use crate::models::{Timestamp, valid_ymd};

verus! {

/// The signed number of calendar days from 1970-01-01 to the proleptic
/// Gregorian date (y, m, d).
pub uninterp spec fn day_number(y: int, m: int, d: int) -> int;

/// Relies on chrono's `NaiveDate` (proleptic Gregorian calendar):
/// `from_ymd_opt` accepts exactly the valid calendar dates in this year
/// range, and `signed_duration_since(epoch).num_days()` is the signed count
/// of whole days from 1970-01-01 — a function of the date alone. Years
/// 0..=9999 lie at most 9999 * 366 < 4,000,000 days from the epoch, and the
/// difference of two dates at most one day apart in that span is ±1.
#[verifier::external_body]
fn days_from_epoch(year: u16, month: u8, day: u8) -> (r: i64)
    requires
        valid_ymd(year as int, month as int, day as int),
    ensures
        r == day_number(year as int, month as int, day as int),
        -4_000_000 <= r <= 4_000_000,
{
    let date = chrono::NaiveDate::from_ymd_opt(year as i32, month as u32, day as u32).unwrap();
    let epoch = chrono::NaiveDate::from_ymd_opt(1970, 1, 1).unwrap();
    date.signed_duration_since(epoch).num_days()
}

pub const MS_PER_DAY: i64 = 86_400_000;

/// Every well-formed timestamp maps into this many milliseconds of the epoch,
/// in either direction (4,000,000 days plus one day's worth of milliseconds).
pub const EPOCH_MS_BOUND: i64 = 345_600_086_400_000;

impl Timestamp {
    /// The instant this timestamp denotes, as signed milliseconds from
    /// 1970-01-01 00:00:00.000.
    pub open spec fn epoch_ms(self) -> int {
        day_number(self.year as int, self.month as int, self.day as int) * (MS_PER_DAY as int)
            + self.ms_of_day()
    }

    /// Computes the instant of a well-formed timestamp on the millisecond
    /// time line.
    pub fn to_epoch_ms(&self) -> (r: i64)
        requires
            self.wf(),
        ensures
            r == self.epoch_ms(),
            -EPOCH_MS_BOUND < r < EPOCH_MS_BOUND,
    {
        let days = days_from_epoch(self.year, self.month, self.day);
        let tod: i64 = ((self.hour as i64 * 60 + self.minute as i64) * 60 + self.second as i64)
            * 1000 + self.millisecond as i64;
        days * MS_PER_DAY + tod
    }
}

} // verus!
