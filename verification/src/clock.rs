//! The current civil date and time, read through chrono. The trusted
//! wrappers state only what chrono documents of every outcome; the checked
//! constructors below them re-validate the parts against this library's
//! date model.

use vstd::prelude::*;
use chrono::{Datelike, Timelike};

verus! {

use crate::date::{Date, Timestamp, date_valid, date_in_range, timestamp_valid, timestamp_in_range};

/// Relies on chrono's `Utc::now` and the `Datelike` accessors: the month of
/// a civil date is in 1..=12 and the day in 1..=31.
#[verifier::external_body]
fn utc_today_parts() -> (r: (i64, u8, u8))
    ensures
        1 <= r.1 <= 12,
        1 <= r.2 <= 31,
{
    let d = chrono::Utc::now().date_naive();
    (d.year() as i64, d.month() as u8, d.day() as u8)
}

/// Relies on chrono's `Local::now` and the `Datelike` accessors: the month
/// of a civil date is in 1..=12 and the day in 1..=31.
#[verifier::external_body]
fn local_today_parts() -> (r: (i64, u8, u8))
    ensures
        1 <= r.1 <= 12,
        1 <= r.2 <= 31,
{
    let d = chrono::Local::now().date_naive();
    (d.year() as i64, d.month() as u8, d.day() as u8)
}

/// Relies on chrono's `Utc::now` with the `Datelike` and `Timelike`
/// accessors: month 1..=12, day 1..=31, hour 0..=23, minute and second
/// 0..=59 (a leap second is carried in the subsecond part).
#[verifier::external_body]
fn utc_now_parts() -> (r: (i64, u8, u8, u8, u8, u8))
    ensures
        1 <= r.1 <= 12,
        1 <= r.2 <= 31,
        r.3 < 24,
        r.4 < 60,
        r.5 < 60,
{
    let t = chrono::Utc::now().naive_utc();
    (
        t.year() as i64,
        t.month() as u8,
        t.day() as u8,
        t.hour() as u8,
        t.minute() as u8,
        t.second() as u8,
    )
}

/// The current UTC calendar date, when it lies in this library's range of
/// years; whatever the clock returned, a `Some` is a valid date.
pub fn today_utc() -> (r: Option<Date>)
    ensures
        r is Some ==> date_valid(r->0),
{
    let (y, m, d) = utc_today_parts();
    if 0 <= y && y <= 9999 {
        let date = Date { year: y as u16, month: m, day: d };
        if date_in_range(date) {
            return Some(date);
        }
    }
    None
}

/// The current local calendar date, under the same guarantee as `today_utc`.
pub fn today_local() -> (r: Option<Date>)
    ensures
        r is Some ==> date_valid(r->0),
{
    let (y, m, d) = local_today_parts();
    if 0 <= y && y <= 9999 {
        let date = Date { year: y as u16, month: m, day: d };
        if date_in_range(date) {
            return Some(date);
        }
    }
    None
}

/// The current UTC date and time, when it lies in this library's range;
/// whatever the clock returned, a `Some` is a valid timestamp.
pub fn now_utc() -> (r: Option<Timestamp>)
    ensures
        r is Some ==> timestamp_valid(r->0),
{
    let (y, m, d, h, mi, s) = utc_now_parts();
    if 0 <= y && y <= 9999 {
        let ts = Timestamp {
            date: Date { year: y as u16, month: m, day: d },
            hour: h,
            minute: mi,
            second: s,
        };
        if timestamp_in_range(ts) {
            return Some(ts);
        }
    }
    None
}

} // verus!
