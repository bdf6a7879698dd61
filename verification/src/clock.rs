//! The bridge to the system clock and the local time zone, through
//! `chrono`.
//!
//! Which instant "now" is, and which epoch second a local calendar time
//! maps to, depend on the machine's clock and time zone; nothing beyond
//! the documented field ranges is assumed of them.  Everything computed
//! from these values is verified for every value they may take.

use vstd::prelude::*;
use chrono::Datelike;
use chrono::TimeZone;
use chrono::Timelike;
use crate::catalog::AudioEvent;
use crate::codec::Timestamp;
use crate::timeline::TimelineWindow;

verus! {

/// Relies on `std::time::SystemTime::now`, on
/// `chrono::DateTime::from_timestamp` (`None` outside chrono's range,
/// never a panic) and on the `Datelike`/`Timelike` accessors: in a
/// returned tuple the month is 1 to 12, the day 1 to 31, and hour,
/// minute and second are in range, as their documentation states.  A
/// clock reading before the Unix epoch yields `None`; which instant
/// comes back otherwise depends on the clock and time zone.
#[verifier::external_body]
pub fn now_local_parts() -> (r: Option<(i64, i32, u32, u32, u32, u32, u32)>)
    ensures
        r matches Some(p) ==> 1 <= p.2 <= 12 && 1 <= p.3 <= 31 && p.4 <= 23 && p.5 <= 59 && p.6
            <= 59,
{
    let elapsed = match std::time::SystemTime::now().duration_since(std::time::UNIX_EPOCH) {
        Ok(d) => d,
        Err(_) => return None,
    };
    let utc = chrono::DateTime::from_timestamp(elapsed.as_secs() as i64, elapsed.subsec_nanos())?;
    let now = utc.with_timezone(&chrono::Local);
    Some((
        now.timestamp(),
        now.year(),
        now.month(),
        now.day(),
        now.hour(),
        now.minute(),
        now.second(),
    ))
}

/// Relies on `chrono::NaiveDate` and `TimeZone::from_local_datetime`:
/// `None` when the fields form no valid local instant.  Which epoch
/// second a local time maps to depends on the machine's time zone, so
/// nothing is assumed about the value.
#[verifier::external_body]
pub fn local_epoch_of(
    year: i32,
    month: u32,
    day: u32,
    hour: u32,
    minute: u32,
    second: u32,
) -> (r: Option<i64>)
{
    let date = match chrono::NaiveDate::from_ymd_opt(year, month, day) {
        Some(d) => d,
        None => return None,
    };
    let naive = match date.and_hms_opt(hour, minute, second) {
        Some(t) => t,
        None => return None,
    };
    match chrono::Local.from_local_datetime(&naive) {
        chrono::LocalResult::Single(dt) => Some(dt.timestamp()),
        chrono::LocalResult::Ambiguous(dt, _) => Some(dt.timestamp()),
        chrono::LocalResult::None => None,
    }
}

/// The current wall-clock time, as a codec timestamp plus the epoch
/// second, or `None` should the clock be unreadable or report a year
/// outside the codec's range.
pub fn now_timestamp() -> (r: Option<(Timestamp, i64)>)
    ensures
        r matches Some(t) ==> t.0.valid(),
{
    let (epoch, y, mo, d, h, mi, s) = match now_local_parts() {
        Some(p) => p,
        None => return None,
    };
    if y < 0 || y > 9999 {
        return None;
    }
    match Timestamp::new(y as u16, mo as u8, d as u8, h as u8, mi as u8, s as u8) {
        Some(ts) => Some((ts, epoch)),
        None => None,
    }
}

/// The epoch second of a timestamp read in the local time zone, or
/// `None` when the zone has no such instant.
pub fn epoch_of_timestamp(t: &Timestamp) -> (r: Option<i64>) {
    local_epoch_of(
        t.year as i32,
        t.month as u32,
        t.day as u32,
        t.hour as u32,
        t.minute as u32,
        t.second as u32,
    )
}

/// The epoch second of each event, in event order; `None` where the
/// local time zone has no such instant.
pub fn event_epochs(events: &Vec<AudioEvent>) -> (r: Vec<Option<i64>>)
    ensures
        r@.len() == events@.len(),
{
    let mut out: Vec<Option<i64>> = Vec::new();
    let mut i: usize = 0;
    while i < events.len()
        invariant
            i <= events@.len(),
            out@.len() == i,
        decreases events@.len() - i,
    {
        let e = epoch_of_timestamp(&events[i].timestamp);
        out.push(e);
        i = i + 1;
    }
    out
}

/// The default view for the current moment: from the earliest event of
/// today minus the lead-in margin through now, falling back to the last
/// 24 hours; `None` when the clock is unreadable.
pub fn default_view_now(events: &Vec<AudioEvent>) -> (r: Option<TimelineWindow>)
    ensures
        r matches Some(w) ==> w.wf(),
{
    let (epoch_now, y, mo, d, _h, _mi, _s) = match now_local_parts() {
        Some(p) => p,
        None => return None,
    };
    let first_today: Option<i64> = if 0 <= y && y <= 9999 {
        match crate::timeline::first_event_on_day(events, y as u16, mo as u8, d as u8) {
            Some(i) => epoch_of_timestamp(&events[i].timestamp),
            None => None,
        }
    } else {
        None
    };
    TimelineWindow::default_view(first_today, epoch_now)
}

} // verus!
