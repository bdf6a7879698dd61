//! The visible time window of the viewer: pan and zoom arithmetic,
//! adaptive tick-interval selection and the mapping of timestamps to
//! positions.
//!
//! The window is a pair of epoch seconds with `visible_start <
//! visible_end` always enforced.  Pan shifts both bounds, pivot-relative
//! zoom scales the duration around a fixed point inside the window, and
//! both reject (as a no-op) any request that would leave the bounds
//! degenerate or outside the representable range, rather than corrupt the
//! view state.  Fractions (the zoom factor and the pivot) are passed as
//! integer ratios, so every operation is exact integer arithmetic.

use vstd::prelude::*;
use crate::catalog::AudioEvent;

verus! {

/// Bound on the epoch seconds the view window may reach (about 11,000
/// years from the epoch, comfortably past the codec's year 9999).
pub const TS_BOUND: i64 = 350_000_000_000;

/// The scale of a projected position: a fraction of the window in
/// millionths, 0 at `visible_start` and 1,000,000 at `visible_end`.
pub const PROJECTION_SCALE: u64 = 1_000_000;

/// The floor under the tick interval, in minutes; intervals are always a
/// multiple of this.
pub const TICK_QUANTUM_MINS: u64 = 15;

/// The visible time range of the timeline.
#[derive(Clone, Copy, Debug, PartialEq, Eq, Structural)]
pub struct TimelineWindow {
    /// Epoch seconds of the left edge.
    pub start_s: i64,
    /// Epoch seconds of the right edge; always after the left edge.
    pub end_s: i64,
}

impl TimelineWindow {
    /// The invariant every window keeps: non-degenerate and within the
    /// representable range.
    pub open spec fn wf(self) -> bool {
        -TS_BOUND <= self.start_s < self.end_s <= TS_BOUND
    }

    pub open spec fn duration_spec(self) -> int {
        self.end_s - self.start_s
    }

    /// Builds a window, rejecting a degenerate or out-of-range pair.
    pub fn new(start_s: i64, end_s: i64) -> (r: Option<TimelineWindow>)
        ensures
            r is Some <==> -TS_BOUND <= start_s < end_s <= TS_BOUND,
            r matches Some(w) ==> w == (TimelineWindow { start_s, end_s }) && w.wf(),
    {
        if -TS_BOUND <= start_s && start_s < end_s && end_s <= TS_BOUND {
            Some(TimelineWindow { start_s, end_s })
        } else {
            None
        }
    }

    /// The visible duration in seconds.
    pub fn duration_s(&self) -> (r: u64)
        requires
            self.wf(),
        ensures
            r == self.duration_spec(),
    {
        (self.end_s - self.start_s) as u64
    }

    /// What panning by `delta` does: both bounds shift by the same
    /// amount, or nothing moves if the shifted window would leave the
    /// representable range.
    pub open spec fn pan_spec(self, delta: int) -> TimelineWindow {
        if -TS_BOUND <= self.start_s + delta && self.end_s + delta <= TS_BOUND {
            TimelineWindow {
                start_s: (self.start_s + delta) as i64,
                end_s: (self.end_s + delta) as i64,
            }
        } else {
            self
        }
    }

    /// Shifts the window by `delta_s` seconds (negative shifts towards
    /// the past).  There is no clamping to any global extent: the view
    /// may scroll arbitrarily within the representable range.
    pub fn pan(&mut self, delta_s: i64)
        requires
            old(self).wf(),
        ensures
            *final(self) == old(self).pan_spec(delta_s as int),
            final(self).wf(),
    {
        let ns = self.start_s as i128 + delta_s as i128;
        let ne = self.end_s as i128 + delta_s as i128;
        if -TS_BOUND as i128 <= ns && ne <= TS_BOUND as i128 {
            self.start_s = ns as i64;
            self.end_s = ne as i64;
        }
    }

    /// The duration the zoomed window would have.
    pub open spec fn zoom_new_duration(self, f_num: int, f_den: int) -> int {
        ((self.end_s - self.start_s) * f_num) / f_den
    }

    /// The left edge the zoomed window would have: the pivot's absolute
    /// position, minus the pivot's share of the new duration.
    pub open spec fn zoom_new_start(self, f_num: int, f_den: int, p_num: int, p_den: int)
        -> int {
        let d = self.end_s - self.start_s;
        let pivot_t = self.start_s + (d * p_num) / p_den;
        pivot_t - (self.zoom_new_duration(f_num, f_den) * p_num) / p_den
    }

    /// Whether the zoom request is accepted: the new window must have at
    /// least one second of duration and stay in the representable range.
    pub open spec fn zoom_applies(self, f_num: int, f_den: int, p_num: int, p_den: int)
        -> bool {
        let nd = self.zoom_new_duration(f_num, f_den);
        let ns = self.zoom_new_start(f_num, f_den, p_num, p_den);
        1 <= nd && -TS_BOUND <= ns && ns + nd <= TS_BOUND
    }

    /// What the pivot-relative zoom does.  With duration `d`, the point
    /// held fixed is `start + d*pn/pd`; the new duration is `d*fn/fd`;
    /// both bounds are recomputed around the pivot.  A request whose new
    /// window would be degenerate (duration below one second) or out of
    /// range is a no-op.
    pub open spec fn zoom_spec(self, f_num: int, f_den: int, p_num: int, p_den: int)
        -> TimelineWindow {
        let nd = self.zoom_new_duration(f_num, f_den);
        let ns = self.zoom_new_start(f_num, f_den, p_num, p_den);
        if self.zoom_applies(f_num, f_den, p_num, p_den) {
            TimelineWindow { start_s: ns as i64, end_s: (ns + nd) as i64 }
        } else {
            self
        }
    }

    /// Zooms around the pivot.  The factor is the ratio
    /// `factor_num / factor_den` (above one zooms out, below one zooms
    /// in); the pivot fraction `pivot_num / pivot_den` lies in `[0, 1]`
    /// and names the point of the current window that stays fixed.
    pub fn zoom(&mut self, factor_num: u32, factor_den: u32, pivot_num: u32, pivot_den: u32)
        requires
            old(self).wf(),
            factor_den >= 1,
            pivot_den >= 1,
            pivot_num <= pivot_den,
        ensures
            *final(self) == old(self).zoom_spec(
                factor_num as int,
                factor_den as int,
                pivot_num as int,
                pivot_den as int,
            ),
            final(self).wf(),
    {
        let d: u64 = (self.end_s - self.start_s) as u64;
        proof {
            assert((d as int) * (pivot_num as int) <= 2 * TS_BOUND * (u32::MAX as int))
                by (nonlinear_arith)
                requires
                    d <= 2 * TS_BOUND,
                    pivot_num <= u32::MAX,
            ;
            assert((d as int) * (factor_num as int) <= 2 * TS_BOUND * (u32::MAX as int))
                by (nonlinear_arith)
                requires
                    d <= 2 * TS_BOUND,
                    factor_num <= u32::MAX,
            ;
        }
        let off128: u128 = (d as u128) * (pivot_num as u128) / (pivot_den as u128);
        proof {
            lemma_mul_div_le(d as int, pivot_num as int, pivot_den as int);
        }
        let off: u64 = off128 as u64;
        let pivot_t: i64 = self.start_s + off as i64;
        let nd128: u128 = (d as u128) * (factor_num as u128) / (factor_den as u128);
        if nd128 < 1 {
            return;
        }
        if nd128 > 2 * TS_BOUND as u128 {
            // The new duration alone already exceeds the representable
            // range, so the request is rejected either way.
            proof {
                let fni = factor_num as int;
                let fdi = factor_den as int;
                let pni = pivot_num as int;
                let pdi = pivot_den as int;
                if self.zoom_applies(fni, fdi, pni, pdi) {
                    let nd = self.zoom_new_duration(fni, fdi);
                    let ns = self.zoom_new_start(fni, fdi, pni, pdi);
                    assert(-TS_BOUND <= ns && ns + nd <= TS_BOUND);
                    assert(nd <= 2 * TS_BOUND);
                }
            }
            return;
        }
        let nd: u64 = nd128 as u64;
        proof {
            assert((nd as int) * (pivot_num as int) <= 2 * TS_BOUND * (u32::MAX as int))
                by (nonlinear_arith)
                requires
                    nd <= 2 * TS_BOUND,
                    pivot_num <= u32::MAX,
            ;
        }
        let back128: u128 = (nd as u128) * (pivot_num as u128) / (pivot_den as u128);
        proof {
            lemma_mul_div_le(nd as int, pivot_num as int, pivot_den as int);
        }
        let back: u64 = back128 as u64;
        let ns: i64 = pivot_t - back as i64;
        let ne: i64 = ns + nd as i64;
        if -TS_BOUND <= ns && ne <= TS_BOUND {
            self.start_s = ns;
            self.end_s = ne;
        }
    }

    /// The projected position of an instant, in millionths of the window.
    pub open spec fn projection_spec(self, t: int) -> int {
        ((t - self.start_s) * (PROJECTION_SCALE as int)) / (self.end_s - self.start_s)
    }

    /// Maps a timestamp linearly into the visible window: `None` when it
    /// lies outside, otherwise its position as a fraction of the window
    /// in millionths (0 at the left edge, 1,000,000 at the right).
    pub fn project(&self, t_s: i64) -> (r: Option<u64>)
        requires
            self.wf(),
        ensures
            r is Some <==> self.start_s <= t_s <= self.end_s,
            r matches Some(f) ==> f == self.projection_spec(t_s as int) && f <= PROJECTION_SCALE,
    {
        if t_s < self.start_s || t_s > self.end_s {
            return None;
        }
        let num: u64 = ((t_s - self.start_s) as u64) * PROJECTION_SCALE;
        let den: u64 = (self.end_s - self.start_s) as u64;
        let f = num / den;
        proof {
            lemma_div_le_div(num as int, (PROJECTION_SCALE * den) as int, den as int);
            assert(((PROJECTION_SCALE * den) as int) / (den as int) == PROJECTION_SCALE)
                by (nonlinear_arith)
                requires
                    den >= 1,
            ;
        }
        Some(f)
    }

    /// What the adaptive tick interval is, in minutes: the least multiple
    /// of the 15-minute quantum that is at least the ceiling of
    /// `duration / max_labels`, where `max_labels` is how many labels of
    /// `min_px` pixels fit in `pixel_width` pixels.
    pub open spec fn tick_interval_spec(self, pixel_width: int, min_px: int) -> int {
        let max_labels = pixel_width / min_px;
        let dur_s = self.end_s - self.start_s;
        let raw_mins = (dur_s + 60 * max_labels - 1) / (60 * max_labels);
        let floored = if raw_mins < TICK_QUANTUM_MINS as int {
            TICK_QUANTUM_MINS as int
        } else {
            raw_mins
        };
        ((floored + TICK_QUANTUM_MINS as int - 1) / (TICK_QUANTUM_MINS as int))
            * (TICK_QUANTUM_MINS as int)
    }

    /// Chooses the tick interval for a given surface width and minimum
    /// label spacing.  The result is never below 15 minutes, always a
    /// multiple of 15 minutes, and coarse enough that the ticks across
    /// the window never outnumber the labels that fit.
    pub fn tick_interval_mins(&self, pixel_width: u32, min_pixels_per_label: u32) -> (r: u64)
        requires
            self.wf(),
            1 <= min_pixels_per_label <= pixel_width,
        ensures
            r == self.tick_interval_spec(pixel_width as int, min_pixels_per_label as int),
            r >= TICK_QUANTUM_MINS,
            r % TICK_QUANTUM_MINS == 0,
            self.duration_spec() <= r * 60 * (pixel_width as int / min_pixels_per_label as int),
    {
        let max_labels: u64 = (pixel_width / min_pixels_per_label) as u64;
        proof {
            assert(max_labels >= 1) by (nonlinear_arith)
                requires
                    max_labels == pixel_width as int / min_pixels_per_label as int,
                    pixel_width >= min_pixels_per_label >= 1,
            ;
        }
        let dur_s: u64 = (self.end_s - self.start_s) as u64;
        let denom: u64 = 60 * max_labels;
        let raw_mins: u64 = (dur_s + denom - 1) / denom;
        proof {
            assert(raw_mins <= dur_s + denom - 1) by (nonlinear_arith)
                requires
                    raw_mins == (dur_s + denom - 1) as int / denom as int,
                    denom >= 1,
                    dur_s >= 0,
            ;
        }
        let floored: u64 = if raw_mins < TICK_QUANTUM_MINS {
            TICK_QUANTUM_MINS
        } else {
            raw_mins
        };
        let r: u64 = ((floored + TICK_QUANTUM_MINS - 1) / TICK_QUANTUM_MINS) * TICK_QUANTUM_MINS;
        proof {
            let fl = floored as int;
            let q = TICK_QUANTUM_MINS as int;
            let ri = r as int;
            assert(ri == ((fl + q - 1) / q) * q);
            assert(ri >= fl && ri % q == 0) by (nonlinear_arith)
                requires
                    ri == ((fl + q - 1) / q) * q,
                    q == 15,
                    fl >= 15,
            ;
            let dn = denom as int;
            let rawi = raw_mins as int;
            assert(rawi * dn >= dur_s) by (nonlinear_arith)
                requires
                    rawi == (dur_s + dn - 1) / dn,
                    dn >= 60,
                    dur_s >= 0,
            ;
            assert(ri * dn >= rawi * dn) by (nonlinear_arith)
                requires
                    ri >= rawi,
                    dn >= 0,
            ;
            let li = pixel_width as int / min_pixels_per_label as int;
            assert(ri * 60 * li == ri * dn) by (nonlinear_arith)
                requires
                    dn == 60 * li,
            ;
        }
        r
    }
}

pub const SECONDS_PER_HOUR: i64 = 3600;

pub const SECONDS_PER_DAY: i64 = 86400;

pub const SECONDS_PER_WEEK: i64 = 604800;

/// How far before the first event of the day the default view begins.
pub const DEFAULT_LEAD_IN_S: i64 = 1200;

/// Ceiling against the tick interval, so that the tick step in seconds
/// stays far from any machine limit.
pub const MAX_TICK_INTERVAL_MINS: u64 = 1_000_000_000_000;

impl TimelineWindow {
    /// The window covering the last `span` seconds before `now`, if it is
    /// representable.
    pub open spec fn trailing_spec(now: int, span: int) -> Option<TimelineWindow> {
        if -TS_BOUND <= now - span && now <= TS_BOUND {
            Some(TimelineWindow { start_s: (now - span) as i64, end_s: now as i64 })
        } else {
            None
        }
    }

    /// The "last hour" preset.
    pub fn last_hour(now_s: i64) -> (r: Option<TimelineWindow>)
        ensures
            r == Self::trailing_spec(now_s as int, SECONDS_PER_HOUR as int),
            r matches Some(w) ==> w.wf(),
    {
        Self::trailing(now_s, SECONDS_PER_HOUR)
    }

    /// The "last 24 hours" preset.
    pub fn last_day(now_s: i64) -> (r: Option<TimelineWindow>)
        ensures
            r == Self::trailing_spec(now_s as int, SECONDS_PER_DAY as int),
            r matches Some(w) ==> w.wf(),
    {
        Self::trailing(now_s, SECONDS_PER_DAY)
    }

    /// The "last week" preset.
    pub fn last_week(now_s: i64) -> (r: Option<TimelineWindow>)
        ensures
            r == Self::trailing_spec(now_s as int, SECONDS_PER_WEEK as int),
            r matches Some(w) ==> w.wf(),
    {
        Self::trailing(now_s, SECONDS_PER_WEEK)
    }

    /// The window covering the last `span_s` seconds before `now_s`.
    pub fn trailing(now_s: i64, span_s: i64) -> (r: Option<TimelineWindow>)
        requires
            1 <= span_s,
        ensures
            r == Self::trailing_spec(now_s as int, span_s as int),
            r matches Some(w) ==> w.wf(),
    {
        let ns = now_s as i128 - span_s as i128;
        if -TS_BOUND as i128 <= ns && now_s <= TS_BOUND {
            Some(TimelineWindow { start_s: ns as i64, end_s: now_s })
        } else {
            None
        }
    }

    /// What the default view is: from the earliest event of the current
    /// calendar day minus the lead-in margin through now, falling back to
    /// the last 24 hours when no event exists today (or when that span
    /// would be degenerate or out of range).
    pub open spec fn default_spec(first_today: Option<i64>, now: int) -> Option<TimelineWindow> {
        match first_today {
            Some(t) => {
                let s = t - DEFAULT_LEAD_IN_S;
                if -TS_BOUND <= s && s < now <= TS_BOUND {
                    Some(TimelineWindow { start_s: s as i64, end_s: now as i64 })
                } else {
                    Self::trailing_spec(now, SECONDS_PER_DAY as int)
                }
            },
            None => Self::trailing_spec(now, SECONDS_PER_DAY as int),
        }
    }

    /// The default view, from the epoch second of the earliest event of
    /// the current calendar day (if any) and the current epoch second.
    pub fn default_view(first_today_s: Option<i64>, now_s: i64) -> (r: Option<TimelineWindow>)
        ensures
            r == Self::default_spec(first_today_s, now_s as int),
            r matches Some(w) ==> w.wf(),
    {
        match first_today_s {
            Some(t) => {
                let s = t as i128 - DEFAULT_LEAD_IN_S as i128;
                if -TS_BOUND as i128 <= s && s < now_s as i128 && now_s <= TS_BOUND {
                    Some(TimelineWindow { start_s: s as i64, end_s: now_s })
                } else {
                    Self::trailing(now_s, SECONDS_PER_DAY)
                }
            },
            None => Self::trailing(now_s, SECONDS_PER_DAY),
        }
    }

    /// The first multiple of `step_s` at or after the left edge.
    pub open spec fn first_tick_spec(self, step_s: int) -> int {
        ((self.start_s + step_s - 1) / step_s) * step_s
    }

    /// The axis marks for one tick interval: every multiple of the
    /// interval that lies inside the visible window, ascending, in epoch
    /// seconds.
    pub fn tick_marks_s(&self, interval_mins: u64) -> (r: Vec<i64>)
        requires
            self.wf(),
            1 <= interval_mins <= MAX_TICK_INTERVAL_MINS,
        ensures
            ({
                let step = 60 * interval_mins as int;
                let first = self.first_tick_spec(step);
                &&& forall|k: int| 0 <= k < r@.len() ==> #[trigger] r@[k] == first + k * step
                &&& (r@.len() == 0 <==> first > self.end_s)
                &&& r@.len() > 0 ==> first + (r@.len() - 1) * step <= self.end_s < first + r@.len()
                    * step
            }),
    {
        let step: i64 = (60 * interval_mins) as i64;
        let ghost step_i = step as int;
        let first: i64 = if self.start_s >= 0 {
            let a = self.start_s as u64;
            let st = step as u64;
            let rem = a % st;
            proof {
                let ai = a as int;
                let sti = st as int;
                let q = ai / sti;
                vstd::arithmetic::div_mod::lemma_fundamental_div_mod(ai, sti);
                assert(sti * q == q * sti) by (nonlinear_arith);
                if rem == 0 {
                    vstd::arithmetic::div_mod::lemma_fundamental_div_mod_converse(
                        ai + sti - 1,
                        sti,
                        q,
                        sti - 1,
                    );
                } else {
                    assert((q + 1) * sti == q * sti + sti) by (nonlinear_arith);
                    vstd::arithmetic::div_mod::lemma_fundamental_div_mod_converse(
                        ai + sti - 1,
                        sti,
                        q + 1,
                        rem - 1,
                    );
                }
            }
            if rem == 0 {
                self.start_s
            } else {
                (a - rem + st) as i64
            }
        } else {
            let a = (-self.start_s) as u64;
            let st = step as u64;
            let rem = a % st;
            proof {
                let ai = a as int;
                let sti = st as int;
                let q = ai / sti;
                vstd::arithmetic::div_mod::lemma_fundamental_div_mod(ai, sti);
                assert(sti * q == q * sti) by (nonlinear_arith);
                assert((-q) * sti == -(q * sti)) by (nonlinear_arith);
                if rem == 0 {
                    vstd::arithmetic::div_mod::lemma_fundamental_div_mod_converse(
                        -ai + sti - 1,
                        sti,
                        -q,
                        sti - 1,
                    );
                } else {
                    vstd::arithmetic::div_mod::lemma_fundamental_div_mod_converse(
                        -ai + sti - 1,
                        sti,
                        -q,
                        sti - 1 - rem,
                    );
                }
            }
            -((a - rem) as i64)
        };
        assert(first == self.first_tick_spec(step_i));
        proof {
            vstd::arithmetic::div_mod::lemma_fundamental_div_mod(
                self.start_s + step_i - 1,
                step_i,
            );
            assert(self.start_s <= first < self.start_s + step_i);
        }
        let mut marks: Vec<i64> = Vec::new();
        proof {
            assert(marks@.len() * step_i == 0) by (nonlinear_arith)
                requires
                    marks@.len() == 0,
            ;
        }
        let mut t: i64 = first;
        while t <= self.end_s
            invariant
                self.wf(),
                60 <= step_i == step <= 100_000_000_000_000,
                first == self.first_tick_spec(step_i),
                self.start_s <= first < self.start_s + step_i,
                t == first + marks@.len() * step_i,
                forall|k: int| 0 <= k < marks@.len() ==> #[trigger] marks@[k] == first + k * step_i,
                marks@.len() > 0 ==> t - step_i <= self.end_s,
            decreases self.end_s + step_i - t,
        {
            marks.push(t);
            proof {
                assert(t + step_i == first + (marks@.len()) * step_i) by (nonlinear_arith)
                    requires
                        t == first + (marks@.len() - 1) * step_i,
                ;
            }
            t = t + step;
        }
        proof {
            if marks@.len() > 0 {
                assert(first + (marks@.len() - 1) * step_i == t - step_i) by (nonlinear_arith)
                    requires
                        t == first + marks@.len() * step_i,
                ;
            }
        }
        marks
    }
}

/// Whether the event's timestamp falls on the given calendar day.
pub open spec fn on_day(e: AudioEvent, year: u16, month: u8, day: u8) -> bool {
    e.timestamp.year == year && e.timestamp.month == month && e.timestamp.day == day
}

/// The index of the earliest listed event on the given calendar day, or
/// `None` when no event falls on it.
pub fn first_event_on_day(events: &Vec<AudioEvent>, year: u16, month: u8, day: u8) -> (r: Option<
    usize,
>)
    ensures
        match r {
            Some(i) => i < events@.len() && on_day(events@[i as int], year, month, day) && forall|
                k: int,
            | 0 <= k < i ==> !on_day(#[trigger] events@[k], year, month, day),
            None => forall|k: int|
                0 <= k < events@.len() ==> !on_day(#[trigger] events@[k], year, month, day),
        },
{
    let mut i: usize = 0;
    while i < events.len()
        invariant
            i <= events@.len(),
            forall|k: int| 0 <= k < i ==> !on_day(#[trigger] events@[k], year, month, day),
        decreases events@.len() - i,
    {
        let e = &events[i];
        if e.timestamp.year == year && e.timestamp.month == month && e.timestamp.day == day {
            return Some(i);
        }
        i = i + 1;
    }
    None
}

/// Whether two timestamps fall on the same calendar day.
pub open spec fn same_day(a: crate::codec::Timestamp, b: crate::codec::Timestamp) -> bool {
    a.year == b.year && a.month == b.month && a.day == b.day
}

/// Marks, for each listed event, whether it opens a new calendar day:
/// the first event does, and so does every event whose day differs from
/// its predecessor's.  The viewer puts a day heading above each marked
/// event.
pub fn day_group_starts(events: &Vec<AudioEvent>) -> (r: Vec<bool>)
    ensures
        r@.len() == events@.len(),
        forall|i: int|
            0 <= i < r@.len() ==> #[trigger] r@[i] == (i == 0 || !same_day(
                events@[i - 1].timestamp,
                events@[i].timestamp,
            )),
{
    let mut r: Vec<bool> = Vec::new();
    let mut i: usize = 0;
    while i < events.len()
        invariant
            i <= events@.len(),
            r@.len() == i,
            forall|k: int|
                0 <= k < i ==> #[trigger] r@[k] == (k == 0 || !same_day(
                    events@[k - 1].timestamp,
                    events@[k].timestamp,
                )),
        decreases events@.len() - i,
    {
        let starts: bool = if i == 0 {
            true
        } else {
            let a = &events[i - 1].timestamp;
            let b = &events[i].timestamp;
            !(a.year == b.year && a.month == b.month && a.day == b.day)
        };
        r.push(starts);
        i = i + 1;
    }
    r
}

/// The largest summary maximum among the events whose epoch second lies
/// in the window (0 when none does or none has a summary).
pub open spec fn max_peak_spec(
    events: Seq<AudioEvent>,
    epochs: Seq<Option<i64>>,
    w: TimelineWindow,
) -> u16
    decreases events.len(),
{
    if events.len() == 0 {
        0
    } else {
        let rest = max_peak_spec(events.drop_last(), epochs.drop_last(), w);
        let cur = match epochs.last() {
            Some(e) => if w.start_s <= e <= w.end_s {
                match events.last().stats {
                    Some(st) => st.max,
                    None => 0,
                }
            } else {
                0
            },
            None => 0,
        };
        if cur >= rest {
            cur
        } else {
            rest
        }
    }
}

/// The loudest visible summary maximum, which the renderer scales the
/// vertical axis by.
pub fn max_visible_peak(
    events: &Vec<AudioEvent>,
    epochs: &Vec<Option<i64>>,
    w: &TimelineWindow,
) -> (r: u16)
    requires
        events@.len() == epochs@.len(),
    ensures
        r == max_peak_spec(events@, epochs@, *w),
{
    let mut r: u16 = 0;
    let mut i: usize = 0;
    while i < events.len()
        invariant
            i <= events@.len() == epochs@.len(),
            r == max_peak_spec(events@.take(i as int), epochs@.take(i as int), *w),
        decreases events@.len() - i,
    {
        let cur: u16 = match epochs[i] {
            Some(e) => {
                if w.start_s <= e && e <= w.end_s {
                    match &events[i].stats {
                        Some(st) => st.max,
                        None => 0,
                    }
                } else {
                    0
                }
            },
            None => 0,
        };
        if cur > r {
            r = cur;
        }
        proof {
            assert(events@.take(i + 1).drop_last() =~= events@.take(i as int));
            assert(epochs@.take(i + 1).drop_last() =~= epochs@.take(i as int));
            assert(events@.take(i + 1).last() == events@[i as int]);
            assert(epochs@.take(i + 1).last() == epochs@[i as int]);
        }
        i = i + 1;
    }
    proof {
        assert(events@.take(events@.len() as int) =~= events@);
        assert(epochs@.take(epochs@.len() as int) =~= epochs@);
    }
    r
}

/// `0 <= (a*n)/d <= a` whenever `0 <= n <= d`.
proof fn lemma_mul_div_le(a: int, n: int, d: int)
    requires
        a >= 0,
        0 <= n <= d,
        d >= 1,
    ensures
        0 <= (a * n) / d <= a,
{
    assert(0 <= (a * n) / d <= a) by (nonlinear_arith)
        requires
            a >= 0,
            0 <= n <= d,
            d >= 1,
    ;
}

/// Division by a positive divisor is monotone in the dividend.
proof fn lemma_div_le_div(a: int, b: int, d: int)
    requires
        0 <= a <= b,
        d >= 1,
    ensures
        a / d <= b / d,
{
    assert(a / d <= b / d) by (nonlinear_arith)
        requires
            0 <= a <= b,
            d >= 1,
    ;
}

/// The pivot-relative zoom law: zooming out by a whole factor and then
/// back in by its inverse, around the same pivot, restores the original
/// window exactly, whenever the zoom out was not rejected as out of
/// range.
pub proof fn lemma_zoom_round_trip(w: TimelineWindow, f: int, p_num: int, p_den: int)
    requires
        w.wf(),
        f >= 1,
        p_den >= 1,
        0 <= p_num <= p_den,
        w.zoom_applies(f, 1, p_num, p_den),
    ensures
        w.zoom_spec(f, 1, p_num, p_den).zoom_spec(1, f, p_num, p_den) == w,
{
    let d = w.end_s - w.start_s;
    let off = (d * p_num) / p_den;
    let pivot_t = w.start_s + off;
    let nd1 = w.zoom_new_duration(f, 1);
    assert(nd1 == d * f);
    let ns1 = w.zoom_new_start(f, 1, p_num, p_den);
    let w1 = w.zoom_spec(f, 1, p_num, p_den);
    assert(w1.start_s == ns1 && w1.end_s == ns1 + nd1);
    let d2 = w1.end_s - w1.start_s;
    assert(d2 == d * f);
    let nd2 = w1.zoom_new_duration(1, f);
    assert(nd2 == (d * f) / f);
    assert(nd2 == d) by (nonlinear_arith)
        requires
            nd2 == (d * f) / f,
            f >= 1,
            d >= 0,
    ;
    let off2 = (d2 * p_num) / p_den;
    let pivot_t2 = w1.start_s + off2;
    assert(off2 == (nd1 * p_num) / p_den);
    assert(pivot_t2 == pivot_t);
    let back2 = (nd2 * p_num) / p_den;
    assert(back2 == off);
    let ns2 = w1.zoom_new_start(1, f, p_num, p_den);
    assert(ns2 == w.start_s);
    assert(ns2 + nd2 == w.end_s);
    assert(w1.zoom_applies(1, f, p_num, p_den));
    assert(w1.zoom_spec(1, f, p_num, p_den) == w);
}

} // verus!
