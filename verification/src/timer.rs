//! Time-based primitives: a one-shot countdown, a repeating trigger and a
//! two-state blink switch. All times are fixed-point seconds.
use vstd::prelude::*;
use crate::fixed::{UNIT, FX_MAX, sat, div_spec, clamp_spec, fx_div, fx_clamp, narrow};

verus! {

/// A negative time counts as no time at all.
pub open spec fn nonneg(v: int) -> int {
    if v < 0 { 0 } else { v }
}

/// One-shot countdown from zero to `time_end`.
#[derive(Clone, Copy, Debug, PartialEq, Eq, Structural)]
pub struct TimerSimple {
    /// Time elapsed since the last start.
    pub time_cur: i64,
    /// Duration of the countdown.
    pub time_end: i64,
    /// Whether the countdown has been started and not stopped since.
    pub started: bool,
}

impl TimerSimple {
    /// Elapsed time lies between zero and the duration.
    pub open spec fn wf(self) -> bool {
        0 <= self.time_cur <= self.time_end
    }

    pub open spec fn finished(self) -> bool {
        self.time_cur >= self.time_end
    }

    pub open spec fn running(self) -> bool {
        self.started && self.time_cur < self.time_end
    }

    /// Elapsed share of the duration, between 0 and `UNIT`. A countdown
    /// without duration is complete from the start.
    pub open spec fn ratio(self) -> int {
        if self.time_end <= 0 {
            UNIT as int
        } else {
            clamp_spec(div_spec(self.time_cur as int, self.time_end as int), 0, UNIT as int)
        }
    }

    /// The timer after `dt` more seconds: a started timer advances, but never
    /// past its duration; a stopped one stays as it is.
    pub open spec fn advanced(self, dt: int) -> TimerSimple {
        if !self.started {
            self
        } else {
            let t = self.time_cur + nonneg(dt);
            TimerSimple {
                time_cur: (if t > self.time_end { self.time_end as int } else { t }) as i64,
                ..self
            }
        }
    }

    pub open spec fn new_started_spec(duration: int) -> TimerSimple {
        TimerSimple { time_cur: 0, time_end: nonneg(duration) as i64, started: true }
    }

    pub open spec fn new_stopped_spec(duration: int) -> TimerSimple {
        TimerSimple { time_cur: 0, time_end: nonneg(duration) as i64, started: false }
    }

    /// A countdown of `duration` seconds that runs from now on.
    pub fn new_started(duration: i64) -> (t: TimerSimple)
        ensures
            t == Self::new_started_spec(duration as int),
            t.wf(),
    {
        TimerSimple { time_cur: 0, time_end: if duration < 0 { 0 } else { duration }, started: true }
    }

    /// A countdown of `duration` seconds that waits for `restart`.
    pub fn new_stopped(duration: i64) -> (t: TimerSimple)
        ensures
            t == Self::new_stopped_spec(duration as int),
            t.wf(),
            !t.running(),
    {
        TimerSimple { time_cur: 0, time_end: if duration < 0 { 0 } else { duration }, started: false }
    }

    pub fn update(&mut self, deltatime: i64)
        ensures
            *final(self) == old(self).advanced(deltatime as int),
            old(self).wf() ==> final(self).wf(),
    {
        if self.started {
            let dt: i64 = if deltatime < 0 { 0 } else { deltatime };
            let t: i128 = self.time_cur as i128 + dt as i128;
            if t > self.time_end as i128 {
                self.time_cur = self.time_end;
            } else {
                self.time_cur = t as i64;
            }
        }
    }

    /// Advances the timer and reports whether this very update completed it.
    pub fn update_and_check_if_triggered(&mut self, deltatime: i64) -> (fired: bool)
        ensures
            *final(self) == old(self).advanced(deltatime as int),
            fired == (!old(self).finished() && final(self).finished()),
            old(self).wf() ==> final(self).wf(),
    {
        let before: bool = self.is_finished();
        self.update(deltatime);
        !before && self.is_finished()
    }

    pub fn is_running(&self) -> (r: bool)
        ensures
            r == self.running(),
    {
        self.started && self.time_cur < self.time_end
    }

    pub fn is_finished(&self) -> (r: bool)
        ensures
            r == self.finished(),
    {
        self.time_cur >= self.time_end
    }

    pub fn completion_ratio(&self) -> (r: i64)
        ensures
            r == self.ratio(),
            0 <= r <= UNIT,
    {
        if self.time_end <= 0 {
            UNIT
        } else {
            fx_clamp(fx_div(self.time_cur, self.time_end), 0, UNIT)
        }
    }

    /// Freezes the timer at zero elapsed time.
    pub fn stop(&mut self)
        ensures
            *final(self) == (TimerSimple { time_cur: 0, started: false, ..*old(self) }),
            !final(self).running(),
    {
        self.time_cur = 0;
        self.started = false;
    }

    /// Starts the countdown over.
    pub fn restart(&mut self)
        ensures
            *final(self) == (TimerSimple { time_cur: 0, started: true, ..*old(self) }),
    {
        self.time_cur = 0;
        self.started = true;
    }
}

/// A restarted countdown of positive duration reports ratio 0; one update by
/// the full duration then completes it with ratio `UNIT`.
pub proof fn lemma_restart_roundtrip(t: TimerSimple)
    requires
        t.time_end > 0,
    ensures
        ({
            let r = TimerSimple { time_cur: 0, started: true, ..t };
            &&& r.ratio() == 0
            &&& r.advanced(t.time_end as int).ratio() == UNIT
            &&& r.advanced(t.time_end as int).finished()
        }),
{
    let d = t.time_end as int;
    assert((d * UNIT) / d == UNIT) by (nonlinear_arith)
        requires
            d > 0,
    ;
    assert(0int / d == 0) by (nonlinear_arith)
        requires
            d > 0,
    ;
    assert(0 * UNIT == 0);
}

/// Trigger that comes due every `time_repeat` seconds, after a first period
/// that may differ.
#[derive(Clone, Copy, Debug, PartialEq, Eq, Structural)]
pub struct TriggerRepeating {
    /// Time accumulated toward the period in progress.
    pub time_cur: i64,
    /// Length of the period in progress.
    pub time_interval: i64,
    /// Length of every later period.
    pub time_repeat: i64,
}

impl TriggerRepeating {
    pub open spec fn wf(self) -> bool {
        0 <= self.time_cur && 0 <= self.time_interval && 0 <= self.time_repeat
    }

    pub open spec fn new_spec(interval: int) -> TriggerRepeating {
        TriggerRepeating {
            time_cur: 0,
            time_interval: nonneg(interval) as i64,
            time_repeat: nonneg(interval) as i64,
        }
    }

    pub open spec fn new_distinct_spec(first: int, repeat: int) -> TriggerRepeating {
        TriggerRepeating {
            time_cur: 0,
            time_interval: nonneg(first) as i64,
            time_repeat: nonneg(repeat) as i64,
        }
    }

    /// Whether an update by `dt` fires.
    pub open spec fn fires(self, dt: int) -> bool {
        self.time_cur + nonneg(dt) >= self.time_interval
    }

    /// The trigger after an update by `dt`: when due it gives up one period
    /// and keeps the rest, and the later period length takes over.
    pub open spec fn stepped(self, dt: int) -> TriggerRepeating {
        let t = self.time_cur + nonneg(dt);
        if t >= self.time_interval {
            TriggerRepeating {
                time_cur: sat(t - self.time_interval) as i64,
                time_interval: self.time_repeat,
                time_repeat: self.time_repeat,
            }
        } else {
            TriggerRepeating { time_cur: t as i64, ..self }
        }
    }

    pub fn new(interval: i64) -> (t: TriggerRepeating)
        ensures
            t == Self::new_spec(interval as int),
            t.wf(),
    {
        let i: i64 = if interval < 0 { 0 } else { interval };
        TriggerRepeating { time_cur: 0, time_interval: i, time_repeat: i }
    }

    pub fn new_with_distinct_triggertimes(first: i64, repeat: i64) -> (t: TriggerRepeating)
        ensures
            t == Self::new_distinct_spec(first as int, repeat as int),
            t.wf(),
    {
        TriggerRepeating {
            time_cur: 0,
            time_interval: if first < 0 { 0 } else { first },
            time_repeat: if repeat < 0 { 0 } else { repeat },
        }
    }

    /// Accumulates `deltatime` and reports whether the trigger came due. A
    /// trigger that is due several times over fires once per call and carries
    /// the surplus into the next one.
    pub fn update_and_check(&mut self, deltatime: i64) -> (fired: bool)
        ensures
            fired == old(self).fires(deltatime as int),
            *final(self) == old(self).stepped(deltatime as int),
            old(self).wf() ==> final(self).wf(),
    {
        let dt: i64 = if deltatime < 0 { 0 } else { deltatime };
        let t: i128 = self.time_cur as i128 + dt as i128;
        if t >= self.time_interval as i128 {
            self.time_cur = narrow(t - self.time_interval as i128);
            self.time_interval = self.time_repeat;
            true
        } else {
            self.time_cur = t as i64;
            false
        }
    }
}

/// Sum of a sequence of time steps.
pub open spec fn total_time(dts: Seq<int>) -> int
    decreases dts.len(),
{
    if dts.len() == 0 {
        0
    } else {
        total_time(dts.drop_last()) + dts.last()
    }
}

/// The trigger after one update for every step of `dts`, in order.
pub open spec fn trigger_after(t: TriggerRepeating, dts: Seq<int>) -> TriggerRepeating
    decreases dts.len(),
{
    if dts.len() == 0 {
        t
    } else {
        trigger_after(t, dts.drop_last()).stepped(dts.last())
    }
}

/// How often the trigger fires over the updates `dts`.
pub open spec fn fired_count(t: TriggerRepeating, dts: Seq<int>) -> int
    decreases dts.len(),
{
    if dts.len() == 0 {
        0
    } else {
        fired_count(t, dts.drop_last()) + if trigger_after(t, dts.drop_last()).fires(dts.last()) {
            1int
        } else {
            0int
        }
    }
}

/// A trigger of period `interval` loses no time: over any run of updates,
/// regular or not, the periods fired plus the time still accumulated equal
/// the time that passed. When no single step is longer than the period, the
/// accumulated rest stays below one period, so the number of firings is the
/// elapsed time divided by the period, rounded down.
pub proof fn lemma_trigger_keeps_time(interval: int, dts: Seq<int>)
    requires
        0 < interval <= FX_MAX,
        total_time(dts) <= FX_MAX,
        forall|i: int| 0 <= i < dts.len() ==> 0 <= #[trigger] dts[i],
    ensures
        ({
            let start = TriggerRepeating::new_spec(interval);
            let end = trigger_after(start, dts);
            let fired = fired_count(start, dts);
            &&& end.time_interval == interval
            &&& end.time_repeat == interval
            &&& 0 <= end.time_cur
            &&& 0 <= fired
            &&& fired * interval + end.time_cur == total_time(dts)
            &&& (forall|i: int| 0 <= i < dts.len() ==> #[trigger] dts[i] <= interval) ==> {
                &&& end.time_cur < interval
                &&& fired == total_time(dts) / interval
            }
        }),
    decreases dts.len(),
{
    let start = TriggerRepeating::new_spec(interval);
    if dts.len() == 0 {
        assert(0int / interval == 0) by (nonlinear_arith)
            requires
                interval > 0,
        ;
    } else {
        let head = dts.drop_last();
        let dt = dts.last();
        assert(dt == dts[dts.len() - 1]);
        assert(forall|i: int| 0 <= i < head.len() ==> head[i] == dts[i]);
        lemma_total_time_nonneg(head);
        lemma_trigger_keeps_time(interval, head);
        let mid = trigger_after(start, head);
        let end = trigger_after(start, dts);
        let fired_mid = fired_count(start, head);
        let fired = fired_count(start, dts);
        assert(fired_mid * interval >= 0) by (nonlinear_arith)
            requires
                fired_mid >= 0,
                interval > 0,
        ;
        assert((fired_mid + 1) * interval == fired_mid * interval + interval) by (nonlinear_arith);
        if forall|i: int| 0 <= i < dts.len() ==> #[trigger] dts[i] <= interval {
            assert(forall|i: int| 0 <= i < head.len() ==> #[trigger] head[i] <= interval);
            assert(end.time_cur < interval);
            vstd::arithmetic::div_mod::lemma_fundamental_div_mod_converse(
                total_time(dts),
                interval,
                fired,
                end.time_cur as int,
            );
        }
    }
}

pub proof fn lemma_total_time_nonneg(dts: Seq<int>)
    requires
        forall|i: int| 0 <= i < dts.len() ==> 0 <= #[trigger] dts[i],
    ensures
        0 <= total_time(dts),
    decreases dts.len(),
{
    if dts.len() > 0 {
        let head = dts.drop_last();
        assert(forall|i: int| 0 <= i < head.len() ==> head[i] == dts[i]);
        assert(dts.last() == dts[dts.len() - 1]);
        lemma_total_time_nonneg(head);
    }
}

/// Switch that flips between two states: first after `start_time`, then
/// every `repeat_time`.
#[derive(Clone, Copy, Debug, PartialEq, Eq, Structural)]
pub struct TimerStateSwitchBinary {
    pub state: bool,
    pub trigger: TriggerRepeating,
}

impl TimerStateSwitchBinary {
    pub open spec fn stepped(self, dt: int) -> TimerStateSwitchBinary {
        TimerStateSwitchBinary {
            state: if self.trigger.fires(dt) { !self.state } else { self.state },
            trigger: self.trigger.stepped(dt),
        }
    }

    pub fn new(start_state: bool, start_time: i64, repeat_time: i64) -> (s: TimerStateSwitchBinary)
        ensures
            s.state == start_state,
            s.trigger == TriggerRepeating::new_distinct_spec(start_time as int, repeat_time as int),
    {
        TimerStateSwitchBinary {
            state: start_state,
            trigger: TriggerRepeating::new_with_distinct_triggertimes(start_time, repeat_time),
        }
    }

    /// Advances the switch and returns the state it is in afterwards.
    pub fn update_and_check(&mut self, deltatime: i64) -> (state: bool)
        ensures
            *final(self) == old(self).stepped(deltatime as int),
            state == final(self).state,
    {
        if self.trigger.update_and_check(deltatime) {
            self.state = !self.state;
        }
        self.state
    }
}

} // verus!
