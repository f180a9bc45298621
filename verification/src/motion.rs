//! Motion forecast engine.
//!
//! Browser-side motion samples arrive at an irregular rate (frame and network
//! jitter); replaying the raw deltas directly looks jerky.  The engine applies
//! half-step dead reckoning: each real sample is split into an immediately
//! applied correction and a forecasted half-step applied after a computed
//! delay, doubling the perceived sample density.  An exponentially weighted
//! average of the inter-sample interval paces the delay; samples that arrive
//! far too early or too late cancel the pending forecast instead of letting a
//! network stall corrupt the cursor position.
//!
//! All pacing arithmetic is integral: the smoothing factor of 1/40 stands for
//! the 2.5% weight given to each new interval, and the early/late thresholds
//! of 19/20 and 21/20 stand for the 0.95 and 1.05 ratio bounds.

use vstd::prelude::*;
use crate::wheel::div_toward_zero;

verus! {

/// Seed for the rolling inter-sample interval: sixty samples per second.
pub const ROLLING_SEED_NANOS: u128 = 1_000_000_000 / 60;

/// Timestamps are nanosecond counts that fit in 64 bits; the engine's
/// arithmetic (interval times small constants, in 128 bits) relies on it.
pub const TIME_BOUND: u128 = 0x1_0000_0000_0000_0000;

/// Largest motion delta accepted on one axis in one sample.
pub const MAX_MOTION_DELTA: i32 = 0x4000_0000;

/// Every this many paced samples the fast/slow counters are inspected.
pub const CHECK_FREQUENCY: i32 = 1000;

/// Two counter inspections closer together than this emit a rate notice.
pub const FAST_WINDOW_NANOS: u128 = 500_000_000;

/// The half-applied forecast not yet confirmed by a real sample.
pub struct MouseOffset {
    pub x: i32,
    pub y: i32,
}

/// Mathematical model of the engine state.
pub ghost struct MotionModel {
    pub offset_x: int,
    pub offset_y: int,
    pub last_sample: Option<int>,
    pub rolling: int,
    pub updates: int,
    pub too_fasts: int,
    pub too_slows: int,
    pub window_start: int,
}

/// Pacing verdict for one sample.
pub enum Pace {
    /// First sample after an idle reset: no interval to compare against.
    First,
    /// The sample arrived far later than the rolling interval (network stall).
    TooSlow,
    /// The sample arrived far earlier than the rolling interval (burst).
    TooFast,
    /// The sample arrived close enough to the rolling interval.
    Normal,
}

/// Half of a delta, rounded toward zero as the executable `/ 2`.
pub open spec fn half_toward_zero(v: int) -> int {
    div_toward_zero(v, 2)
}

/// Exponentially weighted rolling average with a weight of 1/40 on the new
/// interval.
pub open spec fn ewma_update(rolling: int, diff: int) -> int {
    (rolling * 39 + diff) / 40
}

pub open spec fn wf_model(m: MotionModel) -> bool {
    &&& 0 <= m.updates < CHECK_FREQUENCY
    &&& 0 <= m.too_fasts <= m.updates + 1
    &&& 0 <= m.too_slows <= m.updates + 1
    &&& 0 <= m.rolling < TIME_BOUND
    &&& (m.last_sample matches Some(t) ==> 0 <= t < TIME_BOUND)
    &&& -(MAX_MOTION_DELTA as int) / 2 <= m.offset_x <= (MAX_MOTION_DELTA as int) / 2
    &&& -(MAX_MOTION_DELTA as int) / 2 <= m.offset_y <= (MAX_MOTION_DELTA as int) / 2
    &&& 0 <= m.window_start < TIME_BOUND
}

/// The state of a fresh engine.
pub open spec fn fresh_model() -> MotionModel {
    MotionModel {
        offset_x: 0,
        offset_y: 0,
        last_sample: None,
        rolling: ROLLING_SEED_NANOS as int,
        updates: 0,
        too_fasts: 0,
        too_slows: 0,
        window_start: 0,
    }
}

/// The state after an idle signal: the forecast is dropped and the sample
/// clock restarts, while the learned pacing is kept.
pub open spec fn idle_model(m: MotionModel) -> MotionModel {
    MotionModel { offset_x: 0, offset_y: 0, last_sample: None, ..m }
}

/// The rolling interval after a sample at time `now`.
pub open spec fn step_rolling(m: MotionModel, now: int) -> int {
    match m.last_sample {
        None => m.rolling,
        Some(t) => ewma_update(m.rolling, now - t),
    }
}

/// Pacing verdict for a sample at time `now`: the interval since the previous
/// sample is compared against the updated rolling average, with late meaning
/// a ratio above 21/20 and early a ratio below 19/20.
pub open spec fn step_pace(m: MotionModel, now: int) -> Pace {
    match m.last_sample {
        None => Pace::First,
        Some(t) => {
            let d = now - t;
            let r = ewma_update(m.rolling, d);
            if d * 20 > r * 21 {
                Pace::TooSlow
            } else if d * 20 < r * 19 {
                Pace::TooFast
            } else {
                Pace::Normal
            }
        },
    }
}

/// An anomalous sample cancels the pending forecast.
pub open spec fn step_anomaly(m: MotionModel, now: int) -> bool {
    step_pace(m, now) == Pace::TooSlow || step_pace(m, now) == Pace::TooFast
}

/// Whether this sample completes a counter-inspection window.
pub open spec fn step_window_tick(m: MotionModel) -> bool {
    m.last_sample is Some && m.updates == CHECK_FREQUENCY - 1
}

/// Whether this sample emits the rate notice telling the sender to throttle.
pub open spec fn step_too_fast_notice(m: MotionModel, now: int) -> bool {
    step_window_tick(m) && now - m.window_start < FAST_WINDOW_NANOS
}

/// Sleep before the forecast half-step: half the rolling interval, or none at
/// all when the sample was anomalous and the forecast is cancelled.
pub open spec fn step_sleep(m: MotionModel, now: int) -> Option<int> {
    if step_anomaly(m, now) {
        None
    } else {
        Some(step_rolling(m, now) / 2)
    }
}

/// Full state transition for one motion sample.
pub open spec fn step_model(m: MotionModel, dx: int, dy: int, now: int) -> MotionModel {
    let paced = m.last_sample is Some;
    let tick = step_window_tick(m);
    MotionModel {
        offset_x: if step_anomaly(m, now) {
            0
        } else {
            half_toward_zero(dx)
        },
        offset_y: if step_anomaly(m, now) {
            0
        } else {
            half_toward_zero(dy)
        },
        last_sample: Some(now),
        rolling: step_rolling(m, now),
        updates: if !paced {
            m.updates
        } else if tick {
            0
        } else {
            m.updates + 1
        },
        too_fasts: (if !paced {
            m.too_fasts
        } else if tick {
            0
        } else {
            m.too_fasts
        }) + (if step_pace(m, now) == Pace::TooFast {
            1int
        } else {
            0int
        }),
        too_slows: (if !paced {
            m.too_slows
        } else if tick {
            0
        } else {
            m.too_slows
        }) + (if step_pace(m, now) == Pace::TooSlow {
            1int
        } else {
            0int
        }),
        window_start: if tick {
            now
        } else {
            m.window_start
        },
    }
}

/// What one motion sample asks the caller to do.
pub struct MotionStep {
    /// Correction applied to the OS pointer immediately.
    pub immediate_x: i32,
    pub immediate_y: i32,
    /// Forecast half-step to apply after the sleep; zero when cancelled.
    pub forecast_x: i32,
    pub forecast_y: i32,
    /// Delay before applying the forecast; `None` cancels it.
    pub sleep_nanos: Option<u128>,
    /// Tell the sender to throttle its sampling rate.
    pub too_fast_notice: bool,
}

/// State of the motion forecast engine.
pub struct MotionEngine {
    pub offset: MouseOffset,
    pub last_sample_nanos: Option<u128>,
    pub rolling_interval_nanos: u128,
    pub updates: i32,
    pub too_fasts: i32,
    pub too_slows: i32,
    pub window_start_nanos: u128,
}

impl View for MotionEngine {
    type V = MotionModel;

    open spec fn view(&self) -> MotionModel {
        MotionModel {
            offset_x: self.offset.x as int,
            offset_y: self.offset.y as int,
            last_sample: match self.last_sample_nanos {
                None => None,
                Some(t) => Some(t as int),
            },
            rolling: self.rolling_interval_nanos as int,
            updates: self.updates as int,
            too_fasts: self.too_fasts as int,
            too_slows: self.too_slows as int,
            window_start: self.window_start_nanos as int,
        }
    }
}

/// Half of a delta, rounded toward zero.
fn half_i32(v: i32) -> (r: i32)
    requires
        -MAX_MOTION_DELTA <= v <= MAX_MOTION_DELTA,
    ensures
        r == half_toward_zero(v as int),
{
    if v >= 0 {
        v / 2
    } else {
        -((-v) / 2)
    }
}

impl MotionEngine {
    pub open spec fn wf(&self) -> bool {
        wf_model(self@)
    }

    pub fn new() -> (r: Self)
        ensures
            r@ == fresh_model(),
            r.wf(),
    {
        MotionEngine {
            offset: MouseOffset { x: 0, y: 0 },
            last_sample_nanos: None,
            rolling_interval_nanos: ROLLING_SEED_NANOS,
            updates: 0,
            too_fasts: 0,
            too_slows: 0,
            window_start_nanos: 0,
        }
    }

    /// The pointer stopped: drop the pending forecast and restart the sample
    /// clock, keeping the learned pacing across the idle gap.
    pub fn handle_mouseidle(&mut self)
        ensures
            final(self)@ == idle_model(old(self)@),
    {
        self.offset.x = 0;
        self.offset.y = 0;
        self.last_sample_nanos = None;
    }

    /// Process one motion sample: apply `immediate` now, then after
    /// `sleep_nanos` apply the forecast half-step (unless it is zero).
    pub fn on_mousemove(&mut self, dx: i32, dy: i32, now: u128) -> (out: MotionStep)
        requires
            old(self).wf(),
            -MAX_MOTION_DELTA <= dx <= MAX_MOTION_DELTA,
            -MAX_MOTION_DELTA <= dy <= MAX_MOTION_DELTA,
            now < TIME_BOUND,
            old(self)@.last_sample matches Some(t) ==> t <= now,
        ensures
            final(self)@ == step_model(old(self)@, dx as int, dy as int, now as int),
            final(self).wf(),
            out.immediate_x == dx - old(self)@.offset_x,
            out.immediate_y == dy - old(self)@.offset_y,
            out.forecast_x == final(self)@.offset_x,
            out.forecast_y == final(self)@.offset_y,
            out.sleep_nanos is None <==> step_sleep(old(self)@, now as int) is None,
            out.sleep_nanos matches Some(s) ==> step_sleep(old(self)@, now as int) == Some(
                s as int,
            ),
            out.too_fast_notice == step_too_fast_notice(old(self)@, now as int),
    {
        let immediate_x: i32 = dx - self.offset.x;
        let immediate_y: i32 = dy - self.offset.y;
        self.offset.x = half_i32(dx);
        self.offset.y = half_i32(dy);

        let mut sleep: Option<u128> = None;
        let mut notice: bool = false;

        match self.last_sample_nanos {
            None => {
                sleep = Some(self.rolling_interval_nanos / 2);
            },
            Some(t) => {
                let diff: u128 = now - t;
                let r: u128 = (self.rolling_interval_nanos * 39 + diff) / 40;
                self.rolling_interval_nanos = r;

                if self.updates == CHECK_FREQUENCY - 1 {
                    self.updates = 0;
                    self.too_fasts = 0;
                    self.too_slows = 0;
                    if now < self.window_start_nanos || now - self.window_start_nanos
                        < FAST_WINDOW_NANOS {
                        notice = true;
                    }
                    self.window_start_nanos = now;
                } else {
                    self.updates = self.updates + 1;
                }

                if diff * 20 > r * 21 {
                    self.too_slows = self.too_slows + 1;
                    self.offset.x = 0;
                    self.offset.y = 0;
                } else if diff * 20 < r * 19 {
                    self.too_fasts = self.too_fasts + 1;
                    self.offset.x = 0;
                    self.offset.y = 0;
                } else {
                    sleep = Some(r / 2);
                }
            },
        }

        self.last_sample_nanos = Some(now);

        MotionStep {
            immediate_x,
            immediate_y,
            forecast_x: self.offset.x,
            forecast_y: self.offset.y,
            sleep_nanos: sleep,
            too_fast_notice: notice,
        }
    }
}

/// Resetting an already idle engine changes nothing: a second idle signal in a
/// row is as good as the first.
pub proof fn lemma_idle_idempotent(m: MotionModel)
    ensures
        idle_model(idle_model(m)) == idle_model(m),
{
}

/// A sample arriving three rolling intervals after the previous one is flagged
/// as a stall: the forecast is cancelled (no sleep, offset dropped to zero),
/// and the pacing state is not corrupted — the next sample, arriving at the
/// newly learned rolling interval, is paced normally again.
pub proof fn lemma_anomaly_contained(m: MotionModel, dx: int, dy: int, now: int)
    requires
        wf_model(m),
        m.last_sample matches Some(t) && now == t + 3 * m.rolling,
        m.rolling >= 1,
        now < TIME_BOUND,
    ensures
        step_pace(m, now) == Pace::TooSlow,
        step_sleep(m, now) is None,
        step_model(m, dx, dy, now).offset_x == 0,
        step_model(m, dx, dy, now).offset_y == 0,
        !step_anomaly(
            step_model(m, dx, dy, now),
            now + step_model(m, dx, dy, now).rolling,
        ),
        step_sleep(
            step_model(m, dx, dy, now),
            now + step_model(m, dx, dy, now).rolling,
        ) is Some,
{
    let r = m.rolling;
    let d = 3 * r;
    let r1 = ewma_update(r, d);
    assert(r * 39 + d == 42 * r);
    vstd::arithmetic::div_mod::lemma_fundamental_div_mod(42 * r, 40);
    vstd::arithmetic::div_mod::lemma_mod_division_less_than_divisor(42 * r, 40);
    assert(d * 20 > r1 * 21);
    assert(step_pace(m, now) == Pace::TooSlow);

    let m2 = step_model(m, dx, dy, now);
    assert(m2.rolling == r1);
    let now2 = now + r1;
    assert(ewma_update(r1, r1) == r1) by {
        assert(r1 * 39 + r1 == 40 * r1);
        vstd::arithmetic::div_mod::lemma_div_multiples_vanish(r1, 40);
    }
    assert(step_pace(m2, now2) == Pace::Normal);
}

/// Cumulative input delta of a sample sequence, horizontal axis.
pub open spec fn sum_dx(samples: Seq<(int, int)>) -> int
    decreases samples.len(),
{
    if samples.len() == 0 {
        0
    } else {
        samples[0].0 + sum_dx(samples.skip(1))
    }
}

/// Cumulative input delta of a sample sequence, vertical axis.
pub open spec fn sum_dy(samples: Seq<(int, int)>) -> int
    decreases samples.len(),
{
    if samples.len() == 0 {
        0
    } else {
        samples[0].1 + sum_dy(samples.skip(1))
    }
}

/// The engine state after a whole run of samples at the given times.
pub open spec fn run_model(m: MotionModel, samples: Seq<(int, int)>, times: Seq<int>) -> MotionModel
    decreases samples.len(),
{
    if samples.len() == 0 {
        m
    } else {
        run_model(
            step_model(m, samples[0].0, samples[0].1, times[0]),
            samples.skip(1),
            times.skip(1),
        )
    }
}

/// Everything a run asks the caller to apply on the horizontal axis: each
/// sample's immediate correction plus its forecast half-step.
pub open spec fn applied_x(m: MotionModel, samples: Seq<(int, int)>, times: Seq<int>) -> int
    decreases samples.len(),
{
    if samples.len() == 0 {
        0
    } else {
        let m1 = step_model(m, samples[0].0, samples[0].1, times[0]);
        (samples[0].0 - m.offset_x) + m1.offset_x + applied_x(m1, samples.skip(1), times.skip(1))
    }
}

/// As `applied_x`, vertical axis.
pub open spec fn applied_y(m: MotionModel, samples: Seq<(int, int)>, times: Seq<int>) -> int
    decreases samples.len(),
{
    if samples.len() == 0 {
        0
    } else {
        let m1 = step_model(m, samples[0].0, samples[0].1, times[0]);
        (samples[0].1 - m.offset_y) + m1.offset_y + applied_y(m1, samples.skip(1), times.skip(1))
    }
}

/// Conservation across one run: what is applied equals the cumulative input,
/// corrected by the pending forecasts at either end.
pub proof fn lemma_applied_telescopes(m: MotionModel, samples: Seq<(int, int)>, times: Seq<int>)
    requires
        times.len() == samples.len(),
    ensures
        applied_x(m, samples, times) == sum_dx(samples) - m.offset_x + run_model(
            m,
            samples,
            times,
        ).offset_x,
        applied_y(m, samples, times) == sum_dy(samples) - m.offset_y + run_model(
            m,
            samples,
            times,
        ).offset_y,
    decreases samples.len(),
{
    if samples.len() > 0 {
        let m1 = step_model(m, samples[0].0, samples[0].1, times[0]);
        lemma_applied_telescopes(m1, samples.skip(1), times.skip(1));
    }
}

/// No drift: starting with no pending forecast, the sum of the immediate
/// corrections and of the applied forecast half-steps equals the cumulative
/// input delta exactly, up to the one forecast still pending after the last
/// sample.  This holds for any sample timing, whether or not forecasts were
/// cancelled along the way.
pub proof fn lemma_no_drift(m: MotionModel, samples: Seq<(int, int)>, times: Seq<int>)
    requires
        times.len() == samples.len(),
        m.offset_x == 0,
        m.offset_y == 0,
    ensures
        applied_x(m, samples, times) - run_model(m, samples, times).offset_x == sum_dx(samples),
        applied_y(m, samples, times) - run_model(m, samples, times).offset_y == sum_dy(samples),
{
    lemma_applied_telescopes(m, samples, times);
}

/// Every forecast of a run is kept: no sample is flagged anomalous.
pub open spec fn all_forecasts_kept(m: MotionModel, samples: Seq<(int, int)>, times: Seq<int>) -> bool
    decreases samples.len(),
{
    samples.len() == 0 || {
        &&& !step_anomaly(m, times[0])
        &&& all_forecasts_kept(
            step_model(m, samples[0].0, samples[0].1, times[0]),
            samples.skip(1),
            times.skip(1),
        )
    }
}

/// Sample times at uniform spacing equal to the seeded rolling interval.
pub open spec fn seeded_uniform_times(t0: int, n: nat) -> Seq<int> {
    Seq::new(n, |i: int| t0 + i * (ROLLING_SEED_NANOS as int))
}

/// For any sample sequence fed to a fresh engine with uniform synthetic
/// spacing equal to the seeded rolling interval, no forecast is ever
/// cancelled, and the sum of the immediate corrections and the applied
/// forecast half-steps equals the cumulative input delta exactly — the one
/// half-step still pending after the last sample being all that separates
/// the two.
pub proof fn lemma_seeded_uniform_run_no_drift(samples: Seq<(int, int)>, t0: int)
    ensures
        all_forecasts_kept(fresh_model(), samples, seeded_uniform_times(t0, samples.len())),
        applied_x(fresh_model(), samples, seeded_uniform_times(t0, samples.len())) - run_model(
            fresh_model(),
            samples,
            seeded_uniform_times(t0, samples.len()),
        ).offset_x == sum_dx(samples),
        applied_y(fresh_model(), samples, seeded_uniform_times(t0, samples.len())) - run_model(
            fresh_model(),
            samples,
            seeded_uniform_times(t0, samples.len()),
        ).offset_y == sum_dy(samples),
{
    let times = seeded_uniform_times(t0, samples.len());
    assert forall|i: int| 0 <= i < times.len() - 1 implies #[trigger] times[i + 1] == times[i]
        + ROLLING_SEED_NANOS as int by {
        assert(times[i] == t0 + i * (ROLLING_SEED_NANOS as int));
        assert(times[i + 1] == t0 + (i + 1) * (ROLLING_SEED_NANOS as int));
        vstd::arithmetic::mul::lemma_mul_is_distributive_add_other_way(
            ROLLING_SEED_NANOS as int,
            i,
            1,
        );
    }
    lemma_uniform_pacing_keeps_forecasts(
        fresh_model(),
        samples,
        times,
        ROLLING_SEED_NANOS as int,
    );
    lemma_no_drift(fresh_model(), samples, times);
}

/// Samples spaced exactly at the rolling interval are always paced normally:
/// the rolling average reproduces itself and no forecast is ever cancelled.
/// In particular a run at the seeded interval, begun right after idle, keeps
/// and applies every half-step forecast.
pub proof fn lemma_uniform_pacing_keeps_forecasts(
    m: MotionModel,
    samples: Seq<(int, int)>,
    times: Seq<int>,
    gap: int,
)
    requires
        times.len() == samples.len(),
        m.rolling == gap,
        gap >= 1,
        m.last_sample matches Some(t) ==> times.len() == 0 || times[0] == t + gap,
        forall|i: int| 0 <= i < times.len() - 1 ==> #[trigger] times[i + 1] == times[i] + gap,
    ensures
        all_forecasts_kept(m, samples, times),
    decreases samples.len(),
{
    if samples.len() > 0 {
        let now = times[0];
        match m.last_sample {
            None => {
                assert(step_pace(m, now) == Pace::First);
            },
            Some(t) => {
                assert(now - t == gap);
                assert(ewma_update(gap, gap) == gap) by {
                    assert(gap * 39 + gap == 40 * gap);
                    vstd::arithmetic::div_mod::lemma_div_multiples_vanish(gap, 40);
                }
                assert(step_pace(m, now) == Pace::Normal);
            },
        }
        let m1 = step_model(m, samples[0].0, samples[0].1, times[0]);
        assert(m1.rolling == gap);
        assert(m1.last_sample == Some(now));
        assert(forall|i: int|
            0 <= i < times.len() - 2 ==> #[trigger] times.skip(1)[i + 1] == times.skip(1)[i]
                + gap);
        lemma_uniform_pacing_keeps_forecasts(m1, samples.skip(1), times.skip(1), gap);
    }
}

} // verus!
