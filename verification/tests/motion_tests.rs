//! Motion forecast engine behavior.

use linkmouse::motion::{MotionEngine, ROLLING_SEED_NANOS};

const T0: u128 = 1_000_000_000;

#[test]
fn first_sample_sleeps_half_seed_interval() {
    let mut m = MotionEngine::new();
    let out = m.on_mousemove(10, 20, T0);
    assert_eq!(out.immediate_x, 10);
    assert_eq!(out.immediate_y, 20);
    assert_eq!(out.forecast_x, 5);
    assert_eq!(out.forecast_y, 10);
    assert_eq!(out.sleep_nanos, Some(ROLLING_SEED_NANOS / 2));
    assert!(!out.too_fast_notice);
}

#[test]
fn connect_and_two_samples_sixteen_millis_apart() {
    // the end-to-end pacing scenario: two samples sixteen milliseconds
    // apart at the sixty-hertz seeded interval
    let mut m = MotionEngine::new();
    let out1 = m.on_mousemove(100, 50, T0);
    assert_eq!((out1.immediate_x, out1.immediate_y), (100, 50));
    assert_eq!((out1.forecast_x, out1.forecast_y), (50, 25));
    assert!(out1.sleep_nanos.is_some());

    let out2 = m.on_mousemove(200, 100, T0 + 16_000_000);
    assert_eq!((out2.immediate_x, out2.immediate_y), (150, 75));
    assert_eq!((out2.forecast_x, out2.forecast_y), (100, 50));
    // sixteen milliseconds is within the normal band of the seeded interval
    assert!(out2.sleep_nanos.is_some());
}

#[test]
fn idle_resets_forecast_and_clock_but_keeps_pacing() {
    let mut m = MotionEngine::new();
    m.on_mousemove(100, 50, T0);
    let rolling_before = m.rolling_interval_nanos;
    m.handle_mouseidle();
    assert_eq!(m.offset.x, 0);
    assert_eq!(m.offset.y, 0);
    assert_eq!(m.last_sample_nanos, None);
    assert_eq!(m.rolling_interval_nanos, rolling_before);
}

#[test]
fn idle_twice_is_idle_once() {
    let mut a = MotionEngine::new();
    a.on_mousemove(100, 50, T0);
    a.handle_mouseidle();
    let mut b = MotionEngine::new();
    b.on_mousemove(100, 50, T0);
    b.handle_mouseidle();
    b.handle_mouseidle();
    assert_eq!(a.offset.x, b.offset.x);
    assert_eq!(a.offset.y, b.offset.y);
    assert_eq!(a.last_sample_nanos, b.last_sample_nanos);
    assert_eq!(a.rolling_interval_nanos, b.rolling_interval_nanos);
    assert_eq!(a.updates, b.updates);
    assert_eq!(a.too_fasts, b.too_fasts);
    assert_eq!(a.too_slows, b.too_slows);
}

#[test]
fn sample_three_intervals_late_cancels_forecast() {
    let mut m = MotionEngine::new();
    m.on_mousemove(10, 10, T0);
    let out = m.on_mousemove(40, 40, T0 + 3 * ROLLING_SEED_NANOS);
    assert_eq!(out.sleep_nanos, None);
    assert_eq!((out.forecast_x, out.forecast_y), (0, 0));
    // the immediate correction still lands against the pending forecast
    assert_eq!((out.immediate_x, out.immediate_y), (35, 35));

    // the next sample at the freshly learned interval paces normally again
    let rolling = m.rolling_interval_nanos;
    let out2 = m.on_mousemove(4, 4, T0 + 3 * ROLLING_SEED_NANOS + rolling);
    assert!(out2.sleep_nanos.is_some());
    assert_eq!((out2.forecast_x, out2.forecast_y), (2, 2));
    // the cancelled forecast left no offset to correct against
    assert_eq!((out2.immediate_x, out2.immediate_y), (4, 4));
}

#[test]
fn burst_sample_cancels_forecast_too() {
    let mut m = MotionEngine::new();
    m.on_mousemove(10, 10, T0);
    // far too early: a burst after a stall
    let out = m.on_mousemove(6, 6, T0 + ROLLING_SEED_NANOS / 100);
    assert_eq!(out.sleep_nanos, None);
    assert_eq!((out.forecast_x, out.forecast_y), (0, 0));
    assert_eq!(m.too_fasts, 1);
    assert_eq!(m.too_slows, 0);
}

#[test]
fn uniform_pacing_never_cancels_and_never_drifts() {
    let mut m = MotionEngine::new();
    let mut applied_x: i64 = 0;
    let mut applied_y: i64 = 0;
    let mut input_x: i64 = 0;
    let mut input_y: i64 = 0;
    let mut pending: (i64, i64) = (0, 0);
    let mut t = T0;
    let deltas = [(3, -5), (7, 7), (-2, 9), (0, 0), (11, -11), (5, 4)];
    for (dx, dy) in deltas {
        let out = m.on_mousemove(dx, dy, t);
        assert!(out.sleep_nanos.is_some());
        // the forecast of the previous sample was applied before this one
        applied_x += out.immediate_x as i64;
        applied_y += out.immediate_y as i64;
        input_x += dx as i64;
        input_y += dy as i64;
        // immediately after a sample's correction, everything applied so far
        // equals the cumulative input exactly
        assert_eq!(applied_x, input_x);
        assert_eq!(applied_y, input_y);
        pending = (out.forecast_x as i64, out.forecast_y as i64);
        applied_x += pending.0;
        applied_y += pending.1;
        t += ROLLING_SEED_NANOS;
    }
    assert_eq!(applied_x, input_x + pending.0);
    assert_eq!(applied_y, input_y + pending.1);
}

#[test]
fn throttle_notice_on_dense_counter_windows() {
    let mut m = MotionEngine::new();
    // start beyond the notice window so the first inspection stays quiet
    let mut t: u128 = 600_000_000;
    let mut notices: u32 = 0;
    let mut notice_at: u32 = 0;
    // 2001 paced samples one nanosecond apart: the first sample has no
    // interval, then two inspection windows pass
    for i in 0..2001u32 {
        let out = m.on_mousemove(1, 1, t);
        if out.too_fast_notice {
            notices += 1;
            notice_at = i;
        }
        t += 1;
    }
    // first window: measured against process start, too wide; second: dense
    assert_eq!(notices, 1);
    assert_eq!(notice_at, 2000);
}
