use hungry_snake::timer::{IntervalTimer, TICKS_PER_UNIT};

#[test]
fn a_new_timer_has_seen_no_time() {
    let timer = IntervalTimer::new(5);
    assert_eq!(timer.period(), 5);
    assert_eq!(timer.elapsed(), 0);
}

#[test]
fn timer_does_not_fire_before_its_period() {
    let mut timer = IntervalTimer::new(5);
    assert!(!timer.advance(4));
    assert_eq!(timer.elapsed(), 4);
}

#[test]
fn timer_fires_when_the_period_is_reached_exactly() {
    let mut timer = IntervalTimer::new(5);
    assert!(!timer.advance(2));
    assert!(timer.advance(3));
    assert_eq!(timer.elapsed(), 0);
}

#[test]
fn timer_fires_once_for_a_long_delta_and_keeps_the_rest() {
    let mut timer = IntervalTimer::new(5);
    assert!(timer.advance(12));
    // One period is paid out; the second period and the 2 beyond it stay.
    assert_eq!(timer.elapsed(), 7);
    assert_eq!(timer.elapsed() % timer.period(), 2);
}

#[test]
fn timer_fires_again_at_the_right_cumulative_point() {
    let mut timer = IntervalTimer::new(5);
    let mut fires = 0;
    let mut total = 0;
    for delta in [12u64, 1, 1, 1] {
        if timer.advance(delta) {
            fires += 1;
        }
        total += delta;
        assert!(fires * 5 <= total);
    }
    // 15 ticks in all: three periods, the last of them reached by the
    // 2 ticks left over from the long delta and the small ones after it.
    assert_eq!(total, 15);
    assert_eq!(fires, 3);
    assert_eq!(timer.elapsed(), 0);
}

#[test]
fn timer_fire_pattern_after_a_long_delta() {
    let mut timer = IntervalTimer::new(5);
    assert!(timer.advance(12));
    assert!(timer.advance(1));
    assert_eq!(timer.elapsed(), 3);
    assert!(!timer.advance(1));
    assert_eq!(timer.elapsed(), 4);
    assert!(timer.advance(1));
    assert_eq!(timer.elapsed(), 0);
}

#[test]
fn timer_conserves_time_over_a_run() {
    let mut timer = IntervalTimer::new(7);
    let deltas = [3u64, 30, 0, 1, 6, 7, 14, 2, 2, 2];
    let mut fires = 0u64;
    let mut total = 0u64;
    for delta in deltas {
        if timer.advance(delta) {
            fires += 1;
        }
        total += delta;
    }
    assert_eq!(fires * 7 + timer.elapsed(), total);
    assert!(fires <= deltas.len() as u64);
}

#[test]
fn timer_with_zero_delta_pays_out_what_it_owes() {
    let mut timer = IntervalTimer::new(5);
    assert!(timer.advance(10));
    assert_eq!(timer.elapsed(), 5);
    assert!(timer.advance(0));
    assert_eq!(timer.elapsed(), 0);
    assert!(!timer.advance(0));
}

#[test]
fn timer_of_period_zero_fires_on_every_call() {
    let mut timer = IntervalTimer::new(0);
    assert!(timer.advance(0));
    assert!(timer.advance(3));
    assert_eq!(timer.elapsed(), 3);
}

#[test]
fn timer_stops_accumulating_at_the_largest_count() {
    let mut timer = IntervalTimer::new(10);
    assert!(timer.advance(u64::MAX));
    assert_eq!(timer.elapsed(), u64::MAX - 10);
    assert!(timer.advance(u64::MAX));
    assert_eq!(timer.elapsed(), u64::MAX - 10);
}

#[test]
fn one_time_unit_is_a_million_ticks() {
    assert_eq!(TICKS_PER_UNIT, 1_000_000);
}
