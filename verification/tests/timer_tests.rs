use stage_sim::fixed::UNIT;
use stage_sim::timer::{TimerSimple, TimerStateSwitchBinary, TriggerRepeating};

#[test]
fn restart_then_full_update_completes_the_countdown() {
    let mut timer = TimerSimple::new_stopped(2 * UNIT);
    timer.restart();
    assert_eq!(timer.completion_ratio(), 0);
    assert!(timer.is_running());
    assert!(!timer.is_finished());
    timer.update(2 * UNIT);
    assert_eq!(timer.completion_ratio(), UNIT);
    assert!(timer.is_finished());
    assert!(!timer.is_running());
}

#[test]
fn countdown_advances_but_not_past_its_duration() {
    let mut timer = TimerSimple::new_started(UNIT);
    timer.update(250_000);
    assert_eq!(timer.time_cur, 250_000);
    assert_eq!(timer.completion_ratio(), 250_000);
    timer.update(10 * UNIT);
    assert_eq!(timer.time_cur, UNIT);
    assert_eq!(timer.completion_ratio(), UNIT);
    timer.update(-5);
    assert_eq!(timer.time_cur, UNIT);
}

#[test]
fn stopped_countdown_stays_at_zero() {
    let mut timer = TimerSimple::new_stopped(UNIT);
    assert!(!timer.is_running());
    assert!(!timer.is_finished());
    timer.update(5 * UNIT);
    assert_eq!(timer.time_cur, 0);
    assert!(!timer.is_finished());
    let mut running = TimerSimple::new_started(UNIT);
    running.update(400_000);
    running.stop();
    assert_eq!(running.time_cur, 0);
    assert!(!running.is_running());
    running.update(UNIT);
    assert_eq!(running.time_cur, 0);
}

#[test]
fn countdown_triggers_in_the_frame_it_completes() {
    let mut timer = TimerSimple::new_started(100_000);
    assert!(!timer.update_and_check_if_triggered(60_000));
    assert!(timer.update_and_check_if_triggered(60_000));
    assert!(!timer.update_and_check_if_triggered(60_000));
}

#[test]
fn countdown_without_duration_is_complete_at_once() {
    let timer = TimerSimple::new_started(0);
    assert!(timer.is_finished());
    assert_eq!(timer.completion_ratio(), UNIT);
    let negative = TimerSimple::new_started(-7);
    assert_eq!(negative.time_end, 0);
}

#[test]
fn trigger_fires_once_per_period_at_constant_steps() {
    // Ten seconds at sixty frames a second with a period of a quarter second.
    let step: i64 = 16_667;
    let period: i64 = 250_000;
    let mut trigger = TriggerRepeating::new(period);
    let mut fired: i64 = 0;
    let mut elapsed: i64 = 0;
    for _ in 0..600 {
        if trigger.update_and_check(step) {
            fired += 1;
        }
        elapsed += step;
        assert_eq!(fired, elapsed / period);
        assert_eq!(fired * period + trigger.time_cur, elapsed);
    }
    assert_eq!(fired, 40);
}

#[test]
fn trigger_loses_no_time_at_irregular_steps() {
    let period: i64 = 300_000;
    let steps: [i64; 8] = [10_000, 299_000, 1, 123_456, 300_000, 77, 250_000, 40_000];
    let mut trigger = TriggerRepeating::new(period);
    let mut fired: i64 = 0;
    let mut elapsed: i64 = 0;
    for round in 0..50 {
        let step = steps[round % steps.len()];
        if trigger.update_and_check(step) {
            fired += 1;
        }
        elapsed += step;
        assert_eq!(fired * period + trigger.time_cur, elapsed);
        assert!(trigger.time_cur < period);
        assert_eq!(fired, elapsed / period);
    }
}

#[test]
fn trigger_that_is_due_twice_fires_once_and_carries_the_rest() {
    let mut trigger = TriggerRepeating::new(100_000);
    assert!(trigger.update_and_check(250_000));
    assert_eq!(trigger.time_cur, 150_000);
    assert!(trigger.update_and_check(0));
    assert_eq!(trigger.time_cur, 50_000);
    assert!(!trigger.update_and_check(0));
}

#[test]
fn trigger_with_distinct_first_period() {
    let mut trigger = TriggerRepeating::new_with_distinct_triggertimes(700_000, 35_000);
    assert!(!trigger.update_and_check(699_999));
    assert!(trigger.update_and_check(1));
    assert_eq!(trigger.time_interval, 35_000);
    assert!(!trigger.update_and_check(34_999));
    assert!(trigger.update_and_check(1));
}

#[test]
fn blink_switch_flips_on_its_periods() {
    let mut switch = TimerStateSwitchBinary::new(true, 200_000, 50_000);
    assert!(switch.update_and_check(199_999));
    assert!(!switch.update_and_check(1));
    assert!(!switch.update_and_check(49_999));
    assert!(switch.update_and_check(1));
    assert!(!switch.update_and_check(50_000));
}
