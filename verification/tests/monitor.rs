use minmax_monitor::bridge::BridgeAction;
use minmax_monitor::bridge::EmitPhase;
use minmax_monitor::bridge::ListenerRegistry;
use minmax_monitor::bridge::bridge_decision;
use minmax_monitor::config::is_blank;
use minmax_monitor::dedup::dedup_step;
use minmax_monitor::percent::dec_string;
use minmax_monitor::percent::tenths_string;
use minmax_monitor::round_tenths;
use minmax_monitor::scheduler::interval_seconds;
use minmax_monitor::scheduler::process_sample;
use minmax_monitor::tenths_diff;
use minmax_monitor::AppConfig;
use minmax_monitor::RunState;

#[test]
fn rounding_to_tenths_is_half_up() {
    assert_eq!(round_tenths(93_500), 935);
    assert_eq!(round_tenths(42_349), 423);
    assert_eq!(round_tenths(42_350), 424);
    assert_eq!(round_tenths(0), 0);
    assert_eq!(round_tenths(100_000), 1000);
}

#[test]
fn tenths_difference_is_absolute() {
    assert_eq!(tenths_diff(423, 420), 3);
    assert_eq!(tenths_diff(420, 423), 3);
    assert_eq!(tenths_diff(420, 420), 0);
}

#[test]
fn decimal_rendering_is_exact() {
    assert_eq!(dec_string(0), "0");
    assert_eq!(dec_string(42), "42");
    assert_eq!(dec_string(500), "500");
    assert_eq!(tenths_string(935), "93.5");
    assert_eq!(tenths_string(900), "90.0");
    assert_eq!(tenths_string(5), "0.5");
}

#[test]
fn small_change_is_suppressed_and_full_change_emits() {
    // Previous value 42.0; a raw reading of 42.3 moves by 0.3 < 0.5.
    let r = dedup_step(Some(420), 42_300);
    assert_eq!(r.rounded_tenths, 423);
    assert!(!r.emit);
    assert!(!r.notable);
    // A raw reading of 43.0 moves by 1.0 >= 0.5, and is notable.
    let r2 = dedup_step(Some(420), 43_000);
    assert_eq!(r2.rounded_tenths, 430);
    assert!(r2.emit);
    assert!(r2.notable);
}

#[test]
fn first_sample_always_emits() {
    let r = dedup_step(None, 42_300);
    assert!(r.emit);
    assert!(!r.notable);
    assert_eq!(r.rounded_tenths, 423);
}

#[test]
fn half_percent_change_is_the_emission_boundary() {
    let at = dedup_step(Some(420), 42_500);
    assert!(at.emit);
    assert!(!at.notable);
    let under = dedup_step(Some(420), 42_400);
    assert!(!under.emit);
}

#[test]
fn suppression_leaves_the_stored_value_unchanged() {
    let cfg = AppConfig::default();
    let mut state = RunState::new();
    let first = process_sample(&mut state, &cfg, 42_000, true);
    assert!(first.outcome.emit);
    assert_eq!(state.last_emitted_tenths, Some(420));
    let second = process_sample(&mut state, &cfg, 42_300, true);
    assert!(!second.outcome.emit);
    assert_eq!(state.last_emitted_tenths, Some(420));
    let third = process_sample(&mut state, &cfg, 43_000, true);
    assert!(third.outcome.emit);
    assert_eq!(state.last_emitted_tenths, Some(430));
}

#[test]
fn starting_twice_claims_exactly_one_loop() {
    let mut state = RunState::new();
    assert!(state.try_start());
    assert!(!state.try_start());
    assert!(state.running);
    state.request_stop();
    assert!(!state.running);
    assert!(state.try_start());
    assert!(state.running);
}

#[test]
fn stop_is_observed_at_the_next_check_point() {
    let mut state = RunState::new();
    state.try_start();
    assert!(state.should_continue());
    state.request_stop();
    assert!(!state.should_continue());
}

#[test]
fn threshold_is_inclusive() {
    // Threshold 90.0%: a sample of 89.9 does not warn, one of 90.0 does.
    let cfg = AppConfig::default();
    assert_eq!(cfg.warning_threshold_tenths, 900);
    let mut state = RunState::new();
    let below = process_sample(&mut state, &cfg, 89_900, true);
    assert!(below.outcome.emit);
    assert!(!below.warn);
    let mut state2 = RunState::new();
    let at = process_sample(&mut state2, &cfg, 90_000, true);
    assert!(at.outcome.emit);
    assert!(at.warn);
}

#[test]
fn suppressed_sample_never_warns() {
    let cfg = AppConfig::default();
    let mut state = RunState::new();
    process_sample(&mut state, &cfg, 95_000, true);
    let again = process_sample(&mut state, &cfg, 95_100, true);
    assert!(!again.outcome.emit);
    assert!(!again.warn);
}

#[test]
fn transport_failure_never_replaces_the_stored_value() {
    let cfg = AppConfig::default();
    let mut state = RunState::new();
    let tried = process_sample(&mut state, &cfg, 95_000, false);
    assert!(tried.outcome.emit);
    assert!(!tried.warn);
    assert_eq!(state.last_emitted_tenths, None);
    let redelivered = process_sample(&mut state, &cfg, 95_000, true);
    assert!(redelivered.outcome.emit);
    assert!(redelivered.warn);
    assert_eq!(state.last_emitted_tenths, Some(950));
}

#[test]
fn interval_is_minutes_times_sixty() {
    let cfg = AppConfig::default();
    assert_eq!(cfg.check_interval_minutes, 30);
    assert_eq!(interval_seconds(&cfg), 1800);
}

#[test]
fn bridge_decision_table() {
    assert_eq!(bridge_decision(EmitPhase::First, true), BridgeAction::Deliver);
    assert_eq!(bridge_decision(EmitPhase::First, false), BridgeAction::ScheduleRetry);
    assert_eq!(bridge_decision(EmitPhase::Retry, true), BridgeAction::Deliver);
    assert_eq!(bridge_decision(EmitPhase::Retry, false), BridgeAction::Drop);
}

#[test]
fn listener_registration_is_idempotent() {
    let mut reg = ListenerRegistry::new();
    assert!(reg.register());
    assert!(!reg.register());
    assert!(reg.registered);
}

#[test]
fn blank_urls_are_recognised() {
    assert!(is_blank(""));
    assert!(is_blank("   \t\n"));
    assert!(!is_blank(" https://example.invalid/hook "));
}
