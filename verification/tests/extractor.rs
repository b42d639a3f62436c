use minmax_monitor::extractor::extract_usage;
use minmax_monitor::Priority;

#[test]
fn out_of_range_value_is_never_selected() {
    // 150% is outside [0,100]: the only occurrence is rejected.
    let r = extract_usage("Value anomaly shown as 150% in the counter area");
    assert!(r.is_none());
}

#[test]
fn negative_like_text_has_no_match() {
    // The scanner reads unsigned numbers; a minus sign is just context.
    let r = extract_usage("drift of -15% appears in this diagnostic line");
    let c = r.expect("15% is a valid occurrence");
    assert_eq!(c.value_milli, 15_000);
}

#[test]
fn single_likely_occurrence_is_returned() {
    let r = extract_usage("Current usage level is at 47% for this billing cycle");
    let c = r.expect("one likely candidate");
    assert_eq!(c.value_milli, 47_000);
    assert_eq!(c.priority, Priority::Likely);
}

#[test]
fn decimal_value_is_read_in_thousandths() {
    let r = extract_usage("Current usage level is at 93.5% for this billing cycle");
    let c = r.expect("decimal candidate");
    assert_eq!(c.value_milli, 93_500);
}

#[test]
fn whitespace_before_percent_sign_is_allowed() {
    let r = extract_usage("Current usage level is at 47 % right now in the cycle");
    let c = r.expect("candidate with spaced percent sign");
    assert_eq!(c.value_milli, 47_000);
}

#[test]
fn highest_value_wins_within_a_tier() {
    let r = extract_usage("Usage at 45% for plan A, and usage at 72% for plan B");
    let c = r.expect("two likely candidates");
    assert_eq!(c.value_milli, 72_000);
    assert_eq!(c.priority, Priority::Likely);
}

#[test]
fn likely_band_outranks_higher_possible_value() {
    // 100% is outside the usage-like band [10,99], so the 35% reading wins.
    let r = extract_usage("Gauge peaks near 100% while usage sits at 35% overall");
    let c = r.expect("banded candidate");
    assert_eq!(c.value_milli, 35_000);
    assert_eq!(c.priority, Priority::Likely);
}

#[test]
fn equal_candidates_resolve_to_first_occurrence() {
    let text = "usage copy one 55% here and then usage copy two 55% there";
    let c = extract_usage(text).expect("tied candidates");
    assert_eq!(c.value_milli, 55_000);
    assert!(c.context.contains("one"));
}

#[test]
fn repeated_runs_are_deterministic() {
    let text = "Usage at 45% for plan A, and usage at 72% for plan B";
    let a = extract_usage(text).expect("first run");
    let b = extract_usage(text).expect("second run");
    assert_eq!(a.value_milli, b.value_milli);
    assert_eq!(a.priority, b.priority);
    assert_eq!(a.context, b.context);
}

#[test]
fn boundary_values_rank_possible_but_survive() {
    let r = extract_usage("metering for the whole period reports 100% used up by now");
    let c = r.expect("boundary candidate");
    assert_eq!(c.value_milli, 100_000);
    assert_eq!(c.priority, Priority::Possible);

    let r0 = extract_usage("metering for the whole period reports 0% used up by now");
    let c0 = r0.expect("zero candidate");
    assert_eq!(c0.value_milli, 0);
    assert_eq!(c0.priority, Priority::Possible);
}

#[test]
fn short_context_is_rejected() {
    // The normalised context is shorter than ten characters.
    let r = extract_usage("xx 55% yy");
    assert!(r.is_none());
}

#[test]
fn standalone_percentage_is_rejected() {
    let r = extract_usage("   77%   ");
    assert!(r.is_none());
}

#[test]
fn discount_wording_is_rejected() {
    let r = extract_usage("本次活动期间一律优惠95%十分划算欢迎选购参加");
    assert!(r.is_none());
}

#[test]
fn progress_wording_is_rejected() {
    let r = extract_usage("long running job progress 80 of the full batch so far");
    assert!(r.is_none() || r.unwrap().value_milli != 80_000);
    let r2 = extract_usage("rollout progress 80% across the fleet is on track now");
    assert!(r2.is_none());
}

#[test]
fn quota_wording_is_rejected() {
    let r = extract_usage("当前账户的资源配额: 60%，请合理安排使用计划");
    assert!(r.is_none());
}

#[test]
fn used_marker_after_percent_is_rejected() {
    let r = extract_usage("本期数据统计为 40% 已提交审核等待下一步处理");
    assert!(r.is_none());
}

#[test]
fn whitespace_is_normalised_before_judging_context() {
    let r = extract_usage("usage level sits at\n\n 47% of\tthe plan right now");
    let c = r.expect("candidate across line breaks");
    assert_eq!(c.value_milli, 47_000);
    assert!(!c.context.contains('\n'));
    assert!(!c.context.contains('\t'));
}

#[test]
fn rejected_occurrence_does_not_mask_a_later_one() {
    // The out-of-range 400% is dropped; the later 62% is still found.
    let r = extract_usage("spike read 400% at first, then usage settled at 62% flat");
    let c = r.expect("later candidate");
    assert_eq!(c.value_milli, 62_000);
}

#[test]
fn empty_text_has_no_signal() {
    assert!(extract_usage("").is_none());
    assert!(extract_usage("no percentages anywhere in this text").is_none());
}

#[test]
fn extra_fraction_digits_beyond_the_third_are_ignored() {
    let r = extract_usage("Current usage level is at 47.1239% for this billing run");
    let c = r.expect("candidate with long fraction");
    assert_eq!(c.value_milli, 47_123);
}
