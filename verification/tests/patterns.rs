use minmax_monitor::extractor::extract_usage;

#[test]
fn rebate_wording_is_rejected() {
    assert!(extract_usage("年终大促折扣95%仅限今天全场可用").is_none());
}

#[test]
fn gift_wording_is_rejected() {
    assert!(extract_usage("充值活动赠送20%的额外点数请查收").is_none());
}

#[test]
fn used_wording_is_rejected() {
    assert!(extract_usage("本月流量已用83%请尽快购买加量包").is_none());
}

#[test]
fn remaining_wording_is_rejected() {
    assert!(extract_usage("本月套餐剩余45%可供使用请注意").is_none());
}

#[test]
fn available_wording_is_rejected() {
    assert!(extract_usage("当前资源池可用37%请合理安排任务").is_none());
}

#[test]
fn consumed_wording_is_rejected() {
    assert!(extract_usage("本期预算已消耗66%请控制后续支出").is_none());
}

#[test]
fn progress_counter_wording_is_rejected() {
    assert!(extract_usage("下载进度: 45，使用量为 62%左右请查看").is_none());
}

#[test]
fn completed_counter_wording_is_rejected() {
    assert!(extract_usage("items completed 80, usage 55% now").is_none());
}

#[test]
fn progress_counter_english_is_rejected() {
    assert!(extract_usage("sync progress 12, level 55% shown").is_none());
}

#[test]
fn percent_followed_by_state_word_is_rejected() {
    assert!(extract_usage("当前已处理 30% 进行中的任务稍后完成").is_none());
}

#[test]
fn state_word_before_percent_is_rejected() {
    assert!(extract_usage("目前任务完成 62% 还在继续推进中").is_none());
}

#[test]
fn total_amount_wording_is_rejected() {
    assert!(extract_usage("本年度总额: 88%的预算已经执行完毕").is_none());
}

#[test]
fn total_sum_wording_is_rejected() {
    assert!(extract_usage("本年度总计: 88%的预算已经执行完毕").is_none());
}

#[test]
fn limit_wording_is_rejected() {
    assert!(extract_usage("账户流量限制: 70%封顶后将自动断开").is_none());
}

#[test]
fn total_volume_wording_is_rejected() {
    assert!(extract_usage("存储空间总量: 64%已经分配给各项目").is_none());
}

#[test]
fn exclusion_is_judged_per_occurrence() {
    // The discount percentage is rejected on its own context; a clean
    // reading far enough away is still selected.
    let text = "优惠95%非常划算大家快来抢购仅限今天 \
                xxxxxxxxxxxxxxxxxxxxxxxxxxxxxxxxxxxxxxxx \
                usage level is at 47% for the cycle";
    let c = extract_usage(text).expect("the clean reading survives");
    assert_eq!(c.value_milli, 47_000);
}

#[test]
fn fullwidth_colon_counts_in_counter_wording() {
    assert!(extract_usage("当前资源配额：60%，请合理安排使用计划").is_none());
}
