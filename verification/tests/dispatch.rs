use minmax_monitor::dispatch::classify_webhook_response;
use minmax_monitor::dispatch::dispatch_plan;
use minmax_monitor::dispatch::error_event;
use minmax_monitor::dispatch::finish_dispatch;
use minmax_monitor::dispatch::message_content;
use minmax_monitor::dispatch::warning_event;
use minmax_monitor::dispatch::webhook_payload;
use minmax_monitor::dispatch::AlertKind;
use minmax_monitor::dispatch::WebhookOutcome;
use minmax_monitor::AppConfig;
use minmax_monitor::Locale;

fn config_with_webhook() -> AppConfig {
    AppConfig {
        warning_threshold_tenths: 900,
        check_interval_minutes: 30,
        webhook_url: String::from("https://example.invalid/hook"),
        locale: Locale::Zh,
    }
}

#[test]
fn warning_event_text_is_exact() {
    let cfg = AppConfig::default();
    let ev = warning_event(935, &cfg);
    assert_eq!(ev.kind, AlertKind::Warning);
    assert_eq!(ev.title, "MinMax 使用量预警");
    assert_eq!(ev.body, "当前使用量已达到 93.5%，请注意配额使用情况！");
}

#[test]
fn error_event_text_is_exact() {
    let cfg = AppConfig::default();
    let ev = error_event("no signal", &cfg);
    assert_eq!(ev.kind, AlertKind::Error);
    assert_eq!(ev.title, "MinMax 监控异常");
    assert_eq!(ev.body, "检查使用量时发生错误: no signal");
}

#[test]
fn payload_has_the_documented_shape() {
    let p = webhook_payload("T", "C");
    assert_eq!(p, "{\"msgtype\":\"markdown\",\"markdown\":{\"title\":\"T\",\"content\":\"C\"}}");
}

#[test]
fn payload_escapes_quotes_backslashes_and_control_characters() {
    let p = webhook_payload("a\"b", "line\nnext\t\\end\u{1}");
    assert_eq!(
        p,
        "{\"msgtype\":\"markdown\",\"markdown\":{\"title\":\"a\\\"b\",\"content\":\"line\\nnext\\t\\\\end\\u0001\"}}"
    );
}

#[test]
fn payload_is_valid_json_for_the_service() {
    // The verified builder must agree with an independent JSON parser.
    let p = webhook_payload("标题 \"A\"", "内容\r\n第二行");
    let v: serde_json::Value = serde_json::from_str(&p).expect("well-formed JSON");
    assert_eq!(v["msgtype"], "markdown");
    assert_eq!(v["markdown"]["title"], "标题 \"A\"");
    assert_eq!(v["markdown"]["content"], "内容\r\n第二行");
}

#[test]
fn message_content_carries_the_footer() {
    let c = message_content("body text");
    assert_eq!(c, "body text\n\n---\n*来自 MiniMax 使用量监控*");
}

#[test]
fn rejection_reports_the_service_error_message() {
    // HTTP 500 with a structured error body is reported by its errmsg,
    // not by the raw body and not by the status line.
    let r = classify_webhook_response(500, "{\"errmsg\":\"invalid token\"}");
    match r {
        WebhookOutcome::Rejected(msg) => assert_eq!(msg, "invalid token"),
        other => panic!("expected a rejection, got {:?}", other),
    }
}

#[test]
fn rejection_without_error_field_reports_the_status() {
    let r = classify_webhook_response(503, "gateway overloaded");
    match r {
        WebhookOutcome::Rejected(msg) => assert_eq!(msg, "HTTP 503"),
        other => panic!("expected a rejection, got {:?}", other),
    }
    let r2 = classify_webhook_response(404, "{\"code\": 40404}");
    match r2 {
        WebhookOutcome::Rejected(msg) => assert_eq!(msg, "HTTP 404"),
        other => panic!("expected a rejection, got {:?}", other),
    }
}

#[test]
fn success_statuses_are_accepted() {
    assert!(matches!(classify_webhook_response(200, ""), WebhookOutcome::Accepted));
    assert!(matches!(classify_webhook_response(204, ""), WebhookOutcome::Accepted));
    assert!(matches!(classify_webhook_response(299, ""), WebhookOutcome::Accepted));
    assert!(!matches!(classify_webhook_response(301, ""), WebhookOutcome::Accepted));
}

#[test]
fn unconfigured_webhook_is_skipped_not_failed() {
    let cfg = AppConfig::default();
    let ev = warning_event(950, &cfg);
    let plan = dispatch_plan(&ev);
    assert!(plan.system);
    assert!(plan.webhook_payload.is_none());
}

#[test]
fn configured_webhook_gets_the_full_payload() {
    let cfg = config_with_webhook();
    let ev = warning_event(950, &cfg);
    let plan = dispatch_plan(&ev);
    assert!(plan.system);
    let payload = plan.webhook_payload.expect("webhook configured");
    let v: serde_json::Value = serde_json::from_str(&payload).expect("well-formed JSON");
    assert_eq!(v["markdown"]["title"], "MinMax 使用量预警");
    assert_eq!(
        v["markdown"]["content"],
        "当前使用量已达到 95.0%，请注意配额使用情况！\n\n---\n*来自 MiniMax 使用量监控*"
    );
}

#[test]
fn webhook_failure_does_not_block_the_system_channel() {
    // The plan always includes the system channel, whatever the webhook
    // will answer; a webhook rejection stands beside a successful system
    // notification in the final report.
    let cfg = config_with_webhook();
    let ev = warning_event(950, &cfg);
    let plan = dispatch_plan(&ev);
    assert!(plan.system);
    let webhook = classify_webhook_response(500, "{\"errmsg\":\"invalid token\"}");
    let report = finish_dispatch(true, webhook);
    assert!(report.system_ok);
    match report.webhook {
        WebhookOutcome::Rejected(msg) => assert_eq!(msg, "invalid token"),
        other => panic!("expected a rejection, got {:?}", other),
    }
}

#[test]
fn network_failures_are_distinct_from_rejections() {
    let network = WebhookOutcome::NetworkFailure(String::from("connection refused"));
    let report = finish_dispatch(true, network);
    assert!(matches!(report.webhook, WebhookOutcome::NetworkFailure(_)));
    assert!(!matches!(report.webhook, WebhookOutcome::Rejected(_)));
}
