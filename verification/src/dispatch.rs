//! Alert dispatch.
//!
//! An alert fans out over two independent channels: the system notification,
//! always attempted, and the webhook, attempted only when a webhook URL is
//! configured. Failures are isolated per channel and never cascade; the
//! overall dispatch always returns a report, never an error, so one broken
//! channel cannot stall the periodic monitoring. The sends themselves are
//! I/O and stay with the caller; this module builds the texts and the
//! webhook payload, decides which channels to attempt, and classifies the
//! webhook's HTTP response.

use crate::config::AppConfig;
use crate::config::is_blank;
use crate::percent::MAX_TENTHS;
use crate::percent::dec_string;
use crate::percent::spec_dec_rep;
use crate::percent::spec_digit_char;
use crate::percent::spec_tenths_rep;
use crate::percent::tenths_string;
use crate::strutil::chars_of;
use crate::strutil::push_chars;
use crate::strutil::string_of_chars;
use vstd::prelude::*;
use vstd::string::StrSliceExecFns;
use vstd::string::StringExecFns;

verus! {

/// Kind of an alert.
#[derive(Clone, Copy, Debug, PartialEq, Eq, Structural)]
pub enum AlertKind {
    /// The last emitted sample reached the warning threshold.
    Warning,
    /// A sampling cycle failed.
    Error,
}

/// One alert, constructed per dispatch and never persisted.
#[derive(Clone, Debug)]
pub struct AlertEvent {
    /// Kind of the alert.
    pub kind: AlertKind,
    /// Notification title.
    pub title: String,
    /// Notification body.
    pub body: String,
    /// The configuration snapshot the dispatch runs under.
    pub config: AppConfig,
}

/// Title of a warning alert.
pub open spec fn spec_warning_title() -> Seq<char> {
    "MinMax 使用量预警"@
}

/// Body of a warning alert for a usage value in tenths of a percent.
pub open spec fn spec_warning_body(tenths: nat) -> Seq<char> {
    "当前使用量已达到 "@ + spec_tenths_rep(tenths) + "%，请注意配额使用情况！"@
}

/// Title of an error alert.
pub open spec fn spec_error_title() -> Seq<char> {
    "MinMax 监控异常"@
}

/// Body of an error alert for a failure message.
pub open spec fn spec_error_body(msg: Seq<char>) -> Seq<char> {
    "检查使用量时发生错误: "@ + msg
}

/// The footer every webhook message carries under its body.
pub open spec fn spec_with_footer(body: Seq<char>) -> Seq<char> {
    body + "\n\n---\n*来自 MiniMax 使用量监控*"@
}

/// Builds the warning alert for a usage value in tenths of a percent.
pub fn warning_event(usage_tenths: u32, cfg: &AppConfig) -> (ev: AlertEvent)
    requires
        usage_tenths <= MAX_TENTHS,
    ensures
        ev.kind is Warning,
        ev.title@ == spec_warning_title(),
        ev.body@ == spec_warning_body(usage_tenths as nat),
        ev.config.webhook_url@ == cfg.webhook_url@,
        ev.config.warning_threshold_tenths == cfg.warning_threshold_tenths,
{
    let mut body = String::new();
    body.append("当前使用量已达到 ");
    let num = tenths_string(usage_tenths);
    body.append(num.as_str());
    body.append("%，请注意配额使用情况！");
    AlertEvent {
        kind: AlertKind::Warning,
        title: String::from_str("MinMax 使用量预警"),
        body,
        config: cfg.snapshot(),
    }
}

/// Builds the error alert for a failed sampling cycle.
pub fn error_event(msg: &str, cfg: &AppConfig) -> (ev: AlertEvent)
    ensures
        ev.kind is Error,
        ev.title@ == spec_error_title(),
        ev.body@ == spec_error_body(msg@),
        ev.config.webhook_url@ == cfg.webhook_url@,
        ev.config.warning_threshold_tenths == cfg.warning_threshold_tenths,
{
    let mut body = String::new();
    body.append("检查使用量时发生错误: ");
    body.append(msg);
    AlertEvent {
        kind: AlertKind::Error,
        title: String::from_str("MinMax 监控异常"),
        body,
        config: cfg.snapshot(),
    }
}

/// Hexadecimal digit character, lower case.
pub open spec fn spec_hex_char(d: nat) -> char {
    if d < 10 {
        spec_digit_char(d)
    } else if d == 10 {
        'a'
    } else if d == 11 {
        'b'
    } else if d == 12 {
        'c'
    } else if d == 13 {
        'd'
    } else if d == 14 {
        'e'
    } else {
        'f'
    }
}

/// JSON escape of one character: quote, backslash and the common control
/// characters as two-character escapes, other control characters as
/// `\u00XX`, everything else as itself.
pub open spec fn spec_esc_char(c: char) -> Seq<char> {
    if c == '"' {
        seq!['\\', '"']
    } else if c == '\\' {
        seq!['\\', '\\']
    } else if c == '\n' {
        seq!['\\', 'n']
    } else if c == '\r' {
        seq!['\\', 'r']
    } else if c == '\t' {
        seq!['\\', 't']
    } else if (c as u32) < 32 {
        seq!['\\', 'u', '0', '0', spec_hex_char((c as u32 / 16) as nat), spec_hex_char(
            (c as u32 % 16) as nat,
        )]
    } else {
        seq![c]
    }
}

/// JSON escape of the text from position `i` on.
pub open spec fn spec_escaped_from(s: Seq<char>, i: int) -> Seq<char>
    decreases s.len() - i,
    when 0 <= i <= s.len()
{
    if i >= s.len() {
        Seq::empty()
    } else {
        spec_esc_char(s[i]) + spec_escaped_from(s, i + 1)
    }
}

/// A JSON string literal holding the text: quoted and escaped.
pub open spec fn spec_json_string(s: Seq<char>) -> Seq<char> {
    seq!['"'] + spec_escaped_from(s, 0) + seq!['"']
}

/// The webhook payload for a title and a content: a markdown message in
/// the service's JSON shape.
pub open spec fn spec_payload(title: Seq<char>, content: Seq<char>) -> Seq<char> {
    "{\"msgtype\":\"markdown\",\"markdown\":{\"title\":"@ + spec_json_string(title)
        + ",\"content\":"@ + spec_json_string(content) + "}}"@
}

/// Hexadecimal digit character, lower case.
fn hex_char(d: u32) -> (c: char)
    requires
        d < 16,
    ensures
        c == spec_hex_char(d as nat),
{
    match d {
        0 => '0',
        1 => '1',
        2 => '2',
        3 => '3',
        4 => '4',
        5 => '5',
        6 => '6',
        7 => '7',
        8 => '8',
        9 => '9',
        10 => 'a',
        11 => 'b',
        12 => 'c',
        13 => 'd',
        14 => 'e',
        _ => 'f',
    }
}

/// Appends the JSON escape of every character of `s`.
fn push_escaped(s: &Vec<char>, out: &mut Vec<char>)
    ensures
        final(out)@ == old(out)@ + spec_escaped_from(s@, 0),
{
    let n = s.len();
    let mut i: usize = 0;
    while i < n
        invariant
            i <= n,
            n == s@.len(),
            old(out)@ + spec_escaped_from(s@, 0) == out@ + spec_escaped_from(s@, i as int),
        decreases n - i,
    {
        let ghost prev = out@;
        let ghost i0 = i as int;
        let c = s[i];
        if c == '"' {
            out.push('\\');
            out.push('"');
        } else if c == '\\' {
            out.push('\\');
            out.push('\\');
        } else if c == '\n' {
            out.push('\\');
            out.push('n');
        } else if c == '\r' {
            out.push('\\');
            out.push('r');
        } else if c == '\t' {
            out.push('\\');
            out.push('t');
        } else if (c as u32) < 32 {
            out.push('\\');
            out.push('u');
            out.push('0');
            out.push('0');
            out.push(hex_char((c as u32) / 16));
            out.push(hex_char((c as u32) % 16));
        } else {
            out.push(c);
        }
        assert(out@ =~= prev + spec_esc_char(s@[i0]));
        i = i + 1;
        assert(spec_escaped_from(s@, i0) == spec_esc_char(s@[i0]) + spec_escaped_from(
            s@,
            i as int,
        ));
        assert(prev + spec_escaped_from(s@, i0) =~= out@ + spec_escaped_from(s@, i as int));
    }
    assert(spec_escaped_from(s@, i as int) =~= Seq::<char>::empty());
    assert(final(out)@ =~= old(out)@ + spec_escaped_from(s@, 0));
}

/// Builds the webhook payload of a title and a content, per
/// [`spec_payload`].
pub fn webhook_payload(title: &str, content: &str) -> (r: String)
    ensures
        r@ == spec_payload(title@, content@),
{
    let t = chars_of(title);
    let c = chars_of(content);
    let mut out: Vec<char> = Vec::new();
    push_chars_of_str(&mut out, "{\"msgtype\":\"markdown\",\"markdown\":{\"title\":");
    out.push('"');
    push_escaped(&t, &mut out);
    out.push('"');
    push_chars_of_str(&mut out, ",\"content\":");
    out.push('"');
    push_escaped(&c, &mut out);
    out.push('"');
    push_chars_of_str(&mut out, "}}");
    assert(out@ =~= spec_payload(title@, content@));
    string_of_chars(&out)
}

/// Appends the characters of a string slice.
fn push_chars_of_str(out: &mut Vec<char>, s: &str)
    ensures
        final(out)@ == old(out)@ + s@,
{
    let cs = chars_of(s);
    let n = cs.len();
    let mut i: usize = 0;
    while i < n
        invariant
            i <= n,
            n == s@.len(),
            cs@ == s@,
            out@ == old(out)@ + s@.subrange(0, i as int),
        decreases n - i,
    {
        out.push(cs[i]);
        i = i + 1;
        assert(out@ =~= old(out)@ + s@.subrange(0, i as int));
    }
    assert(final(out)@ =~= old(out)@ + s@);
}

/// The webhook message content of an alert: its body over the footer.
pub fn message_content(body: &str) -> (r: String)
    ensures
        r@ == spec_with_footer(body@),
{
    let mut s = String::from_str(body);
    s.append("\n\n---\n*来自 MiniMax 使用量监控*");
    s
}

/// The dispatch plan of an alert: whether each channel is attempted, and
/// the payload the webhook channel posts.
pub struct DispatchPlan {
    /// The system-notification channel is attempted. It always is.
    pub system: bool,
    /// The payload for the webhook channel, present exactly when a webhook
    /// URL is configured; an unconfigured webhook is skipped, which is not
    /// a failure.
    pub webhook_payload: Option<String>,
}

/// Plans the dispatch of an alert: the system channel is always attempted;
/// the webhook channel exactly when configured, posting the alert's title
/// and its body over the footer.
pub fn dispatch_plan(ev: &AlertEvent) -> (p: DispatchPlan)
    ensures
        p.system,
        (p.webhook_payload is Some) == ev.config.webhook_configured(),
        p.webhook_payload matches Some(s) ==> s@ == spec_payload(
            ev.title@,
            spec_with_footer(ev.body@),
        ),
{
    let webhook_payload = if !is_blank(ev.config.webhook_url.as_str()) {
        let content = message_content(ev.body.as_str());
        Some(webhook_payload(ev.title.as_str(), content.as_str()))
    } else {
        None
    };
    DispatchPlan { system: true, webhook_payload }
}

/// Outcome of the webhook channel for one dispatch. A skipped channel is
/// not a failure; a network failure is reported distinctly from a
/// rejection by the service.
#[derive(Clone, Debug)]
pub enum WebhookOutcome {
    /// No webhook URL configured; the channel was not attempted.
    Skipped,
    /// The service answered with a success status.
    Accepted,
    /// The service answered with a failure status; the reason is the
    /// service's structured error message when its body carried one, else
    /// `HTTP <status>`.
    Rejected(String),
    /// The request never reached the service.
    NetworkFailure(String),
}

/// The `errmsg` string field of the body, when the body is a JSON object
/// carrying one.
pub uninterp spec fn errmsg_field(body: Seq<char>) -> Option<Seq<char>>;

/// Relies on `serde_json::from_str`, `serde_json::Value::get` and
/// `serde_json::Value::as_str`: the `"errmsg"` string field of the body
/// parsed as JSON, absent when the body is not a JSON object or carries no
/// such string field. A function of the body text alone.
#[verifier::external_body]
fn parse_errmsg(body: &str) -> (r: Option<String>)
    ensures
        (r is Some) == (errmsg_field(body@) is Some),
        r matches Some(s) ==> errmsg_field(body@) == Some(s@),
{
    match serde_json::from_str::<serde_json::Value>(body) {
        Ok(v) => v.get("errmsg").and_then(|e| e.as_str()).map(|s| s.to_string()),
        Err(_) => None,
    }
}

/// HTTP success per the webhook protocol: any status in the 200 range.
pub open spec fn spec_is_success(status: u16) -> bool {
    200 <= status < 300
}

/// The reason reported for a rejected webhook call: the service's error
/// message when one was parsed, else `HTTP <status>`.
pub open spec fn spec_reject_reason(status: nat, errmsg: Option<Seq<char>>) -> Seq<char> {
    match errmsg {
        Some(m) => m,
        None => "HTTP "@ + spec_dec_rep(status),
    }
}

/// Renders the rejection reason from the parsed error field, per
/// [`spec_reject_reason`].
pub fn reject_reason(status: u16, errmsg: Option<String>) -> (r: String)
    ensures
        r@ == spec_reject_reason(
            status as nat,
            match errmsg {
                Some(s) => Some(s@),
                None => None,
            },
        ),
{
    match errmsg {
        Some(s) => s,
        None => {
            let mut t = String::from_str("HTTP ");
            let num = dec_string(status as u32);
            t.append(num.as_str());
            t
        },
    }
}

/// Classifies the webhook's HTTP response: a success status is accepted;
/// any other is rejected, with the service's `errmsg` as the reason when
/// the body carries one, else `HTTP <status>`.
pub fn classify_webhook_response(status: u16, body: &str) -> (r: WebhookOutcome)
    ensures
        spec_is_success(status) ==> r is Accepted,
        !spec_is_success(status) ==> (r matches WebhookOutcome::Rejected(msg) && msg@
            == spec_reject_reason(
            status as nat,
            errmsg_field(body@),
        )),
{
    if 200 <= status && status < 300 {
        WebhookOutcome::Accepted
    } else {
        let errmsg = parse_errmsg(body);
        WebhookOutcome::Rejected(reject_reason(status, errmsg))
    }
}

/// Report of one dispatch. Dispatch never raises: whatever each channel
/// did, the caller gets this report back and the scheduler loop goes on.
#[derive(Clone, Debug)]
pub struct DispatchReport {
    /// The system-notification channel succeeded.
    pub system_ok: bool,
    /// What the webhook channel did.
    pub webhook: WebhookOutcome,
}

/// Seals one dispatch: both channels were attempted independently, their
/// outcomes are recorded side by side, and nothing is raised — a failure
/// on either channel never blocks the other nor the caller.
pub fn finish_dispatch(system_ok: bool, webhook: WebhookOutcome) -> (r: DispatchReport)
    ensures
        r.system_ok == system_ok,
        r.webhook == webhook,
{
    DispatchReport { system_ok, webhook }
}

} // verus!
