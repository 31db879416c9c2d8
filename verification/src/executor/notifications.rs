//! Notification settings and the decisions around sending them: who receives a
//! message, whether a finished execution warrants one, and the texts sent and logged.
use crate::db::models::execution::ExecutionStatus;
use crate::db::models::job::JobNotificationConfig;
use crate::text::push_decimal;
use vstd::prelude::*;

verus! {

/// SMTP email delivery configuration.
#[derive(Debug, Clone)]
pub struct EmailConfig {
    pub enabled: bool,
    pub smtp_host: String,
    pub smtp_port: u16,
    pub username: String,
    pub password: String,
    pub from: String,
    pub tls: bool,
}

/// SMS delivery configuration via an HTTP webhook.
#[derive(Debug, Clone)]
pub struct SmsConfig {
    pub enabled: bool,
    pub webhook_url: String,
    pub auth_user: Option<String>,
    pub auth_pass: Option<String>,
    pub from_number: Option<String>,
}

/// Email addresses and phone numbers that receive notifications.
#[derive(Debug, Clone)]
pub struct NotificationRecipients {
    pub emails: Vec<String>,
    pub phones: Vec<String>,
}

/// Toggles for system-level alert notifications (e.g., agent going offline).
#[derive(Debug, Clone)]
pub struct SystemAlerts {
    pub agent_offline: bool,
}

/// The value a missing `tls` setting takes.
pub fn default_true() -> (r: bool)
    ensures
        r,
{
    true
}

/// A copy of a message body.
pub fn bod_clone(s: &str) -> (r: String)
    ensures
        r@ == s@,
{
    s.to_string()
}

/// Copies a list of strings.
fn copy_strings(v: &Vec<String>) -> (r: Vec<String>)
    ensures
        r@.len() == v@.len(),
        forall|i: int| 0 <= i < v@.len() ==> #[trigger] r@[i]@ == v@[i]@,
{
    let mut r: Vec<String> = Vec::new();
    let mut i: usize = 0;
    while i < v.len()
        invariant
            i <= v@.len(),
            r@.len() == i,
            forall|j: int| 0 <= j < i ==> #[trigger] r@[j]@ == v@[j]@,
        decreases v.len() - i,
    {
        r.push(v[i].clone());
        i = i + 1;
    }
    r
}

/// A copy of a recipient list.
pub fn copy_recipients(r: &NotificationRecipients) -> (c: NotificationRecipients)
    ensures
        same_recipients(c, *r),
{
    NotificationRecipients { emails: copy_strings(&r.emails), phones: copy_strings(&r.phones) }
}

/// Two string lists hold the same texts in the same order.
pub open spec fn same_strings(a: Seq<String>, b: Seq<String>) -> bool {
    a.len() == b.len() && forall|i: int| 0 <= i < a.len() ==> #[trigger] a[i]@ == b[i]@
}

/// Two recipient lists name the same addresses and numbers.
pub open spec fn same_recipients(a: NotificationRecipients, b: NotificationRecipients) -> bool {
    same_strings(a.emails@, b.emails@) && same_strings(a.phones@, b.phones@)
}

/// Whether a per-job recipient list is used in place of the global one: when it
/// names at least one address or number.
pub open spec fn override_applies(r: Option<&NotificationRecipients>) -> bool {
    match r {
        Some(o) => o.emails@.len() > 0 || o.phones@.len() > 0,
        None => false,
    }
}

/// Picks the recipients of a notification: the override when it names anyone,
/// else the global list.
pub fn choose_recipients(
    recipient_override: Option<&NotificationRecipients>,
    global: &NotificationRecipients,
) -> (r: NotificationRecipients)
    ensures
        override_applies(recipient_override) ==> same_recipients(
            r,
            *recipient_override.unwrap(),
        ),
        !override_applies(recipient_override) ==> same_recipients(
            r,
            *global,
        ),
{
    match recipient_override {
        Some(o) => {
            if o.emails.len() > 0 || o.phones.len() > 0 {
                copy_recipients(o)
            } else {
                copy_recipients(global)
            }
        },
        None => copy_recipients(global),
    }
}

/// Whether a finished execution with `status` warrants a notification under `notif`.
pub open spec fn spec_should_notify(notif: JobNotificationConfig, status: ExecutionStatus) -> bool {
    match status {
        ExecutionStatus::Failed | ExecutionStatus::TimedOut => notif.on_failure
            || notif.on_assertion_failure,
        ExecutionStatus::Succeeded => notif.on_success,
        _ => false,
    }
}

/// Executable form of [`spec_should_notify`].
pub fn should_notify(notif: &JobNotificationConfig, status: ExecutionStatus) -> (r: bool)
    ensures
        r == spec_should_notify(*notif, status),
{
    match status {
        ExecutionStatus::Failed | ExecutionStatus::TimedOut => notif.on_failure
            || notif.on_assertion_failure,
        ExecutionStatus::Succeeded => notif.on_success,
        _ => false,
    }
}

/// The word for the outcome in a notification's subject.
pub open spec fn outcome_word(status: ExecutionStatus) -> Seq<char> {
    match status {
        ExecutionStatus::Succeeded => "succeeded"@,
        ExecutionStatus::Failed => "failed"@,
        ExecutionStatus::TimedOut => "timed out"@,
        _ => "completed"@,
    }
}

/// `[Kronforce] Job '<name>' <outcome>`.
pub fn notification_subject(job_name: &str, status: ExecutionStatus) -> (r: String)
    ensures
        r@ == "[Kronforce] Job '"@ + job_name@ + "' "@ + outcome_word(status),
{
    let mut s = String::new();
    s.append("[Kronforce] Job '");
    s.append(job_name);
    s.append("' ");
    let w = match status {
        ExecutionStatus::Succeeded => "succeeded",
        ExecutionStatus::Failed => "failed",
        ExecutionStatus::TimedOut => "timed out",
        _ => "completed",
    };
    s.append(w);
    s
}

/// The body of an execution notification.
pub open spec fn spec_notification_body(
    job_name: Seq<char>,
    status: ExecutionStatus,
    exec_id_short: Seq<char>,
    time_text: Seq<char>,
    stderr_excerpt: Seq<char>,
) -> Seq<char> {
    "Job: "@ + job_name + "\nStatus: "@ + status.spec_debug_name() + "\nExecution: "@
        + exec_id_short + "\nTime: "@ + time_text + "\n"@ + (if stderr_excerpt.len() > 0 {
        "\nError output:\n"@ + stderr_excerpt
    } else {
        Seq::<char>::empty()
    })
}

/// `Job: …\nStatus: …\nExecution: …\nTime: …\n`, then the error output when there is any.
pub fn notification_body(
    job_name: &str,
    status: ExecutionStatus,
    exec_id_short: &str,
    time_text: &str,
    stderr_excerpt: &str,
) -> (r: String)
    ensures
        r@ == spec_notification_body(job_name@, status, exec_id_short@, time_text@, stderr_excerpt@),
{
    let mut s = String::new();
    s.append("Job: ");
    s.append(job_name);
    s.append("\nStatus: ");
    s.append(status.debug_name());
    s.append("\nExecution: ");
    s.append(exec_id_short);
    s.append("\nTime: ");
    s.append(time_text);
    s.append("\n");
    if stderr_excerpt.unicode_len() > 0 {
        s.append("\nError output:\n");
        s.append(stderr_excerpt);
    }
    s
}

/// `<channel> sent to <n> recipient(s): <subject>`, logged after a delivery.
pub fn sent_message(channel: &str, count: u64, subject: &str) -> (r: String)
    ensures
        r@ == channel@ + " sent to "@ + crate::text::dec(count as nat) + " recipient(s): "@ + subject@,
{
    let mut s = String::new();
    s.append(channel);
    s.append(" sent to ");
    push_decimal(&mut s, count);
    s.append(" recipient(s): ");
    s.append(subject);
    s
}

/// `<channel> failed: <subject> — <error>`, logged after a failed delivery.
pub fn failed_message(channel: &str, subject: &str, error: &str) -> (r: String)
    ensures
        r@ == channel@ + " failed: "@ + subject@ + " — "@ + error@,
{
    let mut s = String::new();
    s.append(channel);
    s.append(" failed: ");
    s.append(subject);
    s.append(" — ");
    s.append(error);
    s
}

/// What trying one channel in a test notification came to.
pub enum ChannelTest {
    /// The channel is switched off.
    Disabled,
    /// The channel is on but nobody is configured to receive it.
    NoRecipients,
    /// A message went to this recipient.
    Sent(String),
    /// Sending failed with this error.
    Failed(String),
}

/// The line that reports one channel of a test notification.
pub open spec fn spec_channel_line(channel: Seq<char>, t: ChannelTest) -> Seq<char> {
    match t {
        ChannelTest::Disabled => channel + " channel not enabled"@,
        ChannelTest::NoRecipients => channel + " enabled but no recipients configured"@,
        ChannelTest::Sent(to) => channel + " sent to "@ + to@,
        ChannelTest::Failed(e) => channel + " failed: "@ + e@,
    }
}

fn push_channel_line(s: &mut String, channel: &str, t: &ChannelTest)
    ensures
        final(s)@ == old(s)@ + spec_channel_line(channel@, *t),
{
    s.append(channel);
    match t {
        ChannelTest::Disabled => s.append(" channel not enabled"),
        ChannelTest::NoRecipients => s.append(" enabled but no recipients configured"),
        ChannelTest::Sent(to) => {
            s.append(" sent to ");
            s.append(to.as_str());
        },
        ChannelTest::Failed(e) => {
            s.append(" failed: ");
            s.append(e.as_str());
        },
    }
}

/// The report of a test notification: the email line, `; `, the SMS line.
pub fn test_report(email: &ChannelTest, sms: &ChannelTest) -> (r: String)
    ensures
        r@ == spec_channel_line("Email"@, *email) + "; "@ + spec_channel_line("SMS"@, *sms),
{
    let mut s = String::new();
    push_channel_line(&mut s, "Email", email);
    s.append("; ");
    push_channel_line(&mut s, "SMS", sms);
    s
}

} // verus!
