//! The bodies of alert e-mails, plain text and HTML. Sending them over SMTP
//! is the caller's.
//!
//! Metadata lines come in the order the notification holds them.
use vstd::prelude::*;
use crate::alerts::Notification;
use crate::notify::{EmailConfig, NotificationPriority};
use crate::text::concat_strs;

verus! {

/// The lower-case hexadecimal digit of `n` (below 16).
pub open spec fn hex_lower(n: nat) -> char {
    if n < 10 {
        (n + 48) as char
    } else {
        (n + 87) as char
    }
}

/// The last `k` hexadecimal digits of `u`, most significant first.
pub open spec fn hex_digits(u: nat, k: nat) -> Seq<char>
    decreases k,
{
    if k == 0 {
        Seq::empty()
    } else {
        hex_digits(u / 16, (k - 1) as nat).push(hex_lower(u % 16))
    }
}

/// The hyphenated lower-case text of a UUID, as `uuid::Uuid`'s `Display`
/// writes it: its 32 hexadecimal digits, most significant first, in groups of
/// 8, 4, 4, 4 and 12 joined by hyphens.
pub open spec fn uuid_text(u: u128) -> Seq<char> {
    let h = hex_digits(u as nat, 32);
    h.subrange(0, 8) + seq!['-'] + h.subrange(8, 12) + seq!['-'] + h.subrange(12, 16) + seq!['-']
        + h.subrange(16, 20) + seq!['-'] + h.subrange(20, 32)
}

/// `uuid::Uuid::from_u128(u).to_string()`: the hyphenated lower-case form of
/// the UUID, `uuid_text`.
#[verifier::external_body]
pub(crate) fn uuid_string(u: u128) -> (s: String)
    ensures
        s@ == uuid_text(u),
{
    uuid::Uuid::from_u128(u).to_string()
}

/// What chrono writes for the UTC time `ms` milliseconds after the epoch in
/// `format`; `None` where the time is outside chrono's range.
pub uninterp spec fn utc_millis_text(ms: i64, format: Seq<char>) -> Option<Seq<char>>;

/// `chrono::DateTime::from_timestamp_millis`, then `format` with `format`.
/// The text is named, not restated. Writing with a format chrono cannot
/// read panics, so only the e-mails' own format is admitted.
#[verifier::external_body]
fn format_utc_millis(ms: i64, format: &str) -> (r: Option<String>)
    requires
        format@ == "%Y-%m-%d %H:%M:%S UTC"@,
    ensures
        match r {
            Some(s) => utc_millis_text(ms, format@) == Some(s@),
            None => utc_millis_text(ms, format@) is None,
        },
{
    chrono::DateTime::from_timestamp_millis(ms).map(|t| t.format(format).to_string())
}

/// When a notification was made, as the e-mails write it; empty for a time
/// outside chrono's range, which no notification made by the clock has.
pub open spec fn sent_text(ms: i64) -> Seq<char> {
    match utc_millis_text(ms, "%Y-%m-%d %H:%M:%S UTC"@) {
        Some(t) => t,
        None => Seq::empty(),
    }
}

fn sent_string(ms: i64) -> (s: String)
    ensures
        s@ == sent_text(ms),
{
    match format_utc_millis(ms, "%Y-%m-%d %H:%M:%S UTC") {
        Some(t) => t,
        None => String::new(),
    }
}

/// A priority's lower-case name.
pub open spec fn priority_name(p: NotificationPriority) -> Seq<char> {
    match p {
        NotificationPriority::Low => "low"@,
        NotificationPriority::Normal => "normal"@,
        NotificationPriority::High => "high"@,
        NotificationPriority::Critical => "critical"@,
    }
}

/// The colour of a priority's banner.
pub open spec fn priority_color(p: NotificationPriority) -> Seq<char> {
    match p {
        NotificationPriority::Critical => "#ff3366"@,
        NotificationPriority::High => "#ff9933"@,
        NotificationPriority::Normal => "#33ccff"@,
        NotificationPriority::Low => "#66ff99"@,
    }
}

/// The metadata as `key: value` lines.
pub open spec fn meta_lines(m: Seq<(String, String)>) -> Seq<char>
    decreases m.len(),
{
    if m.len() == 0 {
        Seq::empty()
    } else if m.len() == 1 {
        m[0].0@ + ": "@ + m[0].1@
    } else {
        meta_lines(m.drop_last()) + "\n"@ + m.last().0@ + ": "@ + m.last().1@
    }
}

/// The metadata as HTML table rows.
pub open spec fn meta_rows(m: Seq<(String, String)>) -> Seq<char>
    decreases m.len(),
{
    if m.len() == 0 {
        Seq::empty()
    } else {
        meta_rows(m.drop_last()) + "<tr><td><strong>"@ + m.last().0@ + ":</strong></td><td>"@ + m.last().1@ + "</td></tr>"@
    }
}

/// The plain-text body: the message, the priority, the metadata under
/// `Additional Information:` when there is any, and a footer with the
/// notification's id and time.
pub open spec fn text_body(n: Notification) -> Seq<char> {
    let meta = if n.metadata@.len() == 0 {
        Seq::empty()
    } else {
        "\n\nAdditional Information:\n"@ + meta_lines(n.metadata@)
    };
    n.message@ + "\n\nPriority: "@ + priority_name(n.priority) + meta
        + "\n\n---\nThis alert was generated by the Cherenkov Radiation Monitoring System.\nNotification ID: "@
        + uuid_text(n.id) + " | Sent: "@ + sent_text(n.created_at)
}

/// The HTML table of the metadata, empty without metadata.
pub open spec fn meta_table(m: Seq<(String, String)>) -> Seq<char> {
    if m.len() == 0 {
        Seq::empty()
    } else {
        "<table style=\"margin-top: 20px; border-collapse: collapse;\">\n                    <tr><th colspan=\"2\" style=\"text-align: left; padding: 10px 0; border-bottom: 1px solid #333;\">Additional Information</th></tr>\n                    "@
            + meta_rows(m) + "\n                </table>"@
    }
}

/// The HTML body: a page titled with the notification's title, a banner in
/// the priority's colour, the message, the metadata table and a footer.
pub open spec fn html_body(n: Notification) -> Seq<char> {
    "<!DOCTYPE html>\n            <html>\n            <head>\n                <meta charset=\"UTF-8\">\n                <meta name=\"viewport\" content=\"width=device-width, initial-scale=1.0\">\n                <title>"@
        + n.title@
        + "</title>\n            </head>\n            <body style=\"font-family: 'Inter', -apple-system, BlinkMacSystemFont, sans-serif; background-color: #0a0a0a; color: #e0e0e0; margin: 0; padding: 20px;\">\n                <div style=\"max-width: 600px; margin: 0 auto; background-color: #141414; border-radius: 8px; overflow: hidden; border: 1px solid #1f1f1f;\">\n                    <div style=\"background-color: "@
        + priority_color(n.priority)
        + "; padding: 20px; color: #000;\">\n                        <h1 style=\"margin: 0; font-size: 24px; font-weight: 600;\">"@
        + n.title@
        + "</h1>\n                        <p style=\"margin: 5px 0 0 0; font-size: 14px; opacity: 0.8;\">Priority: "@
        + priority_name(n.priority)
        + "</p>\n                    </div>\n                    <div style=\"padding: 30px;\">\n                        <p style=\"font-size: 16px; line-height: 1.6; margin-bottom: 20px;\">"@
        + n.message@
        + "</p>\n                        "@
        + meta_table(n.metadata@)
        + "\n                        <div style=\"margin-top: 30px; padding-top: 20px; border-top: 1px solid #1f1f1f; font-size: 12px; color: #666;\">\n                            <p>This alert was generated by the Cherenkov Radiation Monitoring System.</p>\n                            <p>Notification ID: "@
        + uuid_text(n.id)
        + " | Sent: "@
        + sent_text(n.created_at)
        + "</p>\n                        </div>\n                    </div>\n                </div>\n            </body>\n            </html>"@
}

fn lines_of_metadata(m: &Vec<(String, String)>) -> (s: String)
    ensures
        s@ == meta_lines(m@),
{
    let mut s = String::new();
    let mut i: usize = 0;
    while i < m.len()
        invariant
            i <= m@.len(),
            s@ == meta_lines(m@.take(i as int)),
        decreases m.len() - i,
    {
        proof {
            assert(m@.take(i + 1).drop_last() =~= m@.take(i as int));
        }
        if i > 0 {
            s = concat_strs(s.as_str(), "\n");
        }
        let a = concat_strs(s.as_str(), m[i].0.as_str());
        let b = concat_strs(a.as_str(), ": ");
        s = concat_strs(b.as_str(), m[i].1.as_str());
        proof {
            if i == 0 {
                assert(m@.take(0) =~= Seq::<(String, String)>::empty());
            }
        }
        i = i + 1;
    }
    assert(m@.take(m@.len() as int) =~= m@);
    s
}

fn rows_of_metadata(m: &Vec<(String, String)>) -> (s: String)
    ensures
        s@ == meta_rows(m@),
{
    let mut s = String::new();
    let mut i: usize = 0;
    while i < m.len()
        invariant
            i <= m@.len(),
            s@ == meta_rows(m@.take(i as int)),
        decreases m.len() - i,
    {
        proof {
            assert(m@.take(i + 1).drop_last() =~= m@.take(i as int));
        }
        let a = concat_strs(s.as_str(), "<tr><td><strong>");
        let b = concat_strs(a.as_str(), m[i].0.as_str());
        let c = concat_strs(b.as_str(), ":</strong></td><td>");
        let d = concat_strs(c.as_str(), m[i].1.as_str());
        s = concat_strs(d.as_str(), "</td></tr>");
        i = i + 1;
    }
    assert(m@.take(m@.len() as int) =~= m@);
    s
}

/// Builds the bodies of alert e-mails for an SMTP account.
pub struct EmailNotifier {
    pub config: EmailConfig,
}

impl EmailNotifier {
    /// A notifier for this account.
    pub fn new(config: EmailConfig) -> (n: EmailNotifier)
        ensures
            n.config == config,
    {
        EmailNotifier { config }
    }

    /// The plain-text body of a notification's e-mail.
    pub fn build_text_body(&self, notification: &Notification) -> (s: String)
        ensures
            s@ == text_body(*notification),
    {
        let meta = if notification.metadata.len() == 0 {
            String::new()
        } else {
            let lines = lines_of_metadata(&notification.metadata);
            concat_strs("\n\nAdditional Information:\n", lines.as_str())
        };
        let a = concat_strs(notification.message.as_str(), "\n\nPriority: ");
        let b = concat_strs(a.as_str(), notification.priority.as_str());
        let c = concat_strs(b.as_str(), meta.as_str());
        let d = concat_strs(
            c.as_str(),
            "\n\n---\nThis alert was generated by the Cherenkov Radiation Monitoring System.\nNotification ID: ",
        );
        let e = concat_strs(d.as_str(), uuid_string(notification.id).as_str());
        let f = concat_strs(e.as_str(), " | Sent: ");
        concat_strs(f.as_str(), sent_string(notification.created_at).as_str())
    }

    /// The HTML body of a notification's e-mail.
    pub fn build_html_body(&self, notification: &Notification) -> (s: String)
        ensures
            s@ == html_body(*notification),
    {
        let color = match notification.priority {
            NotificationPriority::Critical => "#ff3366",
            NotificationPriority::High => "#ff9933",
            NotificationPriority::Normal => "#33ccff",
            NotificationPriority::Low => "#66ff99",
        };
        let table = if notification.metadata.len() == 0 {
            String::new()
        } else {
            let rows = rows_of_metadata(&notification.metadata);
            let t = concat_strs(
                "<table style=\"margin-top: 20px; border-collapse: collapse;\">\n                    <tr><th colspan=\"2\" style=\"text-align: left; padding: 10px 0; border-bottom: 1px solid #333;\">Additional Information</th></tr>\n                    ",
                rows.as_str(),
            );
            concat_strs(t.as_str(), "\n                </table>")
        };
        let title = notification.title.as_str();
        let s1 = concat_strs(
            "<!DOCTYPE html>\n            <html>\n            <head>\n                <meta charset=\"UTF-8\">\n                <meta name=\"viewport\" content=\"width=device-width, initial-scale=1.0\">\n                <title>",
            title,
        );
        let s2 = concat_strs(
            s1.as_str(),
            "</title>\n            </head>\n            <body style=\"font-family: 'Inter', -apple-system, BlinkMacSystemFont, sans-serif; background-color: #0a0a0a; color: #e0e0e0; margin: 0; padding: 20px;\">\n                <div style=\"max-width: 600px; margin: 0 auto; background-color: #141414; border-radius: 8px; overflow: hidden; border: 1px solid #1f1f1f;\">\n                    <div style=\"background-color: ",
        );
        let s3 = concat_strs(s2.as_str(), color);
        let s4 = concat_strs(
            s3.as_str(),
            "; padding: 20px; color: #000;\">\n                        <h1 style=\"margin: 0; font-size: 24px; font-weight: 600;\">",
        );
        let s5 = concat_strs(s4.as_str(), title);
        let s6 = concat_strs(
            s5.as_str(),
            "</h1>\n                        <p style=\"margin: 5px 0 0 0; font-size: 14px; opacity: 0.8;\">Priority: ",
        );
        let s7 = concat_strs(s6.as_str(), notification.priority.as_str());
        let s8 = concat_strs(
            s7.as_str(),
            "</p>\n                    </div>\n                    <div style=\"padding: 30px;\">\n                        <p style=\"font-size: 16px; line-height: 1.6; margin-bottom: 20px;\">",
        );
        let s9 = concat_strs(s8.as_str(), notification.message.as_str());
        let s10 = concat_strs(s9.as_str(), "</p>\n                        ");
        let s11 = concat_strs(s10.as_str(), table.as_str());
        let s12 = concat_strs(
            s11.as_str(),
            "\n                        <div style=\"margin-top: 30px; padding-top: 20px; border-top: 1px solid #1f1f1f; font-size: 12px; color: #666;\">\n                            <p>This alert was generated by the Cherenkov Radiation Monitoring System.</p>\n                            <p>Notification ID: ",
        );
        let s13 = concat_strs(s12.as_str(), uuid_string(notification.id).as_str());
        let s14 = concat_strs(s13.as_str(), " | Sent: ");
        let s15 = concat_strs(s14.as_str(), sent_string(notification.created_at).as_str());
        concat_strs(
            s15.as_str(),
            "</p>\n                        </div>\n                    </div>\n                </div>\n            </body>\n            </html>",
        )
    }
}

} // verus!
