//! The JSON payload of an alert webhook, as text. Posting it is the caller's.
//!
//! Members are written in the order serde_json's default map keeps them (by
//! key); metadata members in the order the notification holds them.
use vstd::prelude::*;
use crate::alerts::{Notification, Recipient};
use crate::email::{hex_lower, priority_name, uuid_string, uuid_text};
use crate::notify::{NotificationChannel, WebhookConfig};
use crate::text::concat_strs;

verus! {

/// How serde_json writes one character inside a string: `"` and `\` behind a
/// backslash, the control characters with a short escape as `\b`, `\t`,
/// `\n`, `\f`, `\r`, the other control characters below U+0020 as `\u00`
/// and two lower-case hexadecimal digits, and every other character as it is.
pub open spec fn json_char(c: char) -> Seq<char> {
    let n = c as nat;
    if c == '"' {
        seq!['\\', '"']
    } else if c == '\\' {
        seq!['\\', '\\']
    } else if n == 8 {
        seq!['\\', 'b']
    } else if n == 9 {
        seq!['\\', 't']
    } else if n == 10 {
        seq!['\\', 'n']
    } else if n == 12 {
        seq!['\\', 'f']
    } else if n == 13 {
        seq!['\\', 'r']
    } else if n < 32 {
        seq!['\\', 'u', '0', '0', hex_lower(n / 16), hex_lower(n % 16)]
    } else {
        seq![c]
    }
}

/// The characters of `s`, each written as `json_char` writes it.
pub open spec fn json_escaped(s: Seq<char>) -> Seq<char>
    decreases s.len(),
{
    if s.len() == 0 {
        Seq::empty()
    } else {
        json_escaped(s.drop_last()) + json_char(s.last())
    }
}

/// The JSON string literal that serde_json writes for `s`: `s` escaped, in
/// double quotes.
pub open spec fn json_quoted(s: Seq<char>) -> Seq<char> {
    seq!['"'] + json_escaped(s) + seq!['"']
}

/// `serde_json::Value::String(s)` written with `Display`: `s` quoted and
/// escaped as JSON, `json_quoted`.
#[verifier::external_body]
fn json_string(s: &str) -> (r: String)
    ensures
        r@ == json_quoted(s@),
{
    serde_json::Value::String(s.to_string()).to_string()
}

/// What chrono's `to_rfc3339` writes for the UTC time `ms` milliseconds
/// after the epoch; `None` where the time is outside chrono's range.
pub uninterp spec fn rfc3339_millis(ms: i64) -> Option<Seq<char>>;

/// `chrono::DateTime::from_timestamp_millis`, then `to_rfc3339`. The text is
/// named, not restated.
#[verifier::external_body]
fn rfc3339_string(ms: i64) -> (r: Option<String>)
    ensures
        match r {
            Some(s) => rfc3339_millis(ms) == Some(s@),
            None => rfc3339_millis(ms) is None,
        },
{
    chrono::DateTime::from_timestamp_millis(ms).map(|t| t.to_rfc3339())
}

/// A channel's name.
pub open spec fn channel_name(c: NotificationChannel) -> Seq<char> {
    match c {
        NotificationChannel::Email => "email"@,
        NotificationChannel::Sms => "sms"@,
        NotificationChannel::Webhook => "webhook"@,
        NotificationChannel::Telegram => "telegram"@,
    }
}

/// The channels as quoted names separated by commas.
pub open spec fn channel_items(cs: Seq<NotificationChannel>) -> Seq<char>
    decreases cs.len(),
{
    if cs.len() == 0 {
        Seq::empty()
    } else if cs.len() == 1 {
        json_quoted(channel_name(cs[0]))
    } else {
        channel_items(cs.drop_last()) + ","@ + json_quoted(channel_name(cs.last()))
    }
}

/// The metadata as `"key":"value"` members separated by commas.
pub open spec fn metadata_members(m: Seq<(String, String)>) -> Seq<char>
    decreases m.len(),
{
    if m.len() == 0 {
        Seq::empty()
    } else if m.len() == 1 {
        json_quoted(m[0].0@) + ":"@ + json_quoted(m[0].1@)
    } else {
        metadata_members(m.drop_last()) + ","@ + json_quoted(m.last().0@) + ":"@ + json_quoted(m.last().1@)
    }
}

/// A JSON value for an optional text: the quoted text, or `null`.
pub open spec fn json_opt(s: Option<Seq<char>>) -> Seq<char> {
    match s {
        Some(t) => json_quoted(t),
        None => "null"@,
    }
}

/// The payload: the notification's id, title, message, priority, channels,
/// metadata and time, the recipient's id and name, the event type `alert`
/// and the payload version `1.0`.
pub open spec fn payload_text(n: Notification, r: Recipient) -> Seq<char> {
    "{\"channels\":["@ + channel_items(n.channels@)
        + "],\"event_type\":\"alert\",\"message\":"@ + json_quoted(n.message@)
        + ",\"metadata\":{"@ + metadata_members(n.metadata@)
        + "},\"notification_id\":"@ + json_quoted(uuid_text(n.id))
        + ",\"priority\":"@ + json_quoted(priority_name(n.priority))
        + ",\"recipient\":{\"id\":"@ + json_quoted(uuid_text(r.id))
        + ",\"name\":"@ + json_opt(match r.name { Some(x) => Some(x@), None => None })
        + "},\"timestamp\":"@ + json_opt(rfc3339_millis(n.created_at))
        + ",\"title\":"@ + json_quoted(n.title@)
        + ",\"version\":\"1.0\"}"@
}

fn channels_text(cs: &Vec<NotificationChannel>) -> (s: String)
    ensures
        s@ == channel_items(cs@),
{
    let mut s = String::new();
    let mut i: usize = 0;
    while i < cs.len()
        invariant
            i <= cs@.len(),
            s@ == channel_items(cs@.take(i as int)),
        decreases cs.len() - i,
    {
        proof {
            assert(cs@.take(i + 1).drop_last() =~= cs@.take(i as int));
        }
        if i > 0 {
            s = concat_strs(s.as_str(), ",");
        }
        let q = json_string(cs[i].as_str());
        s = concat_strs(s.as_str(), q.as_str());
        proof {
            if i == 0 {
                assert(cs@.take(0) =~= Seq::<NotificationChannel>::empty());
            }
        }
        i = i + 1;
    }
    assert(cs@.take(cs@.len() as int) =~= cs@);
    s
}

fn metadata_text(m: &Vec<(String, String)>) -> (s: String)
    ensures
        s@ == metadata_members(m@),
{
    let mut s = String::new();
    let mut i: usize = 0;
    while i < m.len()
        invariant
            i <= m@.len(),
            s@ == metadata_members(m@.take(i as int)),
        decreases m.len() - i,
    {
        proof {
            assert(m@.take(i + 1).drop_last() =~= m@.take(i as int));
        }
        if i > 0 {
            s = concat_strs(s.as_str(), ",");
        }
        let k = json_string(m[i].0.as_str());
        let v = json_string(m[i].1.as_str());
        let a = concat_strs(s.as_str(), k.as_str());
        let b = concat_strs(a.as_str(), ":");
        s = concat_strs(b.as_str(), v.as_str());
        proof {
            if i == 0 {
                assert(m@.take(0) =~= Seq::<(String, String)>::empty());
            }
        }
        i = i + 1;
    }
    assert(m@.take(m@.len() as int) =~= m@);
    s
}

fn opt_text(s: Option<&str>) -> (r: String)
    ensures
        r@ == json_opt(match s { Some(x) => Some(x@), None => None }),
{
    match s {
        Some(x) => json_string(x),
        None => String::from_str("null"),
    }
}

/// Posts alert payloads to the recipients' webhooks.
pub struct WebhookNotifier {
    pub config: WebhookConfig,
}

impl WebhookNotifier {
    /// A notifier with these settings.
    pub fn new(config: WebhookConfig) -> (n: WebhookNotifier)
        ensures
            n.config == config,
    {
        WebhookNotifier { config }
    }

    /// The JSON payload sent for a notification to a recipient.
    pub fn build_payload(&self, notification: &Notification, recipient: &Recipient) -> (s: String)
        ensures
            s@ == payload_text(*notification, *recipient),
    {
        let s1 = concat_strs("{\"channels\":[", channels_text(&notification.channels).as_str());
        let s2 = concat_strs(s1.as_str(), "],\"event_type\":\"alert\",\"message\":");
        let s3 = concat_strs(s2.as_str(), json_string(notification.message.as_str()).as_str());
        let s4 = concat_strs(s3.as_str(), ",\"metadata\":{");
        let s5 = concat_strs(s4.as_str(), metadata_text(&notification.metadata).as_str());
        let s6 = concat_strs(s5.as_str(), "},\"notification_id\":");
        let id = uuid_string(notification.id);
        let s7 = concat_strs(s6.as_str(), json_string(id.as_str()).as_str());
        let s8 = concat_strs(s7.as_str(), ",\"priority\":");
        let s9 = concat_strs(s8.as_str(), json_string(notification.priority.as_str()).as_str());
        let s10 = concat_strs(s9.as_str(), ",\"recipient\":{\"id\":");
        let rid = uuid_string(recipient.id);
        let s11 = concat_strs(s10.as_str(), json_string(rid.as_str()).as_str());
        let s12 = concat_strs(s11.as_str(), ",\"name\":");
        let name = match &recipient.name {
            Some(n) => opt_text(Some(n.as_str())),
            None => opt_text(None),
        };
        let s13 = concat_strs(s12.as_str(), name.as_str());
        let s14 = concat_strs(s13.as_str(), "},\"timestamp\":");
        let ts = match rfc3339_string(notification.created_at) {
            Some(t) => json_string(t.as_str()),
            None => String::from_str("null"),
        };
        let s15 = concat_strs(s14.as_str(), ts.as_str());
        let s16 = concat_strs(s15.as_str(), ",\"title\":");
        let s17 = concat_strs(s16.as_str(), json_string(notification.title.as_str()).as_str());
        concat_strs(s17.as_str(), ",\"version\":\"1.0\"}")
    }
}

} // verus!
