//! Notifications and their recipients, how they are built, and the SMS
//! channel's message and phone-number rules.
use vstd::prelude::*;
use crate::clock::now_millis;
use crate::notify::{NotificationChannel, NotificationPriority, SmsConfig};
use crate::storage::F64Bits;
use crate::text::{chars_of, str_eq, string_from_chars};

verus! {

/// A fresh random (version 4) UUID, from `uuid::Uuid::new_v4`, as an integer.
/// The crate sets the version nibble to 4 and the variant bits to `10`; the
/// other bits are random and nothing is claimed of them.
#[verifier::external_body]
pub(crate) fn new_uuid_v4() -> (r: u128)
    ensures
        (r >> 76u128) & 0xfu128 == 4,
        (r >> 62u128) & 0x3u128 == 2,
{
    uuid::Uuid::new_v4().as_u128()
}

/// The value stored under `key`, if any.
pub open spec fn meta_get(m: Seq<(String, String)>, key: Seq<char>) -> Option<Seq<char>>
    decreases m.len(),
{
    if m.len() == 0 {
        None
    } else if m.last().0@ == key {
        Some(m.last().1@)
    } else {
        meta_get(m.drop_last(), key)
    }
}

/// No key occurs twice.
pub open spec fn meta_keys_unique(m: Seq<(String, String)>) -> bool {
    forall|i: int, j: int| 0 <= i < j < m.len() ==> #[trigger] m[i].0@ != #[trigger] m[j].0@
}

proof fn lemma_meta_get_at(m: Seq<(String, String)>, i: int)
    requires
        meta_keys_unique(m),
        0 <= i < m.len(),
    ensures
        meta_get(m, m[i].0@) == Some(m[i].1@),
    decreases m.len(),
{
    if i < m.len() - 1 {
        assert(m.last().0@ != m[i].0@);
        lemma_meta_get_at(m.drop_last(), i);
    }
}

proof fn lemma_meta_get_absent(m: Seq<(String, String)>, key: Seq<char>)
    requires
        forall|i: int| 0 <= i < m.len() ==> m[i].0@ != key,
    ensures
        meta_get(m, key) is None,
    decreases m.len(),
{
    if m.len() > 0 {
        lemma_meta_get_absent(m.drop_last(), key);
    }
}

/// Sets `key` to `value`: an existing entry keeps its place and takes the new
/// value, a new key goes last.
pub fn meta_insert(m: &mut Vec<(String, String)>, key: String, value: String)
    requires
        meta_keys_unique(old(m)@),
    ensures
        meta_keys_unique(final(m)@),
        meta_get(final(m)@, key@) == Some(value@),
        forall|k: Seq<char>| k != key@ ==> meta_get(final(m)@, k) == meta_get(old(m)@, k),
{
    let ghost m0 = m@;
    let mut i: usize = 0;
    while i < m.len()
        invariant
            m@ == m0,
            old(m)@ == m0,
            meta_keys_unique(m0),
            i <= m0.len(),
            forall|k: int| 0 <= k < i ==> m0[k].0@ != key@,
        decreases m.len() - i,
    {
        if str_eq(m[i].0.as_str(), key.as_str()) {
            let ghost kv = key@;
            let ghost vv = value@;
            m.set(i, (key, value));
            proof {
                let m1 = m@;
                assert(meta_keys_unique(m1)) by {
                    assert forall|a: int, b: int| 0 <= a < b < m1.len() implies #[trigger] m1[a].0@ != #[trigger] m1[b].0@ by {
                        assert(m1[a].0@ == m0[a].0@ && m1[b].0@ == m0[b].0@);
                    }
                }
                lemma_meta_get_at(m1, i as int);
                assert forall|k: Seq<char>| k != kv implies meta_get(m1, k) == meta_get(m0, k) by {
                    if exists|w: int| 0 <= w < m0.len() && m0[w].0@ == k {
                        let w = choose|w: int| 0 <= w < m0.len() && m0[w].0@ == k;
                        assert(m0[i as int].0@ == kv);
                        assert(w != i);
                        assert(m1[w] == m0[w]);
                        lemma_meta_get_at(m0, w);
                        lemma_meta_get_at(m1, w);
                    } else {
                        lemma_meta_get_absent(m0, k);
                        assert forall|w: int| 0 <= w < m1.len() implies m1[w].0@ != k by {
                            if w != i {
                                assert(m1[w] == m0[w]);
                            }
                        }
                        lemma_meta_get_absent(m1, k);
                    }
                }
            }
            return;
        }
        i = i + 1;
    }
    m.push((key, value));
    proof {
        let m1 = m@;
        assert(m1.drop_last() =~= m0);
        assert(meta_keys_unique(m1));
    }
}

/// A notification to deliver. Ids are UUIDs as integers, times milliseconds
/// since the Unix epoch.
pub struct Notification {
    pub id: u128,
    pub title: String,
    pub message: String,
    pub priority: NotificationPriority,
    pub channels: Vec<NotificationChannel>,
    pub recipients: Vec<Recipient>,
    pub metadata: Vec<(String, String)>,
    pub created_at: i64,
    pub scheduled_for: Option<i64>,
}

impl Notification {
    /// A builder for a notification with this title and message.
    pub fn builder(title: String, message: String) -> (b: NotificationBuilder)
        ensures
            b.title@ == title@ && b.message@ == message@,
            b.priority == NotificationPriority::Normal,
            b.channels@.len() == 0 && b.recipients@.len() == 0 && b.metadata@.len() == 0,
            b.scheduled_for is None,
    {
        NotificationBuilder::new(title, message)
    }
}

/// Builder for notifications.
pub struct NotificationBuilder {
    pub title: String,
    pub message: String,
    pub priority: NotificationPriority,
    pub channels: Vec<NotificationChannel>,
    pub recipients: Vec<Recipient>,
    pub metadata: Vec<(String, String)>,
    pub scheduled_for: Option<i64>,
}

impl NotificationBuilder {
    /// Normal priority, no channel, recipient or metadata, not scheduled.
    pub fn new(title: String, message: String) -> (b: NotificationBuilder)
        ensures
            b.title@ == title@ && b.message@ == message@,
            b.priority == NotificationPriority::Normal,
            b.channels@.len() == 0 && b.recipients@.len() == 0 && b.metadata@.len() == 0,
            b.scheduled_for is None,
    {
        NotificationBuilder {
            title,
            message,
            priority: NotificationPriority::Normal,
            channels: Vec::new(),
            recipients: Vec::new(),
            metadata: Vec::new(),
            scheduled_for: None,
        }
    }

    /// Sets the priority.
    pub fn priority(self, priority: NotificationPriority) -> (b: NotificationBuilder)
        ensures
            b == (NotificationBuilder { priority, ..self }),
    {
        NotificationBuilder { priority, ..self }
    }

    /// Adds a channel.
    pub fn channel(self, channel: NotificationChannel) -> (b: NotificationBuilder)
        ensures
            b.channels@ == self.channels@.push(channel),
            b.title == self.title && b.message == self.message && b.priority == self.priority,
            b.recipients == self.recipients && b.metadata == self.metadata,
            b.scheduled_for == self.scheduled_for,
    {
        let mut b = self;
        b.channels.push(channel);
        b
    }

    /// Replaces the channels.
    pub fn channels(self, channels: Vec<NotificationChannel>) -> (b: NotificationBuilder)
        ensures
            b == (NotificationBuilder { channels, ..self }),
    {
        NotificationBuilder { channels, ..self }
    }

    /// Adds a recipient.
    pub fn recipient(self, recipient: Recipient) -> (b: NotificationBuilder)
        ensures
            b.recipients@ == self.recipients@.push(recipient),
            b.title == self.title && b.message == self.message && b.priority == self.priority,
            b.channels == self.channels && b.metadata == self.metadata,
            b.scheduled_for == self.scheduled_for,
    {
        let mut b = self;
        b.recipients.push(recipient);
        b
    }

    /// Replaces the recipients.
    pub fn recipients(self, recipients: Vec<Recipient>) -> (b: NotificationBuilder)
        ensures
            b == (NotificationBuilder { recipients, ..self }),
    {
        NotificationBuilder { recipients, ..self }
    }

    /// Sets a metadata entry (a later value for the same key replaces the earlier one).
    pub fn metadata(self, key: String, value: String) -> (b: NotificationBuilder)
        requires
            meta_keys_unique(self.metadata@),
        ensures
            meta_keys_unique(b.metadata@),
            meta_get(b.metadata@, key@) == Some(value@),
            forall|k: Seq<char>| k != key@ ==> meta_get(b.metadata@, k) == meta_get(self.metadata@, k),
            b.title == self.title && b.message == self.message && b.priority == self.priority,
            b.channels == self.channels && b.recipients == self.recipients,
            b.scheduled_for == self.scheduled_for,
    {
        let mut b = self;
        meta_insert(&mut b.metadata, key, value);
        b
    }

    /// Schedules delivery for the given time.
    pub fn scheduled_for(self, time: i64) -> (b: NotificationBuilder)
        ensures
            b == (NotificationBuilder { scheduled_for: Some(time), ..self }),
    {
        NotificationBuilder { scheduled_for: Some(time), ..self }
    }

    /// The notification, with a fresh random id and the current time.
    pub fn build(self) -> (n: Notification)
        ensures
            n.title == self.title && n.message == self.message && n.priority == self.priority,
            n.channels == self.channels && n.recipients == self.recipients,
            n.metadata == self.metadata && n.scheduled_for == self.scheduled_for,
            (n.id >> 76u128) & 0xfu128 == 4,
    {
        let id = new_uuid_v4();
        let created_at = now_millis();
        Notification {
            id,
            title: self.title,
            message: self.message,
            priority: self.priority,
            channels: self.channels,
            recipients: self.recipients,
            metadata: self.metadata,
            created_at,
            scheduled_for: self.scheduled_for,
        }
    }
}

/// Who a notification goes to, and how they can be reached.
pub struct Recipient {
    pub id: u128,
    pub name: Option<String>,
    pub email: Option<String>,
    pub phone: Option<String>,
    pub telegram_chat_id: Option<i64>,
    pub webhook_url: Option<String>,
    pub preferences: RecipientPreferences,
}

impl Recipient {
    /// A recipient with a fresh random id, no contact details and default preferences.
    pub fn new() -> (r: Recipient)
        ensures
            r.name is None && r.email is None && r.phone is None,
            r.telegram_chat_id is None && r.webhook_url is None,
            r.preferences.quiet_hours_start is None && r.preferences.quiet_hours_end is None,
            r.preferences.min_priority == NotificationPriority::Low,
            r.preferences.enabled_channels@ == seq![NotificationChannel::Email, NotificationChannel::Telegram],
            (r.id >> 76u128) & 0xfu128 == 4,
    {
        Recipient {
            id: new_uuid_v4(),
            name: None,
            email: None,
            phone: None,
            telegram_chat_id: None,
            webhook_url: None,
            preferences: RecipientPreferences::default(),
        }
    }

    /// Sets the email address.
    pub fn with_email(self, email: String) -> (r: Recipient)
        ensures
            r == (Recipient { email: Some(email), ..self }),
    {
        Recipient { email: Some(email), ..self }
    }

    /// Sets the phone number.
    pub fn with_phone(self, phone: String) -> (r: Recipient)
        ensures
            r == (Recipient { phone: Some(phone), ..self }),
    {
        Recipient { phone: Some(phone), ..self }
    }

    /// Sets the Telegram chat.
    pub fn with_telegram(self, chat_id: i64) -> (r: Recipient)
        ensures
            r == (Recipient { telegram_chat_id: Some(chat_id), ..self }),
    {
        Recipient { telegram_chat_id: Some(chat_id), ..self }
    }

    /// Sets the webhook address.
    pub fn with_webhook(self, url: String) -> (r: Recipient)
        ensures
            r == (Recipient { webhook_url: Some(url), ..self }),
    {
        Recipient { webhook_url: Some(url), ..self }
    }
}

/// A recipient's notification preferences.
pub struct RecipientPreferences {
    /// Hour of day (0-23).
    pub quiet_hours_start: Option<u8>,
    pub quiet_hours_end: Option<u8>,
    pub min_priority: NotificationPriority,
    pub enabled_channels: Vec<NotificationChannel>,
}

impl RecipientPreferences {
    /// No quiet hours, every priority, email and Telegram.
    pub fn default() -> (p: RecipientPreferences)
        ensures
            p.quiet_hours_start is None && p.quiet_hours_end is None,
            p.min_priority == NotificationPriority::Low,
            p.enabled_channels@ == seq![NotificationChannel::Email, NotificationChannel::Telegram],
    {
        let mut channels: Vec<NotificationChannel> = Vec::new();
        channels.push(NotificationChannel::Email);
        channels.push(NotificationChannel::Telegram);
        RecipientPreferences {
            quiet_hours_start: None,
            quiet_hours_end: None,
            min_priority: NotificationPriority::Low,
            enabled_channels: channels,
        }
    }
}

/// A message template.
pub struct NotificationTemplate {
    pub id: String,
    pub name: String,
    pub subject_template: String,
    pub body_template: String,
    pub channels: Vec<NotificationChannel>,
}

/// An alert to notify about; readings are held as the bits of their `f64` values.
pub struct AlertEvent {
    pub alert_id: u128,
    pub alert_type: String,
    pub severity: String,
    pub location: Option<String>,
    pub sensor_id: Option<String>,
    pub reading_value: Option<F64Bits>,
    pub threshold_value: Option<F64Bits>,
    pub timestamp: i64,
    pub description: String,
}

// ---------------------------------------------------------------------------
// SMS
// ---------------------------------------------------------------------------

/// Bytes that `c` takes in UTF-8.
pub open spec fn char_utf8_len(c: char) -> nat {
    if (c as u32) < 0x80 {
        1
    } else if (c as u32) < 0x800 {
        2
    } else if (c as u32) < 0x10000 {
        3
    } else {
        4
    }
}

/// Bytes that `s` takes in UTF-8.
pub open spec fn utf8_len(s: Seq<char>) -> nat
    decreases s.len(),
{
    if s.len() == 0 {
        0
    } else {
        utf8_len(s.drop_last()) + char_utf8_len(s.last())
    }
}

fn char_len(c: char) -> (n: usize)
    ensures
        n == char_utf8_len(c),
        1 <= n <= 4,
{
    let u = c as u32;
    if u < 0x80 {
        1
    } else if u < 0x800 {
        2
    } else if u < 0x10000 {
        3
    } else {
        4
    }
}

proof fn lemma_utf8_take_step(s: Seq<char>, k: int)
    requires
        0 <= k < s.len(),
    ensures
        utf8_len(s.take(k + 1)) == utf8_len(s.take(k)) + char_utf8_len(s[k]),
{
    assert(s.take(k + 1).drop_last() =~= s.take(k));
}

proof fn lemma_utf8_take_grows(s: Seq<char>, i: int, k: int)
    requires
        0 <= i <= k <= s.len(),
    ensures
        utf8_len(s.take(i)) + (k - i) <= utf8_len(s.take(k)),
    decreases k - i,
{
    if i < k {
        lemma_utf8_take_step(s, k - 1);
        lemma_utf8_take_grows(s, i, k - 1);
    }
}

/// The marker of a priority in SMS text.
pub open spec fn priority_mark(p: NotificationPriority) -> char {
    match p {
        NotificationPriority::Critical => '\u{1F534}',
        NotificationPriority::High => '\u{1F7E0}',
        NotificationPriority::Normal => '\u{1F535}',
        NotificationPriority::Low => '\u{1F7E2}',
    }
}

/// The untruncated SMS text: priority marker, title, colon, message.
pub open spec fn sms_full_text(p: NotificationPriority, title: Seq<char>, message: Seq<char>) -> Seq<char> {
    seq![priority_mark(p), ' '] + title + seq![':', ' '] + message
}

/// Texts over 300 bytes are cut to 297 bytes, which must fall between two characters.
pub open spec fn sms_cut_possible(text: Seq<char>) -> bool {
    utf8_len(text) > 300 ==> exists|k: int| 0 <= k <= text.len() && #[trigger] utf8_len(text.take(k)) == 297
}


/// Appends the characters of `s`.
fn push_all(out: &mut Vec<char>, s: &str)
    ensures
        final(out)@ == old(out)@ + s@,
{
    let cs = chars_of(s);
    let ghost head = out@;
    let mut i: usize = 0;
    while i < cs.len()
        invariant
            i <= cs@.len(),
            out@ == head + cs@.take(i as int),
        decreases cs.len() - i,
    {
        out.push(cs[i]);
        i = i + 1;
        assert(out@ =~= head + cs@.take(i as int));
    }
    assert(cs@.take(cs@.len() as int) =~= cs@);
}

/// The untruncated SMS text.
fn sms_text(priority: NotificationPriority, title: &str, message: &str) -> (text: Vec<char>)
    ensures
        text@ == sms_full_text(priority, title@, message@),
{
    let mark = match priority {
        NotificationPriority::Critical => '\u{1F534}',
        NotificationPriority::High => '\u{1F7E0}',
        NotificationPriority::Normal => '\u{1F535}',
        NotificationPriority::Low => '\u{1F7E2}',
    };
    let mut text: Vec<char> = Vec::new();
    text.push(mark);
    text.push(' ');
    push_all(&mut text, title);
    text.push(':');
    text.push(' ');
    push_all(&mut text, message);
    assert(text@ =~= sms_full_text(priority, title@, message@));
    text
}

/// Whether the UTF-8 form of `text` is longer than 300 bytes.
fn over_sms_limit(text: &Vec<char>) -> (r: bool)
    ensures
        r == (utf8_len(text@) > 300),
{
    let n = text.len();
    let mut total: usize = 0;
    let mut i: usize = 0;
    while i < n && total <= 300
        invariant
            n == text@.len(),
            i <= n,
            total == utf8_len(text@.take(i as int)),
            total <= 304,
        decreases n - i,
    {
        proof {
            lemma_utf8_take_step(text@, i as int);
        }
        total = total + char_len(text[i]);
        i = i + 1;
    }
    proof {
        lemma_utf8_take_grows(text@, i as int, n as int);
        assert(text@.take(n as int) =~= text@);
    }
    total > 300
}

/// The number of leading characters of `text` that take exactly 297 bytes.
fn sms_cut_point(text: &Vec<char>) -> (j: usize)
    requires
        utf8_len(text@) > 300,
        exists|k: int| 0 <= k <= text@.len() && #[trigger] utf8_len(text@.take(k)) == 297,
    ensures
        j <= text@.len(),
        utf8_len(text@.take(j as int)) == 297,
{
    let n = text.len();
    proof {
        assert(text@.take(n as int) =~= text@);
    }
    let mut used: usize = 0;
    let mut j: usize = 0;
    while used < 297
        invariant
            n == text@.len(),
            utf8_len(text@.take(n as int)) > 300,
            j <= n,
            used == utf8_len(text@.take(j as int)),
            used < 297 ==> j < n,
            j > 0 ==> utf8_len(text@.take(j - 1)) < 297,
            used <= 300,
        decreases n - j,
    {
        proof {
            lemma_utf8_take_step(text@, j as int);
        }
        used = used + char_len(text[j]);
        j = j + 1;
        proof {
            if j >= n && used < 297 {
                lemma_utf8_take_grows(text@, j as int, n as int);
            }
        }
    }
    proof {
        let k = choose|k: int| 0 <= k <= text@.len() && #[trigger] utf8_len(text@.take(k)) == 297;
        if k < j {
            lemma_utf8_take_grows(text@, k, j - 1);
        } else if k > j {
            lemma_utf8_take_grows(text@, j as int, k);
        }
    }
    j
}

/// `text` itself when it fits in 300 bytes, else its first 297 bytes and `...`.
fn cut_to_sms(text: &Vec<char>) -> (out: Vec<char>)
    requires
        sms_cut_possible(text@),
    ensures
        utf8_len(text@) <= 300 ==> out@ == text@,
        utf8_len(text@) > 300 ==> exists|k: int|
            0 <= k <= text@.len() && #[trigger] utf8_len(text@.take(k)) == 297
                && out@ == text@.take(k) + seq!['.', '.', '.'],
{
    if !over_sms_limit(text) {
        return text.clone();
    }
    let j = sms_cut_point(text);
    let mut out: Vec<char> = Vec::new();
    let mut m: usize = 0;
    while m < j
        invariant
            j <= text@.len(),
            m <= j,
            out@ == text@.take(m as int),
        decreases j - m,
    {
        out.push(text[m]);
        m = m + 1;
        assert(out@ =~= text@.take(m as int));
    }
    out.push('.');
    out.push('.');
    out.push('.');
    assert(out@ =~= text@.take(j as int) + seq!['.', '.', '.']);
    out
}

/// The SMS notifier's configuration; the HTTP client that sends messages lives
/// with the caller.
pub struct SmsNotifier {
    pub config: SmsConfig,
}

impl SmsNotifier {
    /// A notifier with this configuration.
    pub fn new(config: SmsConfig) -> (n: SmsNotifier)
        ensures
            n.config == config,
    {
        SmsNotifier { config }
    }

    /// The SMS text of a notification: priority marker, title and message; when
    /// longer than 300 bytes, its first 297 bytes and `...`.
    pub fn build_message(&self, notification: &Notification) -> (s: String)
        requires
            sms_cut_possible(sms_full_text(notification.priority, notification.title@, notification.message@)),
        ensures
            ({
                let full = sms_full_text(notification.priority, notification.title@, notification.message@);
                &&& utf8_len(full) <= 300 ==> s@ == full
                &&& utf8_len(full) > 300 ==> exists|k: int|
                    0 <= k <= full.len() && #[trigger] utf8_len(full.take(k)) == 297
                        && s@ == full.take(k) + seq!['.', '.', '.']
            }),
    {
        let text = sms_text(notification.priority, notification.title.as_str(), notification.message.as_str());
        let cut = cut_to_sms(&text);
        string_from_chars(&cut)
    }

    /// Whether `phone` is in E.164 form: `+` and 10 to 15 digits, the first
    /// not zero, as the pattern `^\+[1-9]\d{9,14}$` decides.
    pub fn validate_phone(phone: &str) -> (r: bool)
        ensures
            r == (regex_match(e164_pattern(), phone@) == Some(true)),
    {
        let pattern = "^\\+[1-9]\\d{9,14}$";
        proof {
            reveal_strlit("^\\+[1-9]\\d{9,14}$");
            assert(pattern@ =~= e164_pattern());
        }
        match regex_is_match(pattern, phone) {
            Some(b) => b,
            None => false,
        }
    }
}

/// The E.164 phone-number pattern.
pub open spec fn e164_pattern() -> Seq<char> {
    seq!['^', '\\', '+', '[', '1', '-', '9', ']', '\\', 'd', '{', '9', ',', '1', '4', '}', '$']
}

/// Whether the `regex` crate finds a match of `pattern` in `text`; `None`
/// where the pattern does not compile.
pub uninterp spec fn regex_match(pattern: Seq<char>, text: Seq<char>) -> Option<bool>;

/// Compiles `pattern` with `regex::Regex::new` and, when it compiles, asks
/// `Regex::is_match` whether it matches somewhere in `text`. The contract only
/// ties the answer to the two strings; what the pattern language means is the
/// crate's.
#[verifier::external_body]
fn regex_is_match(pattern: &str, text: &str) -> (r: Option<bool>)
    ensures
        r == regex_match(pattern@, text@),
{
    match regex::Regex::new(pattern) {
        Ok(re) => Some(re.is_match(text)),
        Err(_) => None,
    }
}

} // verus!
