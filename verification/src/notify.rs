//! Notifications: priorities, channels, delivery results and their history,
//! per-channel settings, and the service builder.
use vstd::prelude::*;
use crate::text::{str_eq};

verus! {

/// Notification priority levels.
#[derive(PartialEq, Eq, Structural, Clone, Copy, Debug)]
pub enum NotificationPriority {
    Low,
    Normal,
    High,
    Critical,
}

impl NotificationPriority {
    /// The priority's lower-case name.
    pub fn as_str(&self) -> (s: &'static str)
        ensures
            *self == NotificationPriority::Low ==> s@ == "low"@,
            *self == NotificationPriority::Normal ==> s@ == "normal"@,
            *self == NotificationPriority::High ==> s@ == "high"@,
            *self == NotificationPriority::Critical ==> s@ == "critical"@,
    {
        match self {
            NotificationPriority::Low => "low",
            NotificationPriority::Normal => "normal",
            NotificationPriority::High => "high",
            NotificationPriority::Critical => "critical",
        }
    }
}

/// Notification delivery channels.
#[derive(PartialEq, Eq, Structural, Clone, Copy, Debug, Hash)]
pub enum NotificationChannel {
    Email,
    Sms,
    Webhook,
    Telegram,
}

impl NotificationChannel {
    /// The channel's lower-case name.
    pub fn as_str(&self) -> (s: &'static str)
        ensures
            *self == NotificationChannel::Email ==> s@ == "email"@,
            *self == NotificationChannel::Sms ==> s@ == "sms"@,
            *self == NotificationChannel::Webhook ==> s@ == "webhook"@,
            *self == NotificationChannel::Telegram ==> s@ == "telegram"@,
    {
        match self {
            NotificationChannel::Email => "email",
            NotificationChannel::Sms => "sms",
            NotificationChannel::Webhook => "webhook",
            NotificationChannel::Telegram => "telegram",
        }
    }
}

/// Notification delivery status.
#[derive(PartialEq, Eq, Structural, Clone, Copy, Debug)]
pub enum NotificationStatus {
    Pending,
    Sent,
    Delivered,
    Failed,
    Retrying,
}

/// Result of one delivery attempt. Ids are UUIDs as integers, times milliseconds.
pub struct NotificationResult {
    pub notification_id: u128,
    pub channel: NotificationChannel,
    pub recipient_id: u128,
    pub status: NotificationStatus,
    pub sent_at: Option<i64>,
    pub delivered_at: Option<i64>,
    pub error_message: Option<String>,
    pub retry_count: u32,
}

/// Rate limiter configuration per channel.
pub struct RateLimitConfig {
    pub requests_per_second: u32,
    pub burst_size: u32,
}

impl RateLimitConfig {
    /// 10 per second, bursts of 20.
    pub fn default() -> (c: RateLimitConfig)
        ensures
            c.requests_per_second == 10 && c.burst_size == 20,
    {
        RateLimitConfig { requests_per_second: 10, burst_size: 20 }
    }

    /// Conservative limits for email (respecting SMTP rate limits).
    pub fn email_conservative() -> (c: RateLimitConfig)
        ensures
            c.requests_per_second == 5 && c.burst_size == 10,
    {
        RateLimitConfig { requests_per_second: 5, burst_size: 10 }
    }

    /// Standard limits for SMS.
    pub fn sms_standard() -> (c: RateLimitConfig)
        ensures
            c.requests_per_second == 10 && c.burst_size == 20,
    {
        RateLimitConfig { requests_per_second: 10, burst_size: 20 }
    }

    /// Aggressive limits for webhooks.
    pub fn webhook_aggressive() -> (c: RateLimitConfig)
        ensures
            c.requests_per_second == 50 && c.burst_size == 100,
    {
        RateLimitConfig { requests_per_second: 50, burst_size: 100 }
    }

    /// Telegram limits (respecting the Bot API).
    pub fn telegram_standard() -> (c: RateLimitConfig)
        ensures
            c.requests_per_second == 30 && c.burst_size == 60,
    {
        RateLimitConfig { requests_per_second: 30, burst_size: 60 }
    }
}

/// The limits each channel's limiter is made with: conservative for email,
/// standard for SMS and Telegram, aggressive for webhooks.
pub fn channel_rate_limits(channel: NotificationChannel) -> (c: RateLimitConfig)
    ensures
        channel == NotificationChannel::Email ==> c.requests_per_second == 5 && c.burst_size == 10,
        channel == NotificationChannel::Sms ==> c.requests_per_second == 10 && c.burst_size == 20,
        channel == NotificationChannel::Webhook ==> c.requests_per_second == 50 && c.burst_size == 100,
        channel == NotificationChannel::Telegram ==> c.requests_per_second == 30 && c.burst_size == 60,
{
    match channel {
        NotificationChannel::Email => RateLimitConfig::email_conservative(),
        NotificationChannel::Sms => RateLimitConfig::sms_standard(),
        NotificationChannel::Webhook => RateLimitConfig::webhook_aggressive(),
        NotificationChannel::Telegram => RateLimitConfig::telegram_standard(),
    }
}

/// Email notifier configuration.
pub struct EmailConfig {
    pub smtp_host: String,
    pub smtp_port: u16,
    pub username: String,
    pub password: String,
    pub from_address: String,
    pub from_name: String,
    pub use_tls: bool,
}

/// SMS notifier configuration.
pub struct SmsConfig {
    pub account_sid: String,
    pub auth_token: String,
    pub from_number: String,
    pub api_url: String,
}

/// Webhook notifier configuration.
pub struct WebhookConfig {
    pub timeout_seconds: u64,
    pub max_retries: u32,
    pub default_headers: Vec<(String, String)>,
}

impl WebhookConfig {
    /// 30-second timeout, 3 retries, JSON content type and the notifier's user agent.
    pub fn default() -> (c: WebhookConfig)
        ensures
            c.timeout_seconds == 30,
            c.max_retries == 3,
            c.default_headers@.len() == 2,
            c.default_headers@[0].0@ == "Content-Type"@,
            c.default_headers@[0].1@ == "application/json"@,
            c.default_headers@[1].0@ == "User-Agent"@,
            c.default_headers@[1].1@ == "Cherenkov-Notifier/1.0"@,
    {
        let mut headers: Vec<(String, String)> = Vec::new();
        headers.push((String::from_str("Content-Type"), String::from_str("application/json")));
        headers.push((String::from_str("User-Agent"), String::from_str("Cherenkov-Notifier/1.0")));
        WebhookConfig { timeout_seconds: 30, max_retries: 3, default_headers: headers }
    }
}

/// How Telegram formats message text.
#[derive(PartialEq, Eq, Structural, Clone, Copy, Debug)]
pub enum ParseMode {
    MarkdownV2,
    Html,
    Markdown,
}

/// Telegram notifier configuration.
pub struct TelegramConfig {
    pub bot_token: String,
    pub default_chat_id: Option<i64>,
    pub parse_mode: ParseMode,
}

/// Notification service configuration.
pub struct NotificationServiceConfig {
    pub email: EmailConfig,
    pub sms: SmsConfig,
    pub webhook: WebhookConfig,
    pub telegram: TelegramConfig,
    pub rate_limits: RateLimitConfig,
    pub max_retries: u32,
    pub retry_base_delay_ms: u64,
}

/// Why a service could not be built.
#[derive(PartialEq, Eq, Structural, Clone, Copy, Debug)]
pub enum BuildError {
    /// "Email config required"
    EmailConfigRequired,
    /// "SMS config required"
    SmsConfigRequired,
    /// "Webhook config required"
    WebhookConfigRequired,
    /// "Telegram config required"
    TelegramConfigRequired,
}

impl BuildError {
    /// The error's message.
    pub fn message(&self) -> (s: &'static str)
        ensures
            *self == BuildError::EmailConfigRequired ==> s@ == "Email config required"@,
            *self == BuildError::SmsConfigRequired ==> s@ == "SMS config required"@,
            *self == BuildError::WebhookConfigRequired ==> s@ == "Webhook config required"@,
            *self == BuildError::TelegramConfigRequired ==> s@ == "Telegram config required"@,
    {
        match self {
            BuildError::EmailConfigRequired => "Email config required",
            BuildError::SmsConfigRequired => "SMS config required",
            BuildError::WebhookConfigRequired => "Webhook config required",
            BuildError::TelegramConfigRequired => "Telegram config required",
        }
    }
}

/// Builder for the notification service.
pub struct NotificationServiceBuilder {
    pub email_config: Option<EmailConfig>,
    pub sms_config: Option<SmsConfig>,
    pub webhook_config: Option<WebhookConfig>,
    pub telegram_config: Option<TelegramConfig>,
    pub max_retries: u32,
}

impl NotificationServiceBuilder {
    /// No channel configured, 3 retries.
    pub fn new() -> (b: NotificationServiceBuilder)
        ensures
            b.email_config is None,
            b.sms_config is None,
            b.webhook_config is None,
            b.telegram_config is None,
            b.max_retries == 3,
    {
        NotificationServiceBuilder {
            email_config: None,
            sms_config: None,
            webhook_config: None,
            telegram_config: None,
            max_retries: 3,
        }
    }

    /// Sets the email channel.
    pub fn with_email(self, config: EmailConfig) -> (b: NotificationServiceBuilder)
        ensures
            b == (NotificationServiceBuilder { email_config: Some(config), ..self }),
    {
        NotificationServiceBuilder { email_config: Some(config), ..self }
    }

    /// Sets the SMS channel.
    pub fn with_sms(self, config: SmsConfig) -> (b: NotificationServiceBuilder)
        ensures
            b == (NotificationServiceBuilder { sms_config: Some(config), ..self }),
    {
        NotificationServiceBuilder { sms_config: Some(config), ..self }
    }

    /// Sets the webhook channel.
    pub fn with_webhook(self, config: WebhookConfig) -> (b: NotificationServiceBuilder)
        ensures
            b == (NotificationServiceBuilder { webhook_config: Some(config), ..self }),
    {
        NotificationServiceBuilder { webhook_config: Some(config), ..self }
    }

    /// Sets the Telegram channel.
    pub fn with_telegram(self, config: TelegramConfig) -> (b: NotificationServiceBuilder)
        ensures
            b == (NotificationServiceBuilder { telegram_config: Some(config), ..self }),
    {
        NotificationServiceBuilder { telegram_config: Some(config), ..self }
    }

    /// Sets the retry count.
    pub fn with_max_retries(self, retries: u32) -> (b: NotificationServiceBuilder)
        ensures
            b == (NotificationServiceBuilder { max_retries: retries, ..self }),
    {
        NotificationServiceBuilder { max_retries: retries, ..self }
    }

    /// The service configuration: every channel must be configured (the first
    /// missing one, in the order email, SMS, webhook, Telegram, is reported);
    /// default rate limits and a 1000 ms base retry delay.
    pub fn build(self) -> (r: Result<NotificationServiceConfig, BuildError>)
        ensures
            self.email_config is None ==> (r matches Err(e) && e == BuildError::EmailConfigRequired),
            self.email_config is Some && self.sms_config is None ==> (r matches Err(e) && e == BuildError::SmsConfigRequired),
            self.email_config is Some && self.sms_config is Some && self.webhook_config is None ==> (
                r matches Err(e) && e == BuildError::WebhookConfigRequired),
            self.email_config is Some && self.sms_config is Some && self.webhook_config is Some
                && self.telegram_config is None ==> (r matches Err(e) && e == BuildError::TelegramConfigRequired),
            r matches Ok(c) ==> {
                &&& self.email_config == Some(c.email)
                &&& self.sms_config == Some(c.sms)
                &&& self.webhook_config == Some(c.webhook)
                &&& self.telegram_config == Some(c.telegram)
                &&& c.rate_limits.requests_per_second == 10 && c.rate_limits.burst_size == 20
                &&& c.max_retries == self.max_retries
                &&& c.retry_base_delay_ms == 1000
            },
            self.email_config is Some && self.sms_config is Some && self.webhook_config is Some
                && self.telegram_config is Some ==> r is Ok,
    {
        let email = match self.email_config {
            Some(c) => c,
            None => return Err(BuildError::EmailConfigRequired),
        };
        let sms = match self.sms_config {
            Some(c) => c,
            None => return Err(BuildError::SmsConfigRequired),
        };
        let webhook = match self.webhook_config {
            Some(c) => c,
            None => return Err(BuildError::WebhookConfigRequired),
        };
        let telegram = match self.telegram_config {
            Some(c) => c,
            None => return Err(BuildError::TelegramConfigRequired),
        };
        Ok(NotificationServiceConfig {
            email,
            sms,
            webhook,
            telegram,
            rate_limits: RateLimitConfig::default(),
            max_retries: self.max_retries,
            retry_base_delay_ms: 1000,
        })
    }
}

// ---------------------------------------------------------------------------
// Delivery history and statistics
// ---------------------------------------------------------------------------

/// Delivery statistics.
pub struct NotificationStats {
    pub total_notifications: usize,
    pub delivered: usize,
    pub failed: usize,
    pub pending: usize,
}

/// The results stored for notification `id`, if any.
pub open spec fn lookup(h: Seq<(u128, Vec<NotificationResult>)>, id: u128) -> Option<Seq<NotificationResult>>
    decreases h.len(),
{
    if h.len() == 0 {
        None
    } else if h.last().0 == id {
        Some(h.last().1@)
    } else {
        lookup(h.drop_last(), id)
    }
}

/// No notification id appears twice.
pub open spec fn ids_unique(h: Seq<(u128, Vec<NotificationResult>)>) -> bool {
    forall|i: int, j: int| 0 <= i < j < h.len() ==> #[trigger] h[i].0 != #[trigger] h[j].0
}

/// Results with status `st` among `rs`.
pub open spec fn count_in(rs: Seq<NotificationResult>, st: NotificationStatus) -> nat
    decreases rs.len(),
{
    if rs.len() == 0 {
        0
    } else {
        count_in(rs.drop_last(), st) + if rs.last().status == st { 1nat } else { 0nat }
    }
}

/// Results with status `st` across the whole history.
pub open spec fn count_status(h: Seq<(u128, Vec<NotificationResult>)>, st: NotificationStatus) -> nat
    decreases h.len(),
{
    if h.len() == 0 {
        0
    } else {
        count_status(h.drop_last(), st) + count_in(h.last().1@, st)
    }
}

/// A notification is kept when some result was sent after `cutoff` or has no send time.
pub open spec fn kept_after(rs: Seq<NotificationResult>, cutoff: i64) -> bool {
    exists|k: int| 0 <= k < rs.len() && match #[trigger] rs[k].sent_at {
        Some(t) => t > cutoff,
        None => true,
    }
}

/// History entries that are kept.
pub open spec fn kept_entries(h: Seq<(u128, Vec<NotificationResult>)>, cutoff: i64) -> Seq<(u128, Vec<NotificationResult>)>
    decreases h.len(),
{
    if h.len() == 0 {
        h
    } else {
        let rest = kept_entries(h.drop_last(), cutoff);
        if kept_after(h.last().1@, cutoff) {
            rest.push(h.last())
        } else {
            rest
        }
    }
}

/// Delivery results per notification.
pub struct NotificationHistory {
    entries: Vec<(u128, Vec<NotificationResult>)>,
}

proof fn lemma_lookup_unique(h: Seq<(u128, Vec<NotificationResult>)>, i: int)
    requires
        ids_unique(h),
        0 <= i < h.len(),
    ensures
        lookup(h, h[i].0) == Some(h[i].1@),
    decreases h.len(),
{
    if i < h.len() - 1 {
        assert(h.last().0 != h[i].0);
        assert(ids_unique(h.drop_last()));
        lemma_lookup_unique(h.drop_last(), i);
    }
}

proof fn lemma_lookup_absent(h: Seq<(u128, Vec<NotificationResult>)>, id: u128)
    requires
        forall|i: int| 0 <= i < h.len() ==> h[i].0 != id,
    ensures
        lookup(h, id) is None,
    decreases h.len(),
{
    if h.len() > 0 {
        lemma_lookup_absent(h.drop_last(), id);
    }
}

impl NotificationHistory {
    /// The stored entries, in insertion order.
    pub closed spec fn entries(&self) -> Seq<(u128, Vec<NotificationResult>)> {
        self.entries@
    }

    /// Each notification appears once.
    pub closed spec fn well_formed(&self) -> bool {
        ids_unique(self.entries@)
    }

    /// The results stored for `id`.
    pub open spec fn results_of(&self, id: u128) -> Option<Seq<NotificationResult>> {
        lookup(self.entries(), id)
    }

    /// An empty history.
    pub fn new() -> (h: NotificationHistory)
        ensures
            h.well_formed(),
            h.entries().len() == 0,
    {
        NotificationHistory { entries: Vec::new() }
    }

    /// Stores the results of a notification, replacing earlier results for it.
    pub fn store_history(&mut self, notification_id: u128, results: Vec<NotificationResult>)
        requires
            old(self).well_formed(),
        ensures
            final(self).well_formed(),
            final(self).results_of(notification_id) == Some(results@),
            forall|other: u128| other != notification_id ==> final(self).results_of(other) == old(self).results_of(other),
            final(self).entries().len() == old(self).entries().len() + if old(self).results_of(notification_id) is Some { 0int } else { 1int },
    {
        let ghost h0 = self.entries@;
        let mut i: usize = 0;
        while i < self.entries.len()
            invariant
                self.entries@ == h0,
                old(self).entries@ == h0,
                ids_unique(h0),
                i <= h0.len(),
                forall|k: int| 0 <= k < i ==> h0[k].0 != notification_id,
            decreases self.entries.len() - i,
        {
            if self.entries[i].0 == notification_id {
                let ghost rs = results@;
                self.entries.set(i, (notification_id, results));
                proof {
                    let h1 = self.entries@;
                    assert(ids_unique(h1)) by {
                        assert forall|a: int, b: int| 0 <= a < b < h1.len() implies #[trigger] h1[a].0 != #[trigger] h1[b].0 by {
                            assert(h1[a].0 == h0[a].0 && h1[b].0 == h0[b].0);
                        }
                    }
                    lemma_lookup_unique(h1, i as int);
                    lemma_lookup_unique(h0, i as int);
                    assert forall|other: u128| other != notification_id implies lookup(h1, other) == lookup(h0, other) by {
                        if exists|k: int| 0 <= k < h0.len() && h0[k].0 == other {
                            let k = choose|k: int| 0 <= k < h0.len() && h0[k].0 == other;
                            lemma_lookup_unique(h0, k);
                            lemma_lookup_unique(h1, k);
                        } else {
                            lemma_lookup_absent(h0, other);
                            lemma_lookup_absent(h1, other);
                        }
                    }
                }
                return;
            }
            i = i + 1;
        }
        self.entries.push((notification_id, results));
        proof {
            let h1 = self.entries@;
            lemma_lookup_absent(h0, notification_id);
            assert(h1.drop_last() =~= h0);
            assert(ids_unique(h1));
        }
    }

    /// The results stored for a notification.
    pub fn get_history(&self, notification_id: u128) -> (r: Option<&Vec<NotificationResult>>)
        requires
            self.well_formed(),
        ensures
            match r {
                Some(v) => self.results_of(notification_id) == Some(v@),
                None => self.results_of(notification_id) is None,
            },
    {
        let mut i: usize = 0;
        while i < self.entries.len()
            invariant
                i <= self.entries@.len(),
                ids_unique(self.entries@),
                forall|k: int| 0 <= k < i ==> self.entries@[k].0 != notification_id,
            decreases self.entries.len() - i,
        {
            if self.entries[i].0 == notification_id {
                proof {
                    lemma_lookup_unique(self.entries@, i as int);
                }
                return Some(&self.entries[i].1);
            }
            i = i + 1;
        }
        proof {
            lemma_lookup_absent(self.entries@, notification_id);
        }
        None
    }

    /// Counts notifications and, across all their results, the delivered,
    /// failed and pending ones.
    pub fn get_stats(&self) -> (s: NotificationStats)
        requires
            count_status(self.entries(), NotificationStatus::Delivered) <= usize::MAX,
            count_status(self.entries(), NotificationStatus::Failed) <= usize::MAX,
            count_status(self.entries(), NotificationStatus::Pending) <= usize::MAX,
        ensures
            s.total_notifications == self.entries().len(),
            s.delivered == count_status(self.entries(), NotificationStatus::Delivered),
            s.failed == count_status(self.entries(), NotificationStatus::Failed),
            s.pending == count_status(self.entries(), NotificationStatus::Pending),
    {
        let mut delivered: usize = 0;
        let mut failed: usize = 0;
        let mut pending: usize = 0;
        let mut i: usize = 0;
        while i < self.entries.len()
            invariant
                i <= self.entries@.len(),
                delivered == count_status(self.entries@.subrange(0, i as int), NotificationStatus::Delivered),
                failed == count_status(self.entries@.subrange(0, i as int), NotificationStatus::Failed),
                pending == count_status(self.entries@.subrange(0, i as int), NotificationStatus::Pending),
                count_status(self.entries@, NotificationStatus::Delivered) <= usize::MAX,
                count_status(self.entries@, NotificationStatus::Failed) <= usize::MAX,
                count_status(self.entries@, NotificationStatus::Pending) <= usize::MAX,
            decreases self.entries.len() - i,
        {
            let ghost before = self.entries@.subrange(0, i as int);
            let ghost d0 = delivered as nat;
            let ghost f0 = failed as nat;
            let ghost p0 = pending as nat;
            let rs = &self.entries[i].1;
            proof {
                let next = self.entries@.subrange(0, i + 1);
                assert(next.drop_last() =~= before);
                lemma_count_prefix(self.entries@, i + 1, NotificationStatus::Delivered);
                lemma_count_prefix(self.entries@, i + 1, NotificationStatus::Failed);
                lemma_count_prefix(self.entries@, i + 1, NotificationStatus::Pending);
            }
            let mut j: usize = 0;
            while j < rs.len()
                invariant
                    j <= rs@.len(),
                    delivered == d0 + count_in(rs@.subrange(0, j as int), NotificationStatus::Delivered),
                    failed == f0 + count_in(rs@.subrange(0, j as int), NotificationStatus::Failed),
                    pending == p0 + count_in(rs@.subrange(0, j as int), NotificationStatus::Pending),
                    d0 + count_in(rs@, NotificationStatus::Delivered) <= usize::MAX,
                    f0 + count_in(rs@, NotificationStatus::Failed) <= usize::MAX,
                    p0 + count_in(rs@, NotificationStatus::Pending) <= usize::MAX,
                decreases rs.len() - j,
            {
                proof {
                    let next = rs@.subrange(0, j + 1);
                    assert(next.drop_last() =~= rs@.subrange(0, j as int));
                    lemma_count_in_prefix(rs@, j + 1, NotificationStatus::Delivered);
                    lemma_count_in_prefix(rs@, j + 1, NotificationStatus::Failed);
                    lemma_count_in_prefix(rs@, j + 1, NotificationStatus::Pending);
                }
                match rs[j].status {
                    NotificationStatus::Delivered => delivered = delivered + 1,
                    NotificationStatus::Failed => failed = failed + 1,
                    NotificationStatus::Pending => pending = pending + 1,
                    _ => {},
                }
                j = j + 1;
            }
            assert(rs@.subrange(0, rs@.len() as int) =~= rs@);
            i = i + 1;
        }
        assert(self.entries@.subrange(0, self.entries@.len() as int) =~= self.entries@);
        NotificationStats { total_notifications: self.entries.len(), delivered, failed, pending }
    }

    /// Drops notifications none of whose results was sent after `older_than`
    /// (a result without a send time keeps its notification).
    pub fn clear_history(&mut self, older_than: i64)
        requires
            old(self).well_formed(),
        ensures
            final(self).well_formed(),
            final(self).entries() == kept_entries(old(self).entries(), older_than),
    {
        let mut kept: Vec<(u128, Vec<NotificationResult>)> = Vec::new();
        let mut old_entries: Vec<(u128, Vec<NotificationResult>)> = Vec::new();
        std::mem::swap(&mut old_entries, &mut self.entries);
        let ghost h0 = old_entries@;
        let mut rev: Vec<(u128, Vec<NotificationResult>)> = Vec::new();
        while old_entries.len() > 0
            invariant
                old_entries@ == h0.subrange(0, old_entries@.len() as int),
                old_entries@.len() + rev@.len() == h0.len(),
                forall|j: int| 0 <= j < rev@.len() ==> #[trigger] rev@[j] == h0[h0.len() - 1 - j],
            decreases old_entries.len(),
        {
            let e = old_entries.pop().unwrap();
            rev.push(e);
        }
        proof {
            assert(h0.subrange(0, 0) =~= Seq::<(u128, Vec<NotificationResult>)>::empty());
        }
        while rev.len() > 0
            invariant
                rev@.len() <= h0.len(),
                forall|j: int| 0 <= j < rev@.len() ==> #[trigger] rev@[j] == h0[h0.len() - 1 - j],
                kept@ == kept_entries(h0.subrange(0, h0.len() - rev@.len()), older_than),
                ids_unique(h0),
                forall|a: int| 0 <= a < kept@.len() ==> exists|b: int| 0 <= b < h0.len() - rev@.len() && #[trigger] kept@[a].0 == h0[b].0,
                ids_unique(kept@),
            decreases rev.len(),
        {
            let e = rev.pop().unwrap();
            let ghost idx = h0.len() - rev@.len() - 1;
            proof {
                let p = h0.subrange(0, idx + 1);
                assert(p.drop_last() =~= h0.subrange(0, idx));
                assert(p.last() == e);
            }
            let mut keep = false;
            let mut k: usize = 0;
            while k < e.1.len()
                invariant
                    k <= e.1@.len(),
                    keep == (exists|m: int| 0 <= m < k && match #[trigger] e.1@[m].sent_at {
                        Some(t) => t > older_than,
                        None => true,
                    }),
                decreases e.1.len() - k,
            {
                let hit = match e.1[k].sent_at {
                    Some(t) => t > older_than,
                    None => true,
                };
                if hit {
                    keep = true;
                }
                k = k + 1;
            }
            if keep {
                let ghost k0 = kept@;
                kept.push(e);
                proof {
                    assert forall|a: int, b: int| 0 <= a < b < kept@.len() implies #[trigger] kept@[a].0 != #[trigger] kept@[b].0 by {
                        if b == kept@.len() - 1 {
                            let w = choose|w: int| 0 <= w < idx && #[trigger] k0[a].0 == h0[w].0;
                            assert(h0[w].0 != h0[idx].0);
                        }
                    }
                    assert forall|a: int| 0 <= a < kept@.len() implies exists|b: int| 0 <= b < h0.len() - rev@.len() && #[trigger] kept@[a].0 == h0[b].0 by {
                        if a == kept@.len() - 1 {
                            assert(kept@[a].0 == h0[idx].0);
                        } else {
                            let w = choose|w: int| 0 <= w < idx && #[trigger] k0[a].0 == h0[w].0;
                            assert(kept@[a].0 == h0[w].0);
                        }
                    }
                }
            }
        }
        assert(h0.subrange(0, h0.len() as int) =~= h0);
        self.entries = kept;
    }
}

proof fn lemma_count_prefix(h: Seq<(u128, Vec<NotificationResult>)>, n: int, st: NotificationStatus)
    requires
        0 <= n <= h.len(),
    ensures
        count_status(h.subrange(0, n), st) <= count_status(h, st),
    decreases h.len() - n,
{
    if n < h.len() {
        lemma_count_prefix(h, n + 1, st);
        assert(h.subrange(0, n + 1).drop_last() =~= h.subrange(0, n));
    } else {
        assert(h.subrange(0, n) =~= h);
    }
}

proof fn lemma_count_in_prefix(rs: Seq<NotificationResult>, n: int, st: NotificationStatus)
    requires
        0 <= n <= rs.len(),
    ensures
        count_in(rs.subrange(0, n), st) <= count_in(rs, st),
    decreases rs.len() - n,
{
    if n < rs.len() {
        lemma_count_in_prefix(rs, n + 1, st);
        assert(rs.subrange(0, n + 1).drop_last() =~= rs.subrange(0, n));
    } else {
        assert(rs.subrange(0, n) =~= rs);
    }
}

} // verus!
