use cherenkov::alerts::{meta_insert, Notification, NotificationBuilder, Recipient, RecipientPreferences, SmsNotifier};
use cherenkov::notify::{
    channel_rate_limits, BuildError, EmailConfig, NotificationChannel, NotificationHistory, NotificationPriority,
    NotificationResult, NotificationServiceBuilder, NotificationStatus, ParseMode, RateLimitConfig, SmsConfig,
    TelegramConfig, WebhookConfig,
};

fn s(x: &str) -> String {
    x.to_string()
}

fn sms_config() -> SmsConfig {
    SmsConfig {
        account_sid: "test_account".to_string(),
        auth_token: "test_token".to_string(),
        from_number: "+1234567890".to_string(),
        api_url: "https://api.twilio.com/2010-04-01".to_string(),
    }
}

#[test]
fn test_build_message() {
    let notifier = SmsNotifier::new(sms_config());

    let notification = NotificationBuilder::new(s("Test Alert"), s("This is a test message"))
        .priority(NotificationPriority::Critical)
        .build();

    let message = notifier.build_message(&notification);
    assert!(message.contains("🔴"));
    assert!(message.contains("Test Alert"));
    assert_eq!(message, "🔴 Test Alert: This is a test message");
}

#[test]
fn long_sms_is_cut_at_297_bytes() {
    let notifier = SmsNotifier::new(sms_config());
    let body = "x".repeat(400);
    let n = NotificationBuilder::new(s("T"), body).priority(NotificationPriority::Low).build();
    let message = notifier.build_message(&n);
    // marker (4 bytes) + " T: " + x's up to 297 bytes, then "..."
    assert_eq!(message.len(), 300);
    assert!(message.starts_with("🟢 T: xxx"));
    assert!(message.ends_with("x..."));
    let short = NotificationBuilder::new(s("T"), "y".repeat(290)).build();
    assert_eq!(notifier.build_message(&short).len(), 4 + 4 + 290);
}

#[test]
fn test_validate_phone() {
    assert!(SmsNotifier::validate_phone("+1234567890"));
    assert!(SmsNotifier::validate_phone("+441234567890"));
    assert!(!SmsNotifier::validate_phone("1234567890"));
    assert!(!SmsNotifier::validate_phone("+123"));
}

#[test]
fn phone_numbers_at_the_edges() {
    assert!(SmsNotifier::validate_phone("+123456789012345"));
    assert!(!SmsNotifier::validate_phone("+1234567890123456"));
    assert!(!SmsNotifier::validate_phone("+0234567890"));
    assert!(!SmsNotifier::validate_phone("+12345678901a"));
}

#[test]
fn builder_collects_fields() {
    let recipient = Recipient::new().with_email(s("a@b.c")).with_phone(s("+441234567890")).with_telegram(42);
    assert_eq!(recipient.email.as_deref(), Some("a@b.c"));
    assert_eq!(recipient.telegram_chat_id, Some(42));
    assert_eq!(recipient.preferences.enabled_channels, vec![NotificationChannel::Email, NotificationChannel::Telegram]);
    assert_eq!((recipient.id >> 76) & 0xf, 4);
    let n: Notification = NotificationBuilder::new(s("A"), s("B"))
        .channel(NotificationChannel::Sms)
        .channel(NotificationChannel::Webhook)
        .recipient(recipient)
        .metadata(s("sensor_id"), s("S001"))
        .metadata(s("site"), s("north"))
        .metadata(s("sensor_id"), s("S002"))
        .scheduled_for(1_700_000_000_000)
        .build();
    assert_eq!(n.priority, NotificationPriority::Normal);
    assert_eq!(n.channels, vec![NotificationChannel::Sms, NotificationChannel::Webhook]);
    assert_eq!(n.metadata, vec![(s("sensor_id"), s("S002")), (s("site"), s("north"))]);
    assert_eq!(n.scheduled_for, Some(1_700_000_000_000));
    assert_eq!(n.recipients.len(), 1);
    let prefs = RecipientPreferences::default();
    assert_eq!(prefs.min_priority, NotificationPriority::Low);
    let b = Notification::builder(s("x"), s("y"));
    assert!(b.channels.is_empty());
}

#[test]
fn metadata_insert_replaces_in_place() {
    let mut m: Vec<(String, String)> = Vec::new();
    meta_insert(&mut m, s("a"), s("1"));
    meta_insert(&mut m, s("b"), s("2"));
    meta_insert(&mut m, s("a"), s("3"));
    assert_eq!(m, vec![(s("a"), s("3")), (s("b"), s("2"))]);
}

#[test]
fn names_of_priorities_and_channels() {
    assert_eq!(NotificationPriority::Critical.as_str(), "critical");
    assert_eq!(NotificationPriority::Low.as_str(), "low");
    assert_eq!(NotificationChannel::Telegram.as_str(), "telegram");
    assert_eq!(NotificationChannel::Sms.as_str(), "sms");
}

#[test]
fn rate_limit_presets() {
    let d = RateLimitConfig::default();
    assert_eq!((d.requests_per_second, d.burst_size), (10, 20));
    let e = RateLimitConfig::email_conservative();
    assert_eq!((e.requests_per_second, e.burst_size), (5, 10));
    let w = RateLimitConfig::webhook_aggressive();
    assert_eq!((w.requests_per_second, w.burst_size), (50, 100));
    let t = RateLimitConfig::telegram_standard();
    assert_eq!((t.requests_per_second, t.burst_size), (30, 60));
    let m = RateLimitConfig::sms_standard();
    assert_eq!((m.requests_per_second, m.burst_size), (10, 20));
    let c = channel_rate_limits(NotificationChannel::Email);
    assert_eq!((c.requests_per_second, c.burst_size), (5, 10));
    let c = channel_rate_limits(NotificationChannel::Webhook);
    assert_eq!((c.requests_per_second, c.burst_size), (50, 100));
}

fn email() -> EmailConfig {
    EmailConfig {
        smtp_host: s("smtp.test.com"),
        smtp_port: 587,
        username: s("test"),
        password: s("pass"),
        from_address: s("test@test.com"),
        from_name: s("Test"),
        use_tls: true,
    }
}

#[test]
fn service_builder_requires_every_channel() {
    match NotificationServiceBuilder::new().build() {
        Err(e) => {
            assert_eq!(e, BuildError::EmailConfigRequired);
            assert_eq!(e.message(), "Email config required");
        }
        Ok(_) => panic!("expected a missing email config"),
    }
    match NotificationServiceBuilder::new().with_email(email()).with_sms(sms_config()).build() {
        Err(e) => assert_eq!(e, BuildError::WebhookConfigRequired),
        Ok(_) => panic!("expected a missing webhook config"),
    }
    let telegram = TelegramConfig { bot_token: s("t"), default_chat_id: Some(1), parse_mode: ParseMode::Html };
    let config = match NotificationServiceBuilder::new()
        .with_email(email())
        .with_sms(sms_config())
        .with_webhook(WebhookConfig::default())
        .with_telegram(telegram)
        .with_max_retries(5)
        .build()
    {
        Ok(c) => c,
        Err(_) => panic!("every channel was configured"),
    };
    assert_eq!(config.max_retries, 5);
    assert_eq!(config.retry_base_delay_ms, 1000);
    assert_eq!(config.rate_limits.burst_size, 20);
    assert_eq!(config.webhook.timeout_seconds, 30);
    assert_eq!(config.webhook.default_headers[1], (s("User-Agent"), s("Cherenkov-Notifier/1.0")));
}

fn result(id: u128, status: NotificationStatus, sent_at: Option<i64>) -> NotificationResult {
    NotificationResult {
        notification_id: id,
        channel: NotificationChannel::Email,
        recipient_id: 7,
        status,
        sent_at,
        delivered_at: None,
        error_message: None,
        retry_count: 0,
    }
}

#[test]
fn history_read_after_write() {
    let mut h = NotificationHistory::new();
    h.store_history(1, vec![result(1, NotificationStatus::Delivered, Some(100))]);
    h.store_history(2, vec![result(2, NotificationStatus::Failed, Some(50)), result(2, NotificationStatus::Pending, None)]);
    h.store_history(1, vec![result(1, NotificationStatus::Failed, Some(200))]);
    let one = h.get_history(1).expect("stored");
    assert_eq!(one.len(), 1);
    assert_eq!(one[0].status, NotificationStatus::Failed);
    assert!(h.get_history(3).is_none());
    let stats = h.get_stats();
    assert_eq!(stats.total_notifications, 2);
    assert_eq!(stats.delivered, 0);
    assert_eq!(stats.failed, 2);
    assert_eq!(stats.pending, 1);
    // Notification 2 has a result without a send time, so it stays.
    h.clear_history(1000);
    assert!(h.get_history(1).is_none());
    assert!(h.get_history(2).is_some());
}
