use cherenkov::alerts::{Notification, NotificationBuilder, Recipient};
use cherenkov::notify::{NotificationChannel, NotificationPriority, WebhookConfig};
use cherenkov::webhook::WebhookNotifier;

#[test]
fn test_build_payload() {
    let config = WebhookConfig::default();
    let notifier = WebhookNotifier::new(config);

    let recipient = Recipient::new().with_email("test@example.com".to_string());

    let notification = NotificationBuilder::new("Test Alert".to_string(), "Test message".to_string())
        .priority(NotificationPriority::High)
        .metadata("sensor_id".to_string(), "S001".to_string())
        .build();

    let payload: serde_json::Value = serde_json::from_str(&notifier.build_payload(&notification, &recipient)).unwrap();

    assert_eq!(payload["title"], "Test Alert");
    assert_eq!(payload["priority"], "high");
    assert_eq!(payload["event_type"], "alert");
}

#[test]
fn webhook_payload_exact() {
    let notifier = WebhookNotifier::new(WebhookConfig::default());
    let mut recipient = Recipient::new();
    recipient.id = 1;
    recipient.name = Some("Ops \"night\"".to_string());
    let n = Notification {
        id: 0x67e55044_10b1_426f_9247_bb680e5fe0c8,
        title: "T".to_string(),
        message: "line1\nline2".to_string(),
        priority: NotificationPriority::Critical,
        channels: vec![NotificationChannel::Email, NotificationChannel::Webhook],
        recipients: vec![],
        metadata: vec![("a".to_string(), "1".to_string()), ("b".to_string(), "2".to_string())],
        created_at: 1_704_189_600_000,
        scheduled_for: None,
    };
    assert_eq!(
        notifier.build_payload(&n, &recipient),
        "{\"channels\":[\"email\",\"webhook\"],\"event_type\":\"alert\",\"message\":\"line1\\nline2\",\
         \"metadata\":{\"a\":\"1\",\"b\":\"2\"},\"notification_id\":\"67e55044-10b1-426f-9247-bb680e5fe0c8\",\
         \"priority\":\"critical\",\"recipient\":{\"id\":\"00000000-0000-0000-0000-000000000001\",\
         \"name\":\"Ops \\\"night\\\"\"},\"timestamp\":\"2024-01-02T10:00:00+00:00\",\"title\":\"T\",\
         \"version\":\"1.0\"}"
    );
    let value: serde_json::Value = serde_json::from_str(&notifier.build_payload(&n, &recipient)).unwrap();
    assert_eq!(value["recipient"]["name"], "Ops \"night\"");
    assert_eq!(value["metadata"]["b"], "2");
    recipient.name = None;
    let anonymous: serde_json::Value = serde_json::from_str(&notifier.build_payload(&n, &recipient)).unwrap();
    assert!(anonymous["recipient"]["name"].is_null());
}
