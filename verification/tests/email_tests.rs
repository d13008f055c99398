use cherenkov::alerts::{Notification, NotificationBuilder};
use cherenkov::email::EmailNotifier;
use cherenkov::notify::{EmailConfig, NotificationPriority};

fn config() -> EmailConfig {
    EmailConfig {
        smtp_host: "smtp.test.com".to_string(),
        smtp_port: 587,
        username: "test".to_string(),
        password: "pass".to_string(),
        from_address: "test@test.com".to_string(),
        from_name: "Test".to_string(),
        use_tls: true,
    }
}

fn notification(metadata: Vec<(String, String)>) -> Notification {
    Notification {
        id: 0x67e55044_10b1_426f_9247_bb680e5fe0c8,
        title: "Test Alert".to_string(),
        message: "This is a test message".to_string(),
        priority: NotificationPriority::High,
        channels: vec![],
        recipients: vec![],
        metadata,
        created_at: 1_704_189_600_000,
        scheduled_for: None,
    }
}

#[test]
fn test_build_text_body() {
    let config = config();
    let notification = NotificationBuilder::new("Test Alert".to_string(), "This is a test message".to_string())
        .priority(NotificationPriority::High)
        .metadata("sensor_id".to_string(), "S001".to_string())
        .build();
    let notifier = EmailNotifier::new(config);
    let body = notifier.build_text_body(&notification);
    assert!(body.starts_with("This is a test message\n\nPriority: high\n\nAdditional Information:\nsensor_id: S001"));
}

#[test]
fn email_text_body_exact() {
    let notifier = EmailNotifier::new(config());
    let n = notification(vec![("sensor_id".to_string(), "S001".to_string()), ("site".to_string(), "A".to_string())]);
    assert_eq!(
        notifier.build_text_body(&n),
        "This is a test message\n\nPriority: high\n\nAdditional Information:\nsensor_id: S001\nsite: A\n\n---\n\
         This alert was generated by the Cherenkov Radiation Monitoring System.\n\
         Notification ID: 67e55044-10b1-426f-9247-bb680e5fe0c8 | Sent: 2024-01-02 10:00:00 UTC"
    );
    let bare = notification(vec![]);
    assert!(notifier.build_text_body(&bare).starts_with("This is a test message\n\nPriority: high\n\n---\n"));
}

#[test]
fn email_html_body_parts() {
    let notifier = EmailNotifier::new(config());
    let n = notification(vec![("sensor_id".to_string(), "S001".to_string())]);
    let html = notifier.build_html_body(&n);
    assert!(html.starts_with("<!DOCTYPE html>\n            <html>"));
    assert!(html.contains("<title>Test Alert</title>"));
    assert!(html.contains("<div style=\"background-color: #ff9933; padding: 20px; color: #000;\">"));
    assert!(html.contains("Priority: high</p>"));
    assert!(html.contains("<tr><td><strong>sensor_id:</strong></td><td>S001</td></tr>"));
    assert!(html.contains("<p>Notification ID: 67e55044-10b1-426f-9247-bb680e5fe0c8 | Sent: 2024-01-02 10:00:00 UTC</p>"));
    assert!(html.ends_with("</body>\n            </html>"));
    let plain = notifier.build_html_body(&notification(vec![]));
    assert!(!plain.contains("<table"));
    let mut critical = notification(vec![]);
    critical.priority = NotificationPriority::Critical;
    assert!(notifier.build_html_body(&critical).contains("background-color: #ff3366;"));
}
