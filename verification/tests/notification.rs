use xscp::notification::{NotificationError, NotificationType, XscpNotification};

// Creation tests
#[test]
fn correct_notification() {
    let notification =
        XscpNotification::try_new(NotificationType::Broadcast, "Alice", "Hello, World!").unwrap();
    assert_eq!(notification.notification_type(), NotificationType::Broadcast);
    assert_eq!(notification.source(), "Alice");
    assert_eq!(notification.message(), "Hello, World!");
}

#[test]
fn notification_source_with_pipe() {
    let result =
        XscpNotification::try_new(NotificationType::Broadcast, "Alice|Bob", "Hello!").unwrap_err();
    assert_eq!(result, NotificationError::InvalidSource);
}

#[test]
fn notification_source_with_crlf() {
    let result = XscpNotification::try_new(NotificationType::Broadcast, "Alice\r\nBob", "Hello!")
        .unwrap_err();
    assert_eq!(result, NotificationError::InvalidSource);
}

#[test]
fn notification_source_empty() {
    let result = XscpNotification::try_new(NotificationType::Broadcast, "", "Hello!").unwrap_err();
    assert_eq!(result, NotificationError::InvalidSource);
}

#[test]
fn notification_source_below_min() {
    let result =
        XscpNotification::try_new(NotificationType::Broadcast, "Al", "Hello!").unwrap_err();
    assert_eq!(result, NotificationError::InvalidSource);
}

#[test]
fn notification_source_above_max() {
    let long_source = "A".repeat(33);
    let result = XscpNotification::try_new(NotificationType::Broadcast, &long_source, "Hello!")
        .unwrap_err();
    assert_eq!(result, NotificationError::InvalidSource);
}

#[test]
fn notification_message_with_pipe() {
    let result =
        XscpNotification::try_new(NotificationType::Broadcast, "Bob", "Hello|World!").unwrap();
    assert_eq!(result.notification_type(), NotificationType::Broadcast);
    assert_eq!(result.source(), "Bob");
    assert_eq!(result.message(), "Hello|World!");
}

#[test]
fn notification_message_with_crlf() {
    let result = XscpNotification::try_new(NotificationType::Broadcast, "Bob", "Hello\r\nWorld!")
        .unwrap_err();
    assert_eq!(result, NotificationError::InvalidMessage);
}

#[test]
fn notification_message_above_max() {
    let long_message = "A".repeat(473);
    let result = XscpNotification::try_new(NotificationType::Broadcast, "Bob", &long_message)
        .unwrap_err();
    assert_eq!(result, NotificationError::InvalidMessage);
}

// Parsing tests
#[test]
fn notification_correct_parsing() {
    let raw_notification = "BRDC|Alice|Hello, World!\r\n";
    let notification = XscpNotification::parse(raw_notification).unwrap();
    assert_eq!(notification.notification_type(), NotificationType::Broadcast);
    assert_eq!(notification.source(), "Alice");
    assert_eq!(notification.message(), "Hello, World!");
}

#[test]
fn invalid_notification_type() {
    let raw_notification = "AAAA|Alice|Hello!\r\n";
    let result = XscpNotification::parse(raw_notification).unwrap_err();
    assert_eq!(result, NotificationError::UnknownNotificationType);
}

#[test]
fn malformed_notification() {
    let raw_notification = "snfk4n33nkj\r\n"; // Missing delimiter
    let result = XscpNotification::parse(raw_notification).unwrap_err();
    assert_eq!(result, NotificationError::MalformedNotification);
}

#[test]
fn notification_missing_crlf() {
    let raw_notification = "BRDC|Alice|Hello, World!";
    let result = XscpNotification::parse(raw_notification).unwrap_err();
    assert_eq!(result, NotificationError::MissingCrlf);
}

#[test]
fn notification_parse_message_with_pipe() {
    let raw_notification = "BRDC|Alice|Hello|ExtraField\r\n";
    let result = XscpNotification::parse(raw_notification).unwrap();
    assert_eq!(result.notification_type(), NotificationType::Broadcast);
    assert_eq!(result.source(), "Alice");
    assert_eq!(result.message(), "Hello|ExtraField");
}

// Further cases

#[test]
fn notification_server_source() {
    let n = XscpNotification::try_new(NotificationType::Broadcast, "XSCP_SERVER", "bye").unwrap();
    assert_eq!(n.to_string(), "BRDC|XSCP_SERVER|bye\r\n");
}

#[test]
fn notification_parse_field_errors() {
    assert_eq!(
        XscpNotification::parse("BRDC|Al|Hello\r\n").unwrap_err(),
        NotificationError::InvalidSource
    );
    assert_eq!(
        XscpNotification::parse("BRDC|Alice\r\n").unwrap_err(),
        NotificationError::MalformedNotification
    );
    assert_eq!(
        XscpNotification::parse("SEND|Alice|Hello\r\n").unwrap_err(),
        NotificationError::UnknownNotificationType
    );
}

#[test]
fn notification_round_trip() {
    for (source, message) in [("Alice", ""), ("Bob", "a|b|c"), ("Zoë", "grüße")] {
        let n = XscpNotification::try_new(NotificationType::Broadcast, source, message).unwrap();
        let wire = n.to_string();
        let parsed = XscpNotification::parse(&wire).unwrap();
        assert_eq!(parsed.notification_type(), NotificationType::Broadcast);
        assert_eq!(parsed.source(), source);
        assert_eq!(parsed.message(), message);
    }
}

#[test]
fn notification_canonical_form() {
    let n = XscpNotification::parse("BRDC|Alice|Hi\r\n\r\n").unwrap();
    assert_eq!(n.to_string(), "BRDC|Alice|Hi\r\n");
}
