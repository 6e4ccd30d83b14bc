//! Wire protocol tests: construction, serialization, and the round trip.

use kanpe::message::Message;
use kanpe::types::{new_id, timestamp, FeedbackType, Priority};
use kanpe::wire::{
    deserialize_message, serialize_feedback_type, serialize_message, serialize_priority,
};

#[test]
fn test_client_hello_serialization() {
    let msg = Message::client_hello("TestClient".to_string(), vec![1, 2]);
    let json = serialize_message(&msg);
    assert!(json.contains("\"type\":\"client_hello\""));
    assert!(json.contains("\"client_name\":\"TestClient\""));
    assert!(json.contains("\"display_monitor_ids\":[1,2]"));
}

#[test]
fn test_server_welcome_serialization() {
    let msg = Message::server_welcome("TestServer".to_string(), "client-123".to_string());
    let json = serialize_message(&msg);
    assert!(json.contains("\"type\":\"server_welcome\""));
    assert!(json.contains("\"server_name\":\"TestServer\""));
    assert!(json.contains("\"assigned_client_id\":\"client-123\""));
}

#[test]
fn test_kanpe_message_serialization() {
    let msg = Message::kanpe_message("Test message".to_string(), vec![1], Priority::High);
    let json = serialize_message(&msg);
    assert!(json.contains("\"type\":\"kanpe_message\""));
    assert!(json.contains("\"content\":\"Test message\""));
    assert!(json.contains("\"target_monitor_ids\":[1]"));
    assert!(json.contains("\"priority\":\"high\""));
}

#[test]
fn test_feedback_message_serialization() {
    let msg = Message::feedback_message(
        "Got it".to_string(),
        "TestClient".to_string(),
        "msg-123".to_string(),
        FeedbackType::Ack,
    );
    let json = serialize_message(&msg);
    assert!(json.contains("\"type\":\"feedback_message\""));
    assert!(json.contains("\"content\":\"Got it\""));
    assert!(json.contains("\"client_name\":\"TestClient\""));
    assert!(json.contains("\"reply_to_message_id\":\"msg-123\""));
    assert!(json.contains("\"feedback_type\":\"ack\""));
}

#[test]
fn test_ping_pong_serialization() {
    let ping = Message::ping();
    let json = serialize_message(&ping);
    assert!(json.contains("\"type\":\"ping\""));

    let pong = Message::pong();
    let json = serialize_message(&pong);
    assert!(json.contains("\"type\":\"pong\""));
}

#[test]
fn test_message_roundtrip() {
    let original = Message::kanpe_message("Test".to_string(), vec![0], Priority::Normal);
    let json = serialize_message(&original);
    let deserialized: Message = deserialize_message(&json).unwrap();

    assert_eq!(original.id(), deserialized.id());
    assert_eq!(original.timestamp(), deserialized.timestamp());
}

#[test]
fn test_message_accessors() {
    let msg = Message::ping();
    assert!(!msg.id().is_empty());
    assert!(msg.timestamp() > 0);
}

#[test]
fn test_flash_command_serialization() {
    let msg = Message::flash_command(vec![1, 2]);
    let json = serialize_message(&msg);
    assert!(json.contains("\"type\":\"flash_command\""));
    assert!(json.contains("\"target_monitor_ids\":[1,2]"));
}

#[test]
fn test_clear_command_serialization() {
    let msg = Message::clear_command(vec![0]);
    let json = serialize_message(&msg);
    assert!(json.contains("\"type\":\"clear_command\""));
    assert!(json.contains("\"target_monitor_ids\":[0]"));
}

#[test]
fn test_priority_serialization() {
    assert_eq!(serialize_priority(&Priority::Normal), "\"normal\"");
    assert_eq!(serialize_priority(&Priority::High), "\"high\"");
    assert_eq!(serialize_priority(&Priority::Urgent), "\"urgent\"");
}

#[test]
fn test_feedback_type_serialization() {
    assert_eq!(serialize_feedback_type(&FeedbackType::Ack), "\"ack\"");
    assert_eq!(serialize_feedback_type(&FeedbackType::Question), "\"question\"");
}

#[test]
fn test_new_id_generates_valid_uuid() {
    let id = new_id();
    assert!(uuid::Uuid::parse_str(&id).is_ok());
}

#[test]
fn test_timestamp_is_recent() {
    let ts = timestamp();
    let now = chrono::Utc::now().timestamp_millis();
    // Should be within 1 second
    assert!((now - ts).abs() < 1000);
}

#[test]
fn roundtrip_preserves_payload_fields() {
    let original = Message::kanpe_message(
        "Cue with \"quotes\", a \\ backslash,\na newline and 日本語".to_string(),
        vec![1, 7, 42],
        Priority::Urgent,
    );
    let json = serialize_message(&original);
    let back = deserialize_message(&json).unwrap();
    match (original, back) {
        (
            Message::KanpeMessage { id: id1, timestamp: t1, payload: p1 },
            Message::KanpeMessage { id: id2, timestamp: t2, payload: p2 },
        ) => {
            assert_eq!(id1, id2);
            assert_eq!(t1, t2);
            assert_eq!(p1.content, p2.content);
            assert_eq!(p1.target_monitor_ids, p2.target_monitor_ids);
            assert!(p1.priority == p2.priority);
        }
        _ => panic!("variant changed across the round trip"),
    }
}

#[test]
fn roundtrip_monitor_messages() {
    let monitor = kanpe::types::VirtualMonitor {
        id: 3,
        name: "Stage Left".to_string(),
        description: None,
        color: Some("#3b82f6".to_string()),
    };
    let original = Message::monitor_added(monitor);
    let json = serialize_message(&original);
    assert!(json.contains("\"type\":\"monitor_added\""));
    assert!(json.contains("\"id\":3"));
    assert!(json.contains("\"name\":\"Stage Left\""));
    assert!(json.contains("\"description\":null"));
    assert!(json.contains("\"color\":\"#3b82f6\""));
    let back = deserialize_message(&json).unwrap();
    match back {
        Message::MonitorAdded { payload, .. } => {
            assert_eq!(payload.monitor.id, 3);
            assert_eq!(payload.monitor.name, "Stage Left");
            assert_eq!(payload.monitor.description, None);
            assert_eq!(payload.monitor.color, Some("#3b82f6".to_string()));
        }
        _ => panic!("wrong variant"),
    }
}

#[test]
fn roundtrip_monitor_list_sync() {
    let monitors = vec![
        kanpe::types::VirtualMonitor {
            id: 1,
            name: "A".to_string(),
            description: Some("first".to_string()),
            color: None,
        },
        kanpe::types::VirtualMonitor {
            id: 2,
            name: "B".to_string(),
            description: None,
            color: None,
        },
    ];
    let original = Message::monitor_list_sync(monitors);
    let json = serialize_message(&original);
    let back = deserialize_message(&json).unwrap();
    match back {
        Message::MonitorListSync { payload, .. } => {
            assert_eq!(payload.monitors.len(), 2);
            assert_eq!(payload.monitors[0].id, 1);
            assert_eq!(payload.monitors[0].description, Some("first".to_string()));
            assert_eq!(payload.monitors[1].name, "B");
        }
        _ => panic!("wrong variant"),
    }
}

#[test]
fn malformed_frames_are_rejected() {
    // unknown tag
    assert!(deserialize_message("{\"type\":\"mystery\",\"id\":\"x\",\"timestamp\":1}").is_err());
    // missing fields
    assert!(deserialize_message("{\"type\":\"ping\",\"id\":\"x\"}").is_err());
    // not JSON at all
    assert!(deserialize_message("hello").is_err());
    // trailing garbage
    let good = serialize_message(&Message::ping());
    let mut bad = good.clone();
    bad.push('!');
    assert!(deserialize_message(&bad).is_err());
    // the untouched frame still parses
    assert!(deserialize_message(&good).is_ok());
}

#[test]
fn negative_timestamp_roundtrip() {
    let frame = "{\"type\":\"ping\",\"id\":\"a\",\"timestamp\":-12}";
    let back = deserialize_message(frame).unwrap();
    assert_eq!(back.timestamp(), -12);
    assert_eq!(serialize_message(&back), frame);
}
