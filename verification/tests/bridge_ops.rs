//! Macro-pad bridge tests: request decoding, response encoding, and the
//! bridge operations against a client session.

use kanpe::bridge::{
    bridge_get_state, bridge_handle_request, parse_streamdeck_request, request_event,
    serialize_streamdeck_response, StreamDeckEvent, StreamDeckRequest, StreamDeckResponse,
};
use kanpe::client_session::ClientSession;
use kanpe::message::Message;
use kanpe::types::Priority;
use kanpe::wire::{deserialize_message, serialize_message};

#[test]
fn bridge_requests_parse() {
    let req = parse_streamdeck_request(
        "{\"type\":\"send_feedback\",\"content\":\"hi\",\"feedback_type\":\"Ack\"}",
    )
    .unwrap();
    match req {
        StreamDeckRequest::SendFeedback { content, feedback_type } => {
            assert_eq!(content, "hi");
            assert_eq!(feedback_type, "Ack");
        }
        _ => panic!("wrong request"),
    }

    let req =
        parse_streamdeck_request("{\"type\":\"react_to_latest\",\"feedback_type\":\"Issue\"}")
            .unwrap();
    assert!(matches!(req, StreamDeckRequest::ReactToLatest { .. }));

    let req = parse_streamdeck_request("{\"type\":\"get_state\"}").unwrap();
    assert!(matches!(req, StreamDeckRequest::GetState));

    assert!(parse_streamdeck_request("{\"type\":\"reboot\"}").is_none());
    assert!(parse_streamdeck_request("").is_none());
}

#[test]
fn request_becomes_event() {
    let ev = request_event(StreamDeckRequest::ReactToLatest {
        feedback_type: "Info".to_string(),
    });
    assert!(matches!(ev, StreamDeckEvent::ReactToLatest { feedback_type } if feedback_type == "Info"));
}

#[test]
fn responses_serialize() {
    let ok = serialize_streamdeck_response(&StreamDeckResponse::success());
    assert_eq!(ok, "{\"type\":\"result\",\"success\":true}");

    let err = serialize_streamdeck_response(&StreamDeckResponse::error("went wrong".to_string()));
    assert_eq!(err, "{\"type\":\"result\",\"success\":false,\"error\":\"went wrong\"}");

    let state = StreamDeckResponse::StateUpdate {
        connected: false,
        latest_message: None,
        monitors: vec![],
    };
    let s = serialize_streamdeck_response(&state);
    assert!(s.contains("\"type\":\"state_update\""));
    assert!(s.contains("\"connected\":false"));
    assert!(s.contains("\"monitors\":[]"));
    assert!(!s.contains("latest_message"));
}

#[test]
fn react_without_a_cue_fails_and_sends_nothing() {
    // a freshly connected session has no latest message yet
    let mut client = ClientSession::new();
    client.begin_connect("Actor1".to_string(), vec![1]);
    assert!(client.get_latest_message().is_none());

    let (response, outbound) = bridge_handle_request(
        &client,
        StreamDeckRequest::ReactToLatest { feedback_type: "Ack".to_string() },
    );
    assert!(outbound.is_none());
    match response {
        StreamDeckResponse::Result { success, error } => {
            assert!(!success);
            assert_eq!(error.unwrap(), "No messages received yet");
        }
        _ => panic!("expected a result response"),
    }
}

#[test]
fn react_to_latest_references_the_cached_cue() {
    let mut client = ClientSession::new();
    client.begin_connect("Actor1".to_string(), vec![1]);
    let cue = Message::kanpe_message("Cue A".to_string(), vec![1], Priority::Normal);
    let cue_id = cue.id().to_string();
    client.on_text("s", &serialize_message(&cue));

    let (response, outbound) = bridge_handle_request(
        &client,
        StreamDeckRequest::ReactToLatest { feedback_type: "Question".to_string() },
    );
    assert!(matches!(response, StreamDeckResponse::Result { success: true, .. }));
    let frame = outbound.unwrap();
    match deserialize_message(&frame).unwrap() {
        Message::FeedbackMessage { payload, .. } => {
            assert_eq!(payload.reply_to_message_id, cue_id);
            assert_eq!(payload.client_name, "Actor1");
            assert_eq!(payload.content, "質問があります");
            assert!(payload.feedback_type == kanpe::types::FeedbackType::Question);
        }
        _ => panic!("outbound frame is not feedback"),
    }
}

#[test]
fn send_feedback_validates_type_and_connection() {
    let mut client = ClientSession::new();

    // invalid feedback type name
    let (response, outbound) = bridge_handle_request(
        &client,
        StreamDeckRequest::SendFeedback {
            content: "hello".to_string(),
            feedback_type: "Loud".to_string(),
        },
    );
    assert!(outbound.is_none());
    assert!(matches!(response, StreamDeckResponse::Result { success: false, .. }));

    // valid type but no connection
    let (response, outbound) = bridge_handle_request(
        &client,
        StreamDeckRequest::SendFeedback {
            content: "hello".to_string(),
            feedback_type: "Ack".to_string(),
        },
    );
    assert!(outbound.is_none());
    match response {
        StreamDeckResponse::Result { success, error } => {
            assert!(!success);
            assert_eq!(error.unwrap(), "Not connected to a server");
        }
        _ => panic!("expected a result response"),
    }

    // connected: the frame carries the content and the stored name
    client.begin_connect("Actor1".to_string(), vec![]);
    let (response, outbound) = bridge_handle_request(
        &client,
        StreamDeckRequest::SendFeedback {
            content: "hello".to_string(),
            feedback_type: "Ack".to_string(),
        },
    );
    assert!(matches!(response, StreamDeckResponse::Result { success: true, .. }));
    match deserialize_message(&outbound.unwrap()).unwrap() {
        Message::FeedbackMessage { payload, .. } => {
            assert_eq!(payload.content, "hello");
            assert_eq!(payload.client_name, "Actor1");
            assert_eq!(payload.reply_to_message_id, "");
        }
        _ => panic!("outbound frame is not feedback"),
    }
}

#[test]
fn get_state_reflects_the_session() {
    let mut client = ClientSession::new();
    let state = bridge_get_state(&client);
    match state {
        StreamDeckResponse::StateUpdate { connected, latest_message, monitors } => {
            assert!(!connected);
            assert!(latest_message.is_none());
            assert!(monitors.is_empty());
        }
        _ => panic!("expected a state update"),
    }

    client.begin_connect("Actor1".to_string(), vec![1]);
    let cue = Message::kanpe_message("Cue B".to_string(), vec![2, 3], Priority::Urgent);
    client.on_text("s", &serialize_message(&cue));
    match bridge_get_state(&client) {
        StreamDeckResponse::StateUpdate { connected, latest_message, .. } => {
            assert!(connected);
            let latest = latest_message.unwrap();
            assert_eq!(latest.content, "Cue B");
            assert_eq!(latest.priority, "urgent");
            assert_eq!(latest.target_monitor_ids, vec![2, 3]);
        }
        _ => panic!("expected a state update"),
    }
}
