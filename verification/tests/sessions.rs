//! Server and client session state machine tests.

use kanpe::client_session::{ClientAction, ClientEvent, ClientSession};
use kanpe::message::Message;
use kanpe::server::{KanpeServer, ServerAction, ServerEvent, ServerSession};
use kanpe::types::Priority;
use kanpe::wire::{deserialize_message, serialize_message};

fn hello_frame(name: &str, monitors: Vec<u64>) -> String {
    serialize_message(&Message::client_hello(name.to_string(), monitors))
}

#[test]
fn handshake_registers_exactly_one_client() {
    let mut core = KanpeServer::new();
    let mut session = ServerSession::new(7);
    assert_eq!(core.get_connected_clients().len(), 0);

    let acts = session.on_text(&mut core, &hello_frame("Actor1", vec![1]));
    assert_eq!(acts.len(), 3);
    assert_eq!(core.get_connected_clients().len(), 1);
    assert_eq!(core.get_connected_clients()[0].client_name, "Actor1");

    // disconnect removes exactly one, and a second closure removes nothing
    let acts = session.on_close(&mut core);
    assert_eq!(acts.len(), 1);
    assert_eq!(core.get_connected_clients().len(), 0);
    let acts = session.on_close(&mut core);
    assert_eq!(acts.len(), 0);
    assert_eq!(core.get_connected_clients().len(), 0);
}

#[test]
fn no_hello_means_no_registration() {
    let mut core = KanpeServer::new();
    let mut session = ServerSession::new(1);

    // other frames before the handshake are ignored
    let ping = serialize_message(&Message::ping());
    assert_eq!(session.on_text(&mut core, &ping).len(), 0);
    let feedback = serialize_message(&Message::feedback_message(
        "hi".to_string(),
        "x".to_string(),
        String::new(),
        kanpe::types::FeedbackType::Ack,
    ));
    assert_eq!(session.on_text(&mut core, &feedback).len(), 0);
    assert_eq!(session.on_text(&mut core, "not even json").len(), 0);
    assert_eq!(core.get_connected_clients().len(), 0);

    // closing an unregistered session touches nothing
    assert_eq!(session.on_close(&mut core).len(), 0);
    assert_eq!(core.get_connected_clients().len(), 0);
}

#[test]
fn handshake_replies_welcome_then_monitor_sync() {
    let mut core = KanpeServer::new();
    core.monitors.initialize_default_monitors();
    let mut session = ServerSession::new(3);

    let acts = session.on_text(&mut core, &hello_frame("Actor1", vec![1]));
    assert_eq!(acts.len(), 3);
    let assigned = match &acts[0] {
        ServerAction::Send(frame) => match deserialize_message(frame).unwrap() {
            Message::ServerWelcome { payload, .. } => {
                assert_eq!(payload.server_name, "Kanpe Server");
                payload.assigned_client_id
            }
            _ => panic!("first reply is not ServerWelcome"),
        },
        _ => panic!("first action is not a send"),
    };
    match &acts[1] {
        ServerAction::Send(frame) => match deserialize_message(frame).unwrap() {
            Message::MonitorListSync { payload, .. } => {
                assert_eq!(payload.monitors.len(), 4);
            }
            _ => panic!("second reply is not MonitorListSync"),
        },
        _ => panic!("second action is not a send"),
    }
    match &acts[2] {
        ServerAction::Emit(ServerEvent::ClientConnected { client_id, name, monitor_ids }) => {
            assert_eq!(client_id, &assigned);
            assert_eq!(name, "Actor1");
            assert_eq!(monitor_ids, &vec![1]);
        }
        _ => panic!("third action is not the ClientConnected event"),
    }
}

#[test]
fn registered_session_answers_ping_and_forwards_feedback() {
    let mut core = KanpeServer::new();
    let mut session = ServerSession::new(3);
    session.on_text(&mut core, &hello_frame("A", vec![]));

    let ping = serialize_message(&Message::ping());
    let acts = session.on_text(&mut core, &ping);
    assert_eq!(acts.len(), 1);
    match &acts[0] {
        ServerAction::Send(frame) => {
            assert!(matches!(deserialize_message(frame).unwrap(), Message::Pong { .. }));
        }
        _ => panic!("ping was not answered"),
    }

    let feedback = serialize_message(&Message::feedback_message(
        "ok".to_string(),
        "A".to_string(),
        String::new(),
        kanpe::types::FeedbackType::Info,
    ));
    let acts = session.on_text(&mut core, &feedback);
    assert_eq!(acts.len(), 1);
    match &acts[0] {
        ServerAction::Emit(ServerEvent::FeedbackReceived { message }) => match message {
            Message::FeedbackMessage { payload, .. } => assert_eq!(payload.content, "ok"),
            _ => panic!("event carries the wrong message"),
        },
        _ => panic!("feedback did not become an event"),
    }

    // malformed frames are skipped without closing
    assert_eq!(session.on_text(&mut core, "{broken").len(), 0);
    assert_eq!(core.get_connected_clients().len(), 1);
}

#[test]
fn client_session_caches_latest_cue() {
    let mut client = ClientSession::new();
    let hello = client.begin_connect("Actor1".to_string(), vec![1]);
    assert!(hello.contains("\"type\":\"client_hello\""));
    assert!(client.get_latest_message().is_none());

    let cue = serialize_message(&Message::kanpe_message(
        "Cue A".to_string(),
        vec![1],
        Priority::High,
    ));
    let acts = client.on_text("server", &cue);
    assert_eq!(acts.len(), 1);
    let (_id, payload) = client.get_latest_message().unwrap();
    assert_eq!(payload.content, "Cue A");
    assert_eq!(payload.target_monitor_ids, vec![1]);
    assert!(payload.priority == Priority::High);
}

#[test]
fn client_session_tracks_connection_state() {
    let mut client = ClientSession::new();
    assert!(!client.is_connected());
    assert!(client.get_client_name().is_none());

    client.begin_connect("Actor1".to_string(), vec![]);
    assert!(client.is_connected());
    assert_eq!(client.get_client_name().unwrap(), "Actor1");

    let welcome = serialize_message(&Message::server_welcome(
        "Srv".to_string(),
        "cid-1".to_string(),
    ));
    let acts = client.on_text("addr-1", &welcome);
    assert_eq!(acts.len(), 2);
    assert!(matches!(
        &acts[0],
        ClientAction::Emit(ClientEvent::ServerWelcomeReceived { server_name }) if server_name == "Srv"
    ));
    assert!(matches!(
        &acts[1],
        ClientAction::Emit(ClientEvent::ConnectionEstablished { server_address }) if server_address == "addr-1"
    ));

    let acts = client.on_close("gone".to_string());
    assert_eq!(acts.len(), 1);
    assert!(!client.is_connected());
    // the cache survives a disconnect
    assert_eq!(client.get_client_name().unwrap(), "Actor1");
}

#[test]
fn client_session_keeps_monitor_cache_in_step() {
    let mut client = ClientSession::new();
    let sync = serialize_message(&Message::monitor_list_sync(vec![kanpe::types::VirtualMonitor {
        id: 1,
        name: "A".to_string(),
        description: None,
        color: None,
    }]));
    client.on_text("s", &sync);
    assert_eq!(client.get_monitors().len(), 1);

    let added = serialize_message(&Message::monitor_added(kanpe::types::VirtualMonitor {
        id: 2,
        name: "B".to_string(),
        description: None,
        color: None,
    }));
    client.on_text("s", &added);
    assert_eq!(client.get_monitors().len(), 2);

    let updated = serialize_message(&Message::monitor_updated(kanpe::types::VirtualMonitor {
        id: 2,
        name: "B2".to_string(),
        description: None,
        color: None,
    }));
    client.on_text("s", &updated);
    assert_eq!(client.get_monitors()[1].name, "B2");

    let removed = serialize_message(&Message::monitor_removed(1));
    client.on_text("s", &removed);
    let left = client.get_monitors();
    assert_eq!(left.len(), 1);
    assert_eq!(left[0].id, 2);
}

#[test]
fn client_session_answers_ping() {
    let mut client = ClientSession::new();
    let ping = serialize_message(&Message::ping());
    let acts = client.on_text("s", &ping);
    assert_eq!(acts.len(), 1);
    match &acts[0] {
        ClientAction::Send(frame) => {
            assert!(matches!(deserialize_message(frame).unwrap(), Message::Pong { .. }));
        }
        _ => panic!("ping was not answered"),
    }
}

#[test]
fn send_requires_a_connection() {
    let mut client = ClientSession::new();
    let msg = Message::ping();
    assert!(client.prepare_send(&msg).is_err());
    client.begin_connect("A".to_string(), vec![]);
    let frame = client.prepare_send(&msg).unwrap();
    assert_eq!(frame, serialize_message(&msg));
    client.disconnect();
    assert!(client.prepare_send(&msg).is_err());
}

#[test]
fn monitor_change_announcements_reach_performers() {
    // director adds a monitor; the announcement frame, dispatched to a
    // performer's session, lands in its cache
    let mut core = KanpeServer::new();
    let (monitor, frame, _event) = core.add_monitor("Stage Left".to_string(), None, None);
    assert_eq!(monitor.id, 1);

    let mut performer = ClientSession::new();
    performer.on_text("s", &frame);
    let cached = performer.get_monitors();
    assert_eq!(cached.len(), 1);
    assert_eq!(cached[0].id, 1);
    assert_eq!(cached[0].name, "Stage Left");

    let all = core.get_monitors();
    assert_eq!(all.len(), 1);
    assert_eq!(all[0].id, 1);
    assert_eq!(all[0].name, "Stage Left");
}

#[test]
fn broadcast_serializes_once_for_all_channels() {
    let mut core = KanpeServer::new();
    let mut s1 = ServerSession::new(1);
    let mut s2 = ServerSession::new(2);
    s1.on_text(&mut core, &hello_frame("P1", vec![1]));
    s2.on_text(&mut core, &hello_frame("P2", vec![2]));

    let cue = Message::kanpe_message("Cue A".to_string(), vec![1], Priority::High);
    let (frame, targets) = core.broadcast_message(&cue);
    assert_eq!(targets.len(), 2);
    assert_eq!(targets[0].1, 1);
    assert_eq!(targets[1].1, 2);

    // every performer session that receives the frame caches the same cue
    let mut p1 = ClientSession::new();
    let mut p2 = ClientSession::new();
    p1.on_text("s", &frame);
    p2.on_text("s", &frame);
    for p in [&p1, &p2] {
        let (_id, payload) = p.get_latest_message().unwrap();
        assert_eq!(payload.content, "Cue A");
    }
}
