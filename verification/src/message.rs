//! The protocol's message taxonomy.
//!
//! Every message carries an identifier (fresh at construction, never mutated)
//! and a millisecond Unix timestamp; most carry a typed payload.  The wire
//! form of these values is defined in [`crate::wire`].

use vstd::prelude::*;
use crate::types::{FeedbackType, MonitorView, Priority, VirtualMonitor};
use crate::types::{new_id, timestamp};

verus! {

/// Payload of a `ClientHello`: the performer introduces itself.
#[derive(Debug)]
pub struct ClientHelloPayload {
    pub client_name: String,
    pub display_monitor_ids: Vec<u64>,
}

/// Payload of a `ServerWelcome`: the server confirms the handshake.
#[derive(Debug)]
pub struct ServerWelcomePayload {
    pub server_name: String,
    pub assigned_client_id: String,
}

/// Payload of a `KanpeMessage`: one cue card.
#[derive(Debug)]
pub struct KanpeMessagePayload {
    pub content: String,
    pub target_monitor_ids: Vec<u64>,
    pub priority: Priority,
}

/// Payload of a `FeedbackMessage`: a performer's reply to a cue.
#[derive(Debug)]
pub struct FeedbackMessagePayload {
    pub content: String,
    pub client_name: String,
    pub reply_to_message_id: String,
    pub feedback_type: FeedbackType,
}

/// Payload of a `MonitorListSync`: the full monitor snapshot.
#[derive(Debug)]
pub struct MonitorListSyncPayload {
    pub monitors: Vec<VirtualMonitor>,
}

/// Payload of a `MonitorAdded`.
#[derive(Debug)]
pub struct MonitorAddedPayload {
    pub monitor: VirtualMonitor,
}

/// Payload of a `MonitorRemoved`.
#[derive(Debug)]
pub struct MonitorRemovedPayload {
    pub monitor_id: u64,
}

/// Payload of a `MonitorUpdated`.
#[derive(Debug)]
pub struct MonitorUpdatedPayload {
    pub monitor: VirtualMonitor,
}

/// Payload of a `FlashCommand`.
#[derive(Debug)]
pub struct FlashCommandPayload {
    pub target_monitor_ids: Vec<u64>,
}

/// Payload of a `ClearCommand`.
#[derive(Debug)]
pub struct ClearCommandPayload {
    pub target_monitor_ids: Vec<u64>,
}

/// One protocol message.  Dispatch on this type is exhaustive at every site.
#[derive(Debug)]
pub enum Message {
    ClientHello { id: String, timestamp: i64, payload: ClientHelloPayload },
    ServerWelcome { id: String, timestamp: i64, payload: ServerWelcomePayload },
    KanpeMessage { id: String, timestamp: i64, payload: KanpeMessagePayload },
    FeedbackMessage { id: String, timestamp: i64, payload: FeedbackMessagePayload },
    Ping { id: String, timestamp: i64 },
    Pong { id: String, timestamp: i64 },
    MonitorListSync { id: String, timestamp: i64, payload: MonitorListSyncPayload },
    MonitorAdded { id: String, timestamp: i64, payload: MonitorAddedPayload },
    MonitorRemoved { id: String, timestamp: i64, payload: MonitorRemovedPayload },
    MonitorUpdated { id: String, timestamp: i64, payload: MonitorUpdatedPayload },
    FlashCommand { id: String, timestamp: i64, payload: FlashCommandPayload },
    ClearCommand { id: String, timestamp: i64, payload: ClearCommandPayload },
}

// ---------------------------------------------------------------------------
// Mathematical views
// ---------------------------------------------------------------------------

pub struct ClientHelloView {
    pub client_name: Seq<char>,
    pub display_monitor_ids: Seq<u64>,
}

pub struct ServerWelcomeView {
    pub server_name: Seq<char>,
    pub assigned_client_id: Seq<char>,
}

pub struct KanpeMessageView {
    pub content: Seq<char>,
    pub target_monitor_ids: Seq<u64>,
    pub priority: Priority,
}

pub struct FeedbackMessageView {
    pub content: Seq<char>,
    pub client_name: Seq<char>,
    pub reply_to_message_id: Seq<char>,
    pub feedback_type: FeedbackType,
}

/// Mathematical value of a [`Message`].
pub enum MessageView {
    ClientHello { id: Seq<char>, timestamp: i64, payload: ClientHelloView },
    ServerWelcome { id: Seq<char>, timestamp: i64, payload: ServerWelcomeView },
    KanpeMessage { id: Seq<char>, timestamp: i64, payload: KanpeMessageView },
    FeedbackMessage { id: Seq<char>, timestamp: i64, payload: FeedbackMessageView },
    Ping { id: Seq<char>, timestamp: i64 },
    Pong { id: Seq<char>, timestamp: i64 },
    MonitorListSync { id: Seq<char>, timestamp: i64, monitors: Seq<MonitorView> },
    MonitorAdded { id: Seq<char>, timestamp: i64, monitor: MonitorView },
    MonitorRemoved { id: Seq<char>, timestamp: i64, monitor_id: u64 },
    MonitorUpdated { id: Seq<char>, timestamp: i64, monitor: MonitorView },
    FlashCommand { id: Seq<char>, timestamp: i64, target_monitor_ids: Seq<u64> },
    ClearCommand { id: Seq<char>, timestamp: i64, target_monitor_ids: Seq<u64> },
}

pub open spec fn monitors_view(v: Seq<VirtualMonitor>) -> Seq<MonitorView> {
    Seq::new(v.len(), |i: int| v[i]@)
}

impl View for ClientHelloPayload {
    type V = ClientHelloView;

    open spec fn view(&self) -> ClientHelloView {
        ClientHelloView {
            client_name: self.client_name@,
            display_monitor_ids: self.display_monitor_ids@,
        }
    }
}

impl View for ServerWelcomePayload {
    type V = ServerWelcomeView;

    open spec fn view(&self) -> ServerWelcomeView {
        ServerWelcomeView {
            server_name: self.server_name@,
            assigned_client_id: self.assigned_client_id@,
        }
    }
}

impl View for KanpeMessagePayload {
    type V = KanpeMessageView;

    open spec fn view(&self) -> KanpeMessageView {
        KanpeMessageView {
            content: self.content@,
            target_monitor_ids: self.target_monitor_ids@,
            priority: self.priority,
        }
    }
}

impl View for FeedbackMessagePayload {
    type V = FeedbackMessageView;

    open spec fn view(&self) -> FeedbackMessageView {
        FeedbackMessageView {
            content: self.content@,
            client_name: self.client_name@,
            reply_to_message_id: self.reply_to_message_id@,
            feedback_type: self.feedback_type,
        }
    }
}

impl View for Message {
    type V = MessageView;

    open spec fn view(&self) -> MessageView {
        match self {
            Message::ClientHello { id, timestamp, payload } => MessageView::ClientHello {
                id: id@,
                timestamp: *timestamp,
                payload: payload@,
            },
            Message::ServerWelcome { id, timestamp, payload } => MessageView::ServerWelcome {
                id: id@,
                timestamp: *timestamp,
                payload: payload@,
            },
            Message::KanpeMessage { id, timestamp, payload } => MessageView::KanpeMessage {
                id: id@,
                timestamp: *timestamp,
                payload: payload@,
            },
            Message::FeedbackMessage { id, timestamp, payload } => MessageView::FeedbackMessage {
                id: id@,
                timestamp: *timestamp,
                payload: payload@,
            },
            Message::Ping { id, timestamp } => MessageView::Ping {
                id: id@,
                timestamp: *timestamp,
            },
            Message::Pong { id, timestamp } => MessageView::Pong {
                id: id@,
                timestamp: *timestamp,
            },
            Message::MonitorListSync { id, timestamp, payload } => MessageView::MonitorListSync {
                id: id@,
                timestamp: *timestamp,
                monitors: monitors_view(payload.monitors@),
            },
            Message::MonitorAdded { id, timestamp, payload } => MessageView::MonitorAdded {
                id: id@,
                timestamp: *timestamp,
                monitor: payload.monitor@,
            },
            Message::MonitorRemoved { id, timestamp, payload } => MessageView::MonitorRemoved {
                id: id@,
                timestamp: *timestamp,
                monitor_id: payload.monitor_id,
            },
            Message::MonitorUpdated { id, timestamp, payload } => MessageView::MonitorUpdated {
                id: id@,
                timestamp: *timestamp,
                monitor: payload.monitor@,
            },
            Message::FlashCommand { id, timestamp, payload } => MessageView::FlashCommand {
                id: id@,
                timestamp: *timestamp,
                target_monitor_ids: payload.target_monitor_ids@,
            },
            Message::ClearCommand { id, timestamp, payload } => MessageView::ClearCommand {
                id: id@,
                timestamp: *timestamp,
                target_monitor_ids: payload.target_monitor_ids@,
            },
        }
    }
}

/// The identifier of a message value.
pub open spec fn view_id(m: MessageView) -> Seq<char> {
    match m {
        MessageView::ClientHello { id, .. } => id,
        MessageView::ServerWelcome { id, .. } => id,
        MessageView::KanpeMessage { id, .. } => id,
        MessageView::FeedbackMessage { id, .. } => id,
        MessageView::Ping { id, .. } => id,
        MessageView::Pong { id, .. } => id,
        MessageView::MonitorListSync { id, .. } => id,
        MessageView::MonitorAdded { id, .. } => id,
        MessageView::MonitorRemoved { id, .. } => id,
        MessageView::MonitorUpdated { id, .. } => id,
        MessageView::FlashCommand { id, .. } => id,
        MessageView::ClearCommand { id, .. } => id,
    }
}

/// The timestamp of a message value.
pub open spec fn view_timestamp(m: MessageView) -> i64 {
    match m {
        MessageView::ClientHello { timestamp, .. } => timestamp,
        MessageView::ServerWelcome { timestamp, .. } => timestamp,
        MessageView::KanpeMessage { timestamp, .. } => timestamp,
        MessageView::FeedbackMessage { timestamp, .. } => timestamp,
        MessageView::Ping { timestamp, .. } => timestamp,
        MessageView::Pong { timestamp, .. } => timestamp,
        MessageView::MonitorListSync { timestamp, .. } => timestamp,
        MessageView::MonitorAdded { timestamp, .. } => timestamp,
        MessageView::MonitorRemoved { timestamp, .. } => timestamp,
        MessageView::MonitorUpdated { timestamp, .. } => timestamp,
        MessageView::FlashCommand { timestamp, .. } => timestamp,
        MessageView::ClearCommand { timestamp, .. } => timestamp,
    }
}

// ---------------------------------------------------------------------------
// Constructors
// ---------------------------------------------------------------------------

impl Message {
    /// A `ClientHello` with a fresh identifier and the current timestamp.
    pub fn client_hello(client_name: String, display_monitor_ids: Vec<u64>) -> (m: Message)
        ensures
            m@ matches MessageView::ClientHello { payload, .. } && payload.client_name
                == client_name@ && payload.display_monitor_ids == display_monitor_ids@,
            view_id(m@).len() == 36,
    {
        Message::ClientHello {
            id: new_id(),
            timestamp: timestamp(),
            payload: ClientHelloPayload { client_name, display_monitor_ids },
        }
    }

    /// A `ServerWelcome` with a fresh identifier and the current timestamp.
    pub fn server_welcome(server_name: String, assigned_client_id: String) -> (m: Message)
        ensures
            m@ matches MessageView::ServerWelcome { payload, .. } && payload.server_name
                == server_name@ && payload.assigned_client_id == assigned_client_id@,
            view_id(m@).len() == 36,
    {
        Message::ServerWelcome {
            id: new_id(),
            timestamp: timestamp(),
            payload: ServerWelcomePayload { server_name, assigned_client_id },
        }
    }

    /// A `KanpeMessage` with a fresh identifier and the current timestamp.
    pub fn kanpe_message(content: String, target_monitor_ids: Vec<u64>, priority: Priority) -> (m:
        Message)
        ensures
            m@ matches MessageView::KanpeMessage { payload, .. } && payload.content == content@
                && payload.target_monitor_ids == target_monitor_ids@ && payload.priority
                == priority,
            view_id(m@).len() == 36,
    {
        Message::KanpeMessage {
            id: new_id(),
            timestamp: timestamp(),
            payload: KanpeMessagePayload { content, target_monitor_ids, priority },
        }
    }

    /// A `FeedbackMessage` with a fresh identifier and the current timestamp.
    pub fn feedback_message(
        content: String,
        client_name: String,
        reply_to_message_id: String,
        feedback_type: FeedbackType,
    ) -> (m: Message)
        ensures
            m@ matches MessageView::FeedbackMessage { payload, .. } && payload.content == content@
                && payload.client_name == client_name@ && payload.reply_to_message_id
                == reply_to_message_id@ && payload.feedback_type == feedback_type,
            view_id(m@).len() == 36,
    {
        Message::FeedbackMessage {
            id: new_id(),
            timestamp: timestamp(),
            payload: FeedbackMessagePayload {
                content,
                client_name,
                reply_to_message_id,
                feedback_type,
            },
        }
    }

    /// A `Ping` with a fresh identifier and the current timestamp.
    pub fn ping() -> (m: Message)
        ensures
            m@ matches MessageView::Ping { .. },
            view_id(m@).len() == 36,
    {
        Message::Ping { id: new_id(), timestamp: timestamp() }
    }

    /// A `Pong` with a fresh identifier and the current timestamp.
    pub fn pong() -> (m: Message)
        ensures
            m@ matches MessageView::Pong { .. },
            view_id(m@).len() == 36,
    {
        Message::Pong { id: new_id(), timestamp: timestamp() }
    }

    /// A `MonitorListSync` with a fresh identifier and the current timestamp.
    pub fn monitor_list_sync(monitors: Vec<VirtualMonitor>) -> (m: Message)
        ensures
            m@ matches MessageView::MonitorListSync { monitors: ms, .. } && ms == monitors_view(
                monitors@,
            ),
            view_id(m@).len() == 36,
    {
        Message::MonitorListSync {
            id: new_id(),
            timestamp: timestamp(),
            payload: MonitorListSyncPayload { monitors },
        }
    }

    /// A `MonitorAdded` with a fresh identifier and the current timestamp.
    pub fn monitor_added(monitor: VirtualMonitor) -> (m: Message)
        ensures
            m@ matches MessageView::MonitorAdded { monitor: mv, .. } && mv == monitor@,
            view_id(m@).len() == 36,
    {
        Message::MonitorAdded {
            id: new_id(),
            timestamp: timestamp(),
            payload: MonitorAddedPayload { monitor },
        }
    }

    /// A `MonitorRemoved` with a fresh identifier and the current timestamp.
    pub fn monitor_removed(monitor_id: u64) -> (m: Message)
        ensures
            m@ matches MessageView::MonitorRemoved { monitor_id: mid, .. } && mid == monitor_id,
            view_id(m@).len() == 36,
    {
        Message::MonitorRemoved {
            id: new_id(),
            timestamp: timestamp(),
            payload: MonitorRemovedPayload { monitor_id },
        }
    }

    /// A `MonitorUpdated` with a fresh identifier and the current timestamp.
    pub fn monitor_updated(monitor: VirtualMonitor) -> (m: Message)
        ensures
            m@ matches MessageView::MonitorUpdated { monitor: mv, .. } && mv == monitor@,
            view_id(m@).len() == 36,
    {
        Message::MonitorUpdated {
            id: new_id(),
            timestamp: timestamp(),
            payload: MonitorUpdatedPayload { monitor },
        }
    }

    /// A `FlashCommand` with a fresh identifier and the current timestamp.
    pub fn flash_command(target_monitor_ids: Vec<u64>) -> (m: Message)
        ensures
            m@ matches MessageView::FlashCommand { target_monitor_ids: t, .. } && t
                == target_monitor_ids@,
            view_id(m@).len() == 36,
    {
        Message::FlashCommand {
            id: new_id(),
            timestamp: timestamp(),
            payload: FlashCommandPayload { target_monitor_ids },
        }
    }

    /// A `ClearCommand` with a fresh identifier and the current timestamp.
    pub fn clear_command(target_monitor_ids: Vec<u64>) -> (m: Message)
        ensures
            m@ matches MessageView::ClearCommand { target_monitor_ids: t, .. } && t
                == target_monitor_ids@,
            view_id(m@).len() == 36,
    {
        Message::ClearCommand {
            id: new_id(),
            timestamp: timestamp(),
            payload: ClearCommandPayload { target_monitor_ids },
        }
    }

    /// The message identifier.
    pub fn id(&self) -> (r: &str)
        ensures
            r@ == view_id(self@),
    {
        match self {
            Message::ClientHello { id, .. } => id.as_str(),
            Message::ServerWelcome { id, .. } => id.as_str(),
            Message::KanpeMessage { id, .. } => id.as_str(),
            Message::FeedbackMessage { id, .. } => id.as_str(),
            Message::Ping { id, .. } => id.as_str(),
            Message::Pong { id, .. } => id.as_str(),
            Message::MonitorListSync { id, .. } => id.as_str(),
            Message::MonitorAdded { id, .. } => id.as_str(),
            Message::MonitorRemoved { id, .. } => id.as_str(),
            Message::MonitorUpdated { id, .. } => id.as_str(),
            Message::FlashCommand { id, .. } => id.as_str(),
            Message::ClearCommand { id, .. } => id.as_str(),
        }
    }

    /// The message timestamp.
    pub fn timestamp(&self) -> (r: i64)
        ensures
            r == view_timestamp(self@),
    {
        match self {
            Message::ClientHello { timestamp, .. } => *timestamp,
            Message::ServerWelcome { timestamp, .. } => *timestamp,
            Message::KanpeMessage { timestamp, .. } => *timestamp,
            Message::FeedbackMessage { timestamp, .. } => *timestamp,
            Message::Ping { timestamp, .. } => *timestamp,
            Message::Pong { timestamp, .. } => *timestamp,
            Message::MonitorListSync { timestamp, .. } => *timestamp,
            Message::MonitorAdded { timestamp, .. } => *timestamp,
            Message::MonitorRemoved { timestamp, .. } => *timestamp,
            Message::MonitorUpdated { timestamp, .. } => *timestamp,
            Message::FlashCommand { timestamp, .. } => *timestamp,
            Message::ClearCommand { timestamp, .. } => *timestamp,
        }
    }
}

/// Copy a vector of monitor identifiers.
pub fn clone_ids(v: &Vec<u64>) -> (r: Vec<u64>)
    ensures
        r@ == v@,
{
    let mut r: Vec<u64> = Vec::new();
    let n = v.len();
    for i in 0..n
        invariant
            n == v.len(),
            r@ == v@.take(i as int),
    {
        r.push(v[i]);
        proof {
            assert(v@.take(i as int).push(v@[i as int]) =~= v@.take(i + 1 as int));
        }
    }
    proof {
        assert(v@.take(n as int) =~= v@);
    }
    r
}

/// Copy a vector of monitors, preserving order and contents.
pub fn clone_monitors(v: &Vec<VirtualMonitor>) -> (r: Vec<VirtualMonitor>)
    ensures
        monitors_view(r@) == monitors_view(v@),
        r@.len() == v@.len(),
{
    let mut r: Vec<VirtualMonitor> = Vec::new();
    let n = v.len();
    for i in 0..n
        invariant
            n == v.len(),
            r@.len() == i,
            forall|k: int| 0 <= k < i ==> (#[trigger] r@[k])@ == v@[k]@,
    {
        r.push(v[i].clone());
    }
    proof {
        assert(monitors_view(r@) =~= monitors_view(v@));
    }
    r
}

impl Clone for KanpeMessagePayload {
    fn clone(&self) -> (r: Self)
        ensures
            r@ == self@,
    {
        KanpeMessagePayload {
            content: self.content.clone(),
            target_monitor_ids: clone_ids(&self.target_monitor_ids),
            priority: self.priority,
        }
    }
}

} // verus!
