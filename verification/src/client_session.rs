//! The performer side: per-connection client session state.
//!
//! The session caches the latest cue and the monitor list, and decides, from
//! one inbound frame, how the cache changes and which frames and events go
//! back out.  The transport lives in the surrounding runtime: it opens the
//! connection, writes the frames handed back here, and reports closure.
//! There is no automatic reconnection; a dropped connection must be
//! reconnected explicitly by the caller.

use vstd::prelude::*;
use crate::message::{
    clone_ids, clone_monitors, monitors_view, KanpeMessagePayload, KanpeMessageView, Message,
    MessageView,
};
use crate::json::{emit_lit, parse_lit, str_to_chars};
use crate::monitors::contains_id;
use crate::types::{MonitorView, VirtualMonitor};
use crate::wire::{deserialize_message, lemma_pmsg_complete, pmsg, ser_message, serialize_message};

verus! {

/// What the client hands to the surrounding runtime for presentation.
#[derive(Debug)]
pub enum ClientEvent {
    ConnectionEstablished { server_address: String },
    ConnectionLost { reason: String },
    MessageReceived { message: Message },
    ServerWelcomeReceived { server_name: String },
    MonitorListReceived { monitors: Vec<VirtualMonitor> },
    MonitorAdded { monitor: VirtualMonitor },
    MonitorRemoved { monitor_id: u64 },
    MonitorUpdated { monitor: VirtualMonitor },
    FlashReceived { target_monitor_ids: Vec<u64> },
    ClearReceived { target_monitor_ids: Vec<u64> },
}

/// One instruction to the runtime that drives the session.
#[derive(Debug)]
pub enum ClientAction {
    Send(String),
    Emit(ClientEvent),
}

/// Connection phase of the client session.
#[derive(Debug, Clone, Copy, PartialEq, Eq, Structural)]
pub enum ConnState {
    Disconnected,
    Connecting,
    Connected,
}

/// Failure returned to a caller that tries to send without a connection.
#[derive(Debug, Clone, Copy, PartialEq, Eq, Structural)]
pub enum ClientError {
    NotConnected,
}

impl ClientError {
    /// A caller-facing description of the failure.
    pub fn message(&self) -> (r: String)
        ensures
            r@ == "Not connected"@,
    {
        "Not connected".to_owned()
    }
}

/// Mathematical value of the cached latest cue.
pub open spec fn latest_view(o: Option<(String, KanpeMessagePayload)>) -> Option<
    (Seq<char>, KanpeMessageView),
> {
    match o {
        Some((id, p)) => Some((id@, p@)),
        None => None,
    }
}

/// `i` is the first index in `s` that carries `id`.
pub open spec fn first_id_at(s: Seq<MonitorView>, id: u64, i: int) -> bool {
    &&& 0 <= i < s.len()
    &&& s[i].id == id
    &&& forall|j: int| 0 <= j < i ==> #[trigger] s[j].id != id
}

/// Replace the first monitor with the same identifier, or append.
fn cache_add_monitor(v: &mut Vec<VirtualMonitor>, m: VirtualMonitor)
    ensures
        ({
            let prev = monitors_view(old(v)@);
            let cur = monitors_view(final(v)@);
            if contains_id(prev, m@.id) {
                exists|i: int| first_id_at(prev, m@.id, i) && cur == prev.update(i, m@)
            } else {
                cur == prev.push(m@)
            }
        }),
{
    let ghost prev = monitors_view(v@);
    let mut k: usize = 0;
    let n = v.len();
    while k < n && v[k].id != m.id
        invariant
            0 <= k <= n,
            n == v@.len(),
            prev == monitors_view(v@),
            forall|j: int| 0 <= j < k ==> #[trigger] prev[j].id != m@.id,
        decreases n - k,
    {
        k = k + 1;
    }
    if k < n {
        proof {
            assert(prev[k as int].id == m@.id);
            assert(first_id_at(prev, m@.id, k as int));
        }
        let ghost mv = m@;
        v.set(k, m);
        proof {
            assert(monitors_view(v@) =~= prev.update(k as int, mv));
        }
    } else {
        proof {
            assert(!contains_id(prev, m@.id)) by {
                if contains_id(prev, m@.id) {
                    let i = choose|i: int| 0 <= i < prev.len() && prev[i].id == m@.id;
                    assert(prev[i].id != m@.id);
                }
            }
        }
        let ghost mv = m@;
        v.push(m);
        proof {
            assert(monitors_view(v@) =~= prev.push(mv));
        }
    }
}

/// Remove the first monitor with the given identifier, if any.
fn cache_remove_monitor(v: &mut Vec<VirtualMonitor>, id: u64)
    ensures
        ({
            let prev = monitors_view(old(v)@);
            let cur = monitors_view(final(v)@);
            if contains_id(prev, id) {
                exists|i: int| first_id_at(prev, id, i) && cur == prev.remove(i)
            } else {
                cur == prev
            }
        }),
{
    let ghost prev = monitors_view(v@);
    let mut k: usize = 0;
    let n = v.len();
    while k < n && v[k].id != id
        invariant
            0 <= k <= n,
            n == v@.len(),
            prev == monitors_view(v@),
            forall|j: int| 0 <= j < k ==> #[trigger] prev[j].id != id,
        decreases n - k,
    {
        k = k + 1;
    }
    if k < n {
        proof {
            assert(prev[k as int].id == id);
            assert(first_id_at(prev, id, k as int));
        }
        let _ = v.remove(k);
        proof {
            assert(monitors_view(v@) =~= prev.remove(k as int));
        }
    } else {
        proof {
            assert(!contains_id(prev, id)) by {
                if contains_id(prev, id) {
                    let i = choose|i: int| 0 <= i < prev.len() && prev[i].id == id;
                    assert(prev[i].id != id);
                }
            }
        }
    }
}

/// Replace the first monitor with the same identifier; missing ones are
/// not inserted.
fn cache_update_monitor(v: &mut Vec<VirtualMonitor>, m: VirtualMonitor)
    ensures
        ({
            let prev = monitors_view(old(v)@);
            let cur = monitors_view(final(v)@);
            if contains_id(prev, m@.id) {
                exists|i: int| first_id_at(prev, m@.id, i) && cur == prev.update(i, m@)
            } else {
                cur == prev
            }
        }),
{
    let ghost prev = monitors_view(v@);
    let mut k: usize = 0;
    let n = v.len();
    while k < n && v[k].id != m.id
        invariant
            0 <= k <= n,
            n == v@.len(),
            prev == monitors_view(v@),
            forall|j: int| 0 <= j < k ==> #[trigger] prev[j].id != m@.id,
        decreases n - k,
    {
        k = k + 1;
    }
    if k < n {
        proof {
            assert(prev[k as int].id == m@.id);
            assert(first_id_at(prev, m@.id, k as int));
        }
        let ghost mv = m@;
        v.set(k, m);
        proof {
            assert(monitors_view(v@) =~= prev.update(k as int, mv));
        }
    } else {
        proof {
            assert(!contains_id(prev, m@.id)) by {
                if contains_id(prev, m@.id) {
                    let i = choose|i: int| 0 <= i < prev.len() && prev[i].id == m@.id;
                    assert(prev[i].id != m@.id);
                }
            }
        }
    }
}

/// Client-side session state: connection phase, the stored client name, the
/// latest cue received, and the cached monitor list.
pub struct ClientSession {
    pub state: ConnState,
    pub client_name: String,
    pub latest: Option<(String, KanpeMessagePayload)>,
    pub monitors: Vec<VirtualMonitor>,
}

impl ClientSession {
    /// A fresh, disconnected session with nothing cached.
    pub fn new() -> (r: ClientSession)
        ensures
            r.state is Disconnected,
            r.client_name@.len() == 0,
            r.latest is None,
            r.monitors@.len() == 0,
    {
        ClientSession {
            state: ConnState::Disconnected,
            client_name: String::new(),
            latest: None,
            monitors: Vec::new(),
        }
    }

    /// Start a connection attempt: store the client name, move to
    /// `Connecting`, and produce the `ClientHello` frame the runtime must
    /// send on the freshly opened transport.
    pub fn begin_connect(&mut self, client_name: String, display_monitor_ids: Vec<u64>) -> (hello:
        String)
        ensures
            final(self).state is Connecting,
            final(self).client_name@ == client_name@,
            final(self).latest == old(self).latest,
            final(self).monitors == old(self).monitors,
            pmsg(hello@) matches Some(MessageView::ClientHello { payload, .. })
                && payload.client_name == client_name@ && payload.display_monitor_ids
                == display_monitor_ids@,
    {
        self.state = ConnState::Connecting;
        self.client_name = client_name.clone();
        let hello = Message::client_hello(client_name, display_monitor_ids);
        let frame = serialize_message(&hello);
        proof {
            lemma_pmsg_complete(hello@);
        }
        frame
    }

    /// Dispatch one inbound frame.
    ///
    /// `ServerWelcome` completes the handshake; a cue is cached as the
    /// latest message; monitor messages keep the cached list in step; flash
    /// and clear become events without touching the cache; a ping is
    /// answered with a pong; everything else — including a malformed frame
    /// — is ignored and the connection stays open.
    pub fn on_text(&mut self, server_address: &str, text: &str) -> (acts: Vec<ClientAction>)
        ensures
            final(self).client_name == old(self).client_name,
            match pmsg(text@) {
                Some(MessageView::ServerWelcome { payload, .. }) => {
                    &&& final(self).state is Connected
                    &&& final(self).latest == old(self).latest
                    &&& final(self).monitors == old(self).monitors
                    &&& acts@.len() == 2
                    &&& acts@[0] matches ClientAction::Emit(
                        ClientEvent::ServerWelcomeReceived { server_name },
                    ) && server_name@ == payload.server_name
                    &&& acts@[1] matches ClientAction::Emit(
                        ClientEvent::ConnectionEstablished { server_address: a },
                    ) && a@ == server_address@
                },
                Some(MessageView::KanpeMessage { id, payload, .. }) => {
                    &&& final(self).state == old(self).state
                    &&& final(self).monitors == old(self).monitors
                    &&& latest_view(final(self).latest) == Some((id, payload))
                    &&& acts@.len() == 1
                    &&& acts@[0] matches ClientAction::Emit(ClientEvent::MessageReceived { message })
                        && pmsg(text@) == Some(message@)
                },
                Some(MessageView::MonitorListSync { monitors, .. }) => {
                    &&& final(self).state == old(self).state
                    &&& final(self).latest == old(self).latest
                    &&& monitors_view(final(self).monitors@) == monitors
                    &&& acts@.len() == 1
                    &&& acts@[0] matches ClientAction::Emit(
                        ClientEvent::MonitorListReceived { monitors: ms },
                    ) && monitors_view(ms@) == monitors
                },
                Some(MessageView::MonitorAdded { monitor, .. }) => {
                    &&& final(self).state == old(self).state
                    &&& final(self).latest == old(self).latest
                    &&& ({
                        let prev = monitors_view(old(self).monitors@);
                        let cur = monitors_view(final(self).monitors@);
                        if contains_id(prev, monitor.id) {
                            exists|i: int|
                                first_id_at(prev, monitor.id, i) && cur == prev.update(i, monitor)
                        } else {
                            cur == prev.push(monitor)
                        }
                    })
                    &&& acts@.len() == 1
                    &&& acts@[0] matches ClientAction::Emit(ClientEvent::MonitorAdded { monitor: m })
                        && m@ == monitor
                },
                Some(MessageView::MonitorRemoved { monitor_id, .. }) => {
                    &&& final(self).state == old(self).state
                    &&& final(self).latest == old(self).latest
                    &&& ({
                        let prev = monitors_view(old(self).monitors@);
                        let cur = monitors_view(final(self).monitors@);
                        if contains_id(prev, monitor_id) {
                            exists|i: int| first_id_at(prev, monitor_id, i) && cur == prev.remove(i)
                        } else {
                            cur == prev
                        }
                    })
                    &&& acts@.len() == 1
                    &&& acts@[0] matches ClientAction::Emit(
                        ClientEvent::MonitorRemoved { monitor_id: mid },
                    ) && mid == monitor_id
                },
                Some(MessageView::MonitorUpdated { monitor, .. }) => {
                    &&& final(self).state == old(self).state
                    &&& final(self).latest == old(self).latest
                    &&& ({
                        let prev = monitors_view(old(self).monitors@);
                        let cur = monitors_view(final(self).monitors@);
                        if contains_id(prev, monitor.id) {
                            exists|i: int|
                                first_id_at(prev, monitor.id, i) && cur == prev.update(i, monitor)
                        } else {
                            cur == prev
                        }
                    })
                    &&& acts@.len() == 1
                    &&& acts@[0] matches ClientAction::Emit(
                        ClientEvent::MonitorUpdated { monitor: m },
                    ) && m@ == monitor
                },
                Some(MessageView::FlashCommand { target_monitor_ids, .. }) => {
                    &&& final(self).state == old(self).state
                    &&& final(self).latest == old(self).latest
                    &&& final(self).monitors == old(self).monitors
                    &&& acts@.len() == 1
                    &&& acts@[0] matches ClientAction::Emit(
                        ClientEvent::FlashReceived { target_monitor_ids: t },
                    ) && t@ == target_monitor_ids
                },
                Some(MessageView::ClearCommand { target_monitor_ids, .. }) => {
                    &&& final(self).state == old(self).state
                    &&& final(self).latest == old(self).latest
                    &&& final(self).monitors == old(self).monitors
                    &&& acts@.len() == 1
                    &&& acts@[0] matches ClientAction::Emit(
                        ClientEvent::ClearReceived { target_monitor_ids: t },
                    ) && t@ == target_monitor_ids
                },
                Some(MessageView::Ping { .. }) => {
                    &&& final(self).state == old(self).state
                    &&& final(self).latest == old(self).latest
                    &&& final(self).monitors == old(self).monitors
                    &&& acts@.len() == 1
                    &&& acts@[0] matches ClientAction::Send(f) && pmsg(f@) matches Some(
                        MessageView::Pong { .. },
                    )
                },
                _ => {
                    &&& final(self).state == old(self).state
                    &&& final(self).latest == old(self).latest
                    &&& final(self).monitors == old(self).monitors
                    &&& acts@.len() == 0
                },
            },
    {
        let mut acts: Vec<ClientAction> = Vec::new();
        match deserialize_message(text) {
            Ok(m) => {
                match m {
                    Message::ServerWelcome { payload, .. } => {
                        self.state = ConnState::Connected;
                        acts.push(
                            ClientAction::Emit(
                                ClientEvent::ServerWelcomeReceived {
                                    server_name: payload.server_name,
                                },
                            ),
                        );
                        acts.push(
                            ClientAction::Emit(
                                ClientEvent::ConnectionEstablished {
                                    server_address: server_address.to_owned(),
                                },
                            ),
                        );
                    },
                    Message::KanpeMessage { id, timestamp, payload } => {
                        self.latest = Some((id.clone(), payload.clone()));
                        acts.push(
                            ClientAction::Emit(
                                ClientEvent::MessageReceived {
                                    message: Message::KanpeMessage { id, timestamp, payload },
                                },
                            ),
                        );
                    },
                    Message::MonitorListSync { payload, .. } => {
                        let ms = clone_monitors(&payload.monitors);
                        self.monitors = payload.monitors;
                        acts.push(
                            ClientAction::Emit(ClientEvent::MonitorListReceived { monitors: ms }),
                        );
                    },
                    Message::MonitorAdded { payload, .. } => {
                        let m = payload.monitor.clone();
                        cache_add_monitor(&mut self.monitors, payload.monitor);
                        acts.push(ClientAction::Emit(ClientEvent::MonitorAdded { monitor: m }));
                    },
                    Message::MonitorRemoved { payload, .. } => {
                        cache_remove_monitor(&mut self.monitors, payload.monitor_id);
                        acts.push(
                            ClientAction::Emit(
                                ClientEvent::MonitorRemoved { monitor_id: payload.monitor_id },
                            ),
                        );
                    },
                    Message::MonitorUpdated { payload, .. } => {
                        let m = payload.monitor.clone();
                        cache_update_monitor(&mut self.monitors, payload.monitor);
                        acts.push(ClientAction::Emit(ClientEvent::MonitorUpdated { monitor: m }));
                    },
                    Message::FlashCommand { payload, .. } => {
                        acts.push(
                            ClientAction::Emit(
                                ClientEvent::FlashReceived {
                                    target_monitor_ids: payload.target_monitor_ids,
                                },
                            ),
                        );
                    },
                    Message::ClearCommand { payload, .. } => {
                        acts.push(
                            ClientAction::Emit(
                                ClientEvent::ClearReceived {
                                    target_monitor_ids: payload.target_monitor_ids,
                                },
                            ),
                        );
                    },
                    Message::Ping { .. } => {
                        let pong = Message::pong();
                        let frame = serialize_message(&pong);
                        proof {
                            lemma_pmsg_complete(pong@);
                        }
                        acts.push(ClientAction::Send(frame));
                    },
                    _ => {},
                }
            },
            Err(_) => {},
        }
        acts
    }

    /// The transport closed or failed: the loop stops, and the reason
    /// becomes a `ConnectionLost` event.  The cache survives.
    pub fn on_close(&mut self, reason: String) -> (acts: Vec<ClientAction>)
        ensures
            final(self).state is Disconnected,
            final(self).client_name == old(self).client_name,
            final(self).latest == old(self).latest,
            final(self).monitors == old(self).monitors,
            acts@.len() == 1,
            acts@[0] matches ClientAction::Emit(ClientEvent::ConnectionLost { reason: r }) && r@
                == reason@,
    {
        self.state = ConnState::Disconnected;
        let mut acts: Vec<ClientAction> = Vec::new();
        acts.push(ClientAction::Emit(ClientEvent::ConnectionLost { reason }));
        acts
    }

    /// Explicit disconnect: the runtime sends a close frame best-effort and
    /// drops the transport; the session forgets it was connected.
    pub fn disconnect(&mut self)
        ensures
            final(self).state is Disconnected,
            final(self).client_name == old(self).client_name,
            final(self).latest == old(self).latest,
            final(self).monitors == old(self).monitors,
    {
        self.state = ConnState::Disconnected;
    }

    /// The frame to write for an outbound message, or `NotConnected` when
    /// no transport is held — exactly when the session is disconnected.
    pub fn prepare_send(&self, message: &Message) -> (r: Result<String, ClientError>)
        ensures
            r is Ok <==> !(self.state is Disconnected),
            r matches Ok(f) ==> f@ == ser_message(message@),
            r matches Err(e) ==> e == ClientError::NotConnected,
    {
        match self.state {
            ConnState::Disconnected => Err(ClientError::NotConnected),
            _ => Ok(serialize_message(message)),
        }
    }

    /// Whether a transport is currently held.
    pub fn is_connected(&self) -> (r: bool)
        ensures
            r == !(self.state is Disconnected),
    {
        match self.state {
            ConnState::Disconnected => false,
            _ => true,
        }
    }

    /// The stored client name, or nothing before any connection attempt.
    pub fn get_client_name(&self) -> (r: Option<String>)
        ensures
            r is Some <==> self.client_name@.len() > 0,
            r matches Some(n) ==> n@ == self.client_name@,
    {
        if self.client_name.as_str().unicode_len() == 0 {
            None
        } else {
            Some(self.client_name.clone())
        }
    }

    /// The latest cue received, with its message identifier.
    pub fn get_latest_message(&self) -> (r: Option<(String, KanpeMessagePayload)>)
        ensures
            latest_view(r) == latest_view(self.latest),
    {
        match &self.latest {
            Some((id, p)) => Some((id.clone(), p.clone())),
            None => None,
        }
    }

    /// The cached monitor list.
    pub fn get_monitors(&self) -> (r: Vec<VirtualMonitor>)
        ensures
            monitors_view(r@) == monitors_view(self.monitors@),
    {
        clone_monitors(&self.monitors)
    }
}


// ---------------------------------------------------------------------------
// Server address normalization
// ---------------------------------------------------------------------------

/// The address without its trailing slashes.
pub open spec fn trim_slashes(s: Seq<char>) -> Seq<char>
    decreases s.len(),
{
    if s.len() > 0 && s.last() == '/' {
        trim_slashes(s.drop_last())
    } else {
        s
    }
}

/// The WebSocket URL for a server address: an explicit `ws://` or `wss://`
/// address keeps its scheme and gains a `/ws` path unless it already ends
/// in one; a bare address gets both.
pub open spec fn normalized_url(s: Seq<char>) -> Seq<char> {
    if "ws://"@.is_prefix_of(s) || "wss://"@.is_prefix_of(s) {
        if "/ws"@.is_suffix_of(s) {
            s
        } else {
            trim_slashes(s) + "/ws"@
        }
    } else {
        "ws://"@ + s + "/ws"@
    }
}

fn string_of_chars(cs: &Vec<char>, upto: usize) -> (r: String)
    requires
        upto <= cs.len(),
    ensures
        r@ == cs@.take(upto as int),
{
    let mut r = String::new();
    for i in 0..upto
        invariant
            upto <= cs@.len(),
            r@ == cs@.take(i as int),
    {
        r.push(cs[i]);
        proof {
            assert(cs@.take(i as int).push(cs@[i as int]) =~= cs@.take(i + 1 as int));
        }
    }
    r
}

/// Turn a user-supplied server address into the WebSocket URL to dial.
pub fn normalize_server_url(addr: &str) -> (r: String)
    ensures
        r@ == normalized_url(addr@),
{
    let cs = str_to_chars(addr);
    proof {
        assert(cs@.skip(0) == cs@);
    }
    let has_scheme = parse_lit(&cs, 0, "ws://").is_some() || parse_lit(&cs, 0, "wss://").is_some();
    proof {
        reveal_strlit("ws://");
        reveal_strlit("wss://");
        assert(has_scheme == ("ws://"@.is_prefix_of(cs@) || "wss://"@.is_prefix_of(cs@))) by {
            if crate::json::plit(cs@, "ws://"@) is Some {
                assert("ws://"@.is_prefix_of(cs@));
            }
            if crate::json::plit(cs@, "wss://"@) is Some {
                assert("wss://"@.is_prefix_of(cs@));
            }
        }
    }
    if has_scheme {
        // ends with "/ws"?
        let n = cs.len();
        let ends_ws = n >= 3 && cs[n - 3] == '/' && cs[n - 2] == 'w' && cs[n - 1] == 's';
        proof {
            reveal_strlit("/ws");
            assert(ends_ws == "/ws"@.is_suffix_of(cs@)) by {
                if ends_ws {
                    assert(cs@.subrange(n - 3, n as int) =~= "/ws"@);
                }
                if "/ws"@.is_suffix_of(cs@) {
                    let tail = cs@.subrange(cs@.len() - 3, cs@.len() as int);
                    assert(tail[0] == '/' && tail[1] == 'w' && tail[2] == 's');
                }
            }
        }
        if ends_ws {
            let mut out = String::new();
            let whole = string_of_chars(&cs, cs.len());
            proof {
                assert(cs@.take(cs@.len() as int) =~= cs@);
            }
            out.append(whole.as_str());
            proof {
                assert(out@ =~= normalized_url(addr@));
            }
            out
        } else {
            let mut k = cs.len();
            while k > 0 && cs[k - 1] == '/'
                invariant
                    k <= cs.len(),
                    trim_slashes(cs@) == trim_slashes(cs@.take(k as int)),
                decreases k,
            {
                proof {
                    assert(cs@.take(k as int).last() == cs@[k - 1]);
                    assert(cs@.take(k as int).drop_last() =~= cs@.take(k - 1));
                }
                k = k - 1;
            }
            proof {
                let t = cs@.take(k as int);
                assert(t.len() == 0 || t.last() != '/') by {
                    if t.len() > 0 {
                        assert(t.last() == cs@[k - 1]);
                    }
                }
                assert(trim_slashes(t) == t);
            }
            let mut out = string_of_chars(&cs, k);
            emit_lit(&mut out, "/ws");
            proof {
                assert(out@ =~= normalized_url(addr@));
            }
            out
        }
    } else {
        let mut out = String::new();
        emit_lit(&mut out, "ws://");
        let whole = string_of_chars(&cs, cs.len());
        proof {
            assert(cs@.take(cs@.len() as int) =~= cs@);
        }
        out.append(whole.as_str());
        emit_lit(&mut out, "/ws");
        proof {
            assert(out@ =~= normalized_url(addr@));
        }
        out
    }
}

} // verus!
