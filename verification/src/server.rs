//! The director side: server core, broadcast fan-out, and the
//! per-connection session state machine.
//!
//! The core owns the two registries; the surrounding runtime guards it with
//! a lock, accepts connections, and runs one session per connection.  A
//! session decides, from its state and one inbound frame or close, which
//! registry change to apply and which frames and events to hand back; the
//! runtime performs the sends.

use vstd::prelude::*;
use crate::clients::{
    entries_insert, entries_remove, has_key, key_index, ClientEntryView, ClientInfo,
    ClientInfoView, ClientManager,
};
use crate::message::{clone_ids, Message, MessageView};
use crate::monitors::MonitorManager;
use crate::types::{new_id, VirtualMonitor};
use crate::wire::{deserialize_message, lemma_pmsg_complete, pmsg, ser_message, serialize_message};

verus! {

/// What the server hands to the surrounding runtime for presentation.
#[derive(Debug)]
pub enum ServerEvent {
    ClientConnected { client_id: String, name: String, monitor_ids: Vec<u64> },
    ClientDisconnected { client_id: String },
    FeedbackReceived { message: Message },
    MonitorAdded { monitor: VirtualMonitor },
    MonitorRemoved { monitor_id: u64 },
    MonitorUpdated { monitor: VirtualMonitor },
}

/// One instruction to the runtime that drives a session: write a frame to
/// this connection's transport, or hand an event to the event channel.
#[derive(Debug)]
pub enum ServerAction {
    Send(String),
    Emit(ServerEvent),
}

// ---------------------------------------------------------------------------
// Broadcast fan-out
// ---------------------------------------------------------------------------

/// The channels that received the frame, given each attempt's outcome.
/// Every channel's delivery depends only on its own outcome.
pub open spec fn delivered_of(targets: Seq<u64>, ok: Seq<bool>) -> Seq<u64>
    decreases targets.len(),
{
    if targets.len() == 0 || ok.len() == 0 {
        Seq::empty()
    } else {
        let rest = delivered_of(targets.drop_first(), ok.drop_first());
        if ok[0] {
            seq![targets[0]] + rest
        } else {
            rest
        }
    }
}

proof fn lemma_delivered_snoc(targets: Seq<u64>, ok: Seq<bool>, t: u64, o: bool)
    requires
        targets.len() == ok.len(),
    ensures
        delivered_of(targets.push(t), ok.push(o)) == delivered_of(targets, ok) + (if o {
            seq![t]
        } else {
            Seq::<u64>::empty()
        }),
    decreases targets.len(),
{
    let ts = targets.push(t);
    let os = ok.push(o);
    if targets.len() == 0 {
        assert(ts.drop_first() =~= Seq::<u64>::empty());
        assert(os.drop_first() =~= Seq::<bool>::empty());
        assert(ts[0] == t && os[0] == o);
        assert(delivered_of(Seq::<u64>::empty(), Seq::<bool>::empty()) == Seq::<u64>::empty());
        if o {
            assert(delivered_of(ts, os) == seq![t] + Seq::<u64>::empty());
            assert(seq![t] + Seq::<u64>::empty() =~= seq![t]);
            assert(delivered_of(targets, ok) + seq![t] =~= seq![t]);
        } else {
            assert(delivered_of(targets, ok) + Seq::<u64>::empty() =~= Seq::<u64>::empty());
        }
    } else {
        assert(ts.drop_first() =~= targets.drop_first().push(t));
        assert(os.drop_first() =~= ok.drop_first().push(o));
        lemma_delivered_snoc(targets.drop_first(), ok.drop_first(), t, o);
        assert(ts[0] == targets[0] && os[0] == ok[0]);
        if ok[0] {
            if o {
                assert(seq![targets[0]] + (delivered_of(targets.drop_first(), ok.drop_first())
                    + seq![t]) =~= (seq![targets[0]] + delivered_of(
                    targets.drop_first(),
                    ok.drop_first(),
                )) + seq![t]);
            } else {
                assert(delivered_of(targets, ok) + Seq::<u64>::empty() =~= delivered_of(
                    targets,
                    ok,
                ));
                assert(delivered_of(ts, os) =~= delivered_of(targets, ok));
            }
        } else {
            if !o {
                assert(delivered_of(targets, ok) + Seq::<u64>::empty() =~= delivered_of(
                    targets,
                    ok,
                ));
            }
        }
    }
}

/// Account for one fan-out round: which channels got the frame.
pub fn summarize_broadcast(targets: &Vec<u64>, ok: &Vec<bool>) -> (delivered: Vec<u64>)
    requires
        targets.len() == ok.len(),
    ensures
        delivered@ == delivered_of(targets@, ok@),
{
    let mut delivered: Vec<u64> = Vec::new();
    let n = targets.len();
    for i in 0..n
        invariant
            n == targets@.len(),
            n == ok@.len(),
            delivered@ == delivered_of(targets@.take(i as int), ok@.take(i as int)),
    {
        if ok[i] {
            delivered.push(targets[i]);
        }
        proof {
            lemma_delivered_snoc(targets@.take(i as int), ok@.take(i as int), targets@[i as int], ok@[i as int]);
            assert(targets@.take(i as int).push(targets@[i as int]) =~= targets@.take(i + 1 as int));
            assert(ok@.take(i as int).push(ok@[i as int]) =~= ok@.take(i + 1 as int));
            if ok@[i as int] {
            } else {
                assert(delivered@ + Seq::<u64>::empty() =~= delivered@);
            }
        }
    }
    proof {
        assert(targets@.take(n as int) =~= targets@);
        assert(ok@.take(n as int) =~= ok@);
    }
    delivered
}

/// A failing channel keeps the frame only from itself: when channel `k` of
/// `N` fails and every other delivery succeeds, exactly the other `N - 1`
/// channels receive the frame, in order.
pub proof fn lemma_broadcast_isolated_failure(targets: Seq<u64>, ok: Seq<bool>, k: int)
    requires
        targets.len() == ok.len(),
        0 <= k < targets.len(),
        !ok[k],
        forall|j: int| 0 <= j < ok.len() && j != k ==> ok[j],
    ensures
        delivered_of(targets, ok) == targets.remove(k),
        delivered_of(targets, ok).len() == targets.len() - 1,
    decreases targets.len(),
{
    if k == 0 {
        assert(delivered_of(targets, ok) == delivered_of(targets.drop_first(), ok.drop_first()));
        lemma_delivered_all_ok(targets.drop_first(), ok.drop_first());
        assert(targets.remove(0) =~= targets.drop_first());
    } else {
        assert(ok[0]);
        lemma_broadcast_isolated_failure(targets.drop_first(), ok.drop_first(), k - 1);
        assert(seq![targets[0]] + targets.drop_first().remove(k - 1) =~= targets.remove(k));
    }
}

/// With every outcome good, every channel receives the frame.
pub proof fn lemma_delivered_all_ok(targets: Seq<u64>, ok: Seq<bool>)
    requires
        targets.len() == ok.len(),
        forall|j: int| 0 <= j < ok.len() ==> ok[j],
    ensures
        delivered_of(targets, ok) == targets,
    decreases targets.len(),
{
    if targets.len() == 0 {
        assert(delivered_of(targets, ok) =~= targets);
    } else {
        lemma_delivered_all_ok(targets.drop_first(), ok.drop_first());
        assert(seq![targets[0]] + targets.drop_first() =~= targets);
    }
}

// ---------------------------------------------------------------------------
// Server core
// ---------------------------------------------------------------------------

/// The server's shared state: who is connected, and which monitors exist.
/// The runtime wraps one of these in a lock; broadcast snapshots are taken
/// under the lock, while the actual transport writes happen outside it.
pub struct KanpeServer {
    pub clients: ClientManager,
    pub monitors: MonitorManager,
}

impl KanpeServer {
    pub open spec fn wf(&self) -> bool {
        self.clients.wf() && self.monitors.wf()
    }

    /// A fresh core with no clients and no monitors.
    pub fn new() -> (r: KanpeServer)
        ensures
            r.wf(),
            r.clients@ == Seq::<ClientEntryView>::empty(),
            r.monitors@ == Seq::<crate::types::MonitorView>::empty(),
            r.monitors.spec_next_id() == 1,
    {
        KanpeServer { clients: ClientManager::new(), monitors: MonitorManager::new() }
    }

    /// Serialize a message exactly once and snapshot every outbound
    /// channel; the runtime then attempts each delivery independently.
    pub fn broadcast_message(&self, message: &Message) -> (r: (String, Vec<(String, u64)>))
        ensures
            r.0@ == ser_message(message@),
            r.1@.len() == self.clients@.len(),
            forall|i: int|
                0 <= i < self.clients@.len() ==> (#[trigger] r.1@[i]).0@ == self.clients@[i].key
                    && r.1@[i].1 == self.clients@[i].channel,
    {
        let frame = serialize_message(message);
        let targets = self.clients.get_all_sinks();
        (frame, targets)
    }

    /// Add a monitor and prepare its announcement: the `MonitorAdded`
    /// broadcast frame and the domain event.
    pub fn add_monitor(&mut self, name: String, description: Option<String>, color: Option<
        String,
    >) -> (r: (VirtualMonitor, String, ServerEvent))
        requires
            old(self).wf(),
            old(self).monitors.spec_next_id() < u64::MAX,
        ensures
            final(self).wf(),
            final(self).clients@ == old(self).clients@,
            r.0@.id == old(self).monitors.spec_next_id(),
            r.0@.name == name@,
            !crate::monitors::contains_id(old(self).monitors@, r.0@.id),
            final(self).monitors@ == old(self).monitors@.push(r.0@),
            pmsg(r.1@) matches Some(MessageView::MonitorAdded { monitor, .. }) && monitor == r.0@,
            r.2 matches ServerEvent::MonitorAdded { monitor } && monitor@ == r.0@,
    {
        let m = self.monitors.add_monitor(name, description, color);
        let announce = Message::monitor_added(m.clone());
        let frame = serialize_message(&announce);
        proof {
            lemma_pmsg_complete(announce@);
        }
        let event = ServerEvent::MonitorAdded { monitor: m.clone() };
        (m, frame, event)
    }

    /// Remove a monitor; when it existed, also prepare the
    /// `MonitorRemoved` broadcast frame and the domain event.
    pub fn remove_monitor(&mut self, monitor_id: u64) -> (r: Option<(String, ServerEvent)>)
        requires
            old(self).wf(),
        ensures
            final(self).wf(),
            final(self).clients@ == old(self).clients@,
            r is Some <==> crate::monitors::contains_id(old(self).monitors@, monitor_id),
            !crate::monitors::contains_id(final(self).monitors@, monitor_id),
            forall|mid: u64|
                mid != monitor_id ==> (#[trigger] crate::monitors::contains_id(
                    final(self).monitors@,
                    mid,
                ) <==> crate::monitors::contains_id(old(self).monitors@, mid)),
            final(self).monitors@.len() == old(self).monitors@.len() - (
            if crate::monitors::contains_id(old(self).monitors@, monitor_id) {
                1int
            } else {
                0int
            }),
            r matches Some((frame, event)) ==> (pmsg(frame@) matches Some(
                MessageView::MonitorRemoved { monitor_id: mid, .. },
            ) && mid == monitor_id) && (event matches ServerEvent::MonitorRemoved {
                monitor_id: eid,
            } && eid == monitor_id),
    {
        match self.monitors.remove_monitor(monitor_id) {
            Some(_prior) => {
                let announce = Message::monitor_removed(monitor_id);
                let frame = serialize_message(&announce);
                proof {
                    lemma_pmsg_complete(announce@);
                }
                Some((frame, ServerEvent::MonitorRemoved { monitor_id }))
            },
            None => None,
        }
    }

    /// Replace a monitor when its identifier exists; when applied, also
    /// prepare the `MonitorUpdated` broadcast frame and the domain event.
    /// A missing identifier is not inserted.
    pub fn update_monitor(&mut self, monitor: VirtualMonitor) -> (r: Option<(String, ServerEvent)>)
        requires
            old(self).wf(),
        ensures
            final(self).wf(),
            final(self).clients@ == old(self).clients@,
            r is Some <==> crate::monitors::contains_id(old(self).monitors@, monitor@.id),
            r is None ==> final(self).monitors@ == old(self).monitors@,
            r is Some ==> crate::monitors::monitor_of(final(self).monitors@, monitor@.id)
                == monitor@,
            final(self).monitors@.len() == old(self).monitors@.len(),
            forall|mid: u64|
                #[trigger] crate::monitors::contains_id(final(self).monitors@, mid)
                    <==> crate::monitors::contains_id(old(self).monitors@, mid),
            r matches Some((frame, event)) ==> (pmsg(frame@) matches Some(
                MessageView::MonitorUpdated { monitor: mv, .. },
            ) && mv == monitor@) && (event matches ServerEvent::MonitorUpdated { monitor: em }
                && em@ == monitor@),
    {
        let copy = monitor.clone();
        if self.monitors.update_monitor(monitor) {
            let announce = Message::monitor_updated(copy.clone());
            let frame = serialize_message(&announce);
            proof {
                lemma_pmsg_complete(announce@);
            }
            Some((frame, ServerEvent::MonitorUpdated { monitor: copy }))
        } else {
            None
        }
    }

    /// Ordered snapshot of the monitor registry.
    pub fn get_monitors(&self) -> (r: Vec<VirtualMonitor>)
        ensures
            crate::message::monitors_view(r@) == self.monitors@,
    {
        self.monitors.get_all_monitors()
    }

    /// Snapshot of every connected client's identity.
    pub fn get_connected_clients(&self) -> (r: Vec<ClientInfo>)
        ensures
            r@.len() == self.clients@.len(),
            forall|i: int|
                0 <= i < self.clients@.len() ==> (#[trigger] r@[i])@ == self.clients@[i].info,
    {
        self.clients.get_all_clients()
    }
}

// ---------------------------------------------------------------------------
// Per-connection session
// ---------------------------------------------------------------------------

/// Phase of one server-side connection.
#[derive(Debug, Clone, Copy, PartialEq, Eq, Structural)]
pub enum SessionPhase {
    AwaitingHello,
    Registered,
    Closed,
}

/// The identity a handshake gives a performer.
pub open spec fn hello_info(cid: Seq<char>, p: crate::message::ClientHelloView) -> ClientInfoView {
    ClientInfoView {
        client_id: cid,
        client_name: p.client_name,
        display_monitor_ids: p.display_monitor_ids,
    }
}

/// Per-connection state machine: `AwaitingHello` until a `ClientHello`
/// registers the client, then `Registered` until the transport closes.
pub struct ServerSession {
    pub phase: SessionPhase,
    pub client_id: Option<String>,
    pub channel: u64,
}

impl ServerSession {
    pub open spec fn wf(&self) -> bool {
        self.phase is Registered ==> self.client_id is Some
    }

    /// A session for a freshly accepted connection with the given outbound
    /// channel handle.
    pub fn new(channel: u64) -> (r: ServerSession)
        ensures
            r.wf(),
            r.phase is AwaitingHello,
            r.client_id is None,
            r.channel == channel,
    {
        ServerSession { phase: SessionPhase::AwaitingHello, client_id: None, channel }
    }

    /// Dispatch one inbound text frame.
    ///
    /// Before the handshake only a `ClientHello` does anything: it
    /// registers the client and replies with `ServerWelcome` then
    /// `MonitorListSync`, in that order, before the `ClientConnected`
    /// event.  A connection that never sends `ClientHello` never touches
    /// the registry.  After registration, feedback becomes an event, a ping
    /// is answered with a pong, and everything else — including a malformed
    /// frame — is ignored without closing the connection.
    pub fn on_text(&mut self, core: &mut KanpeServer, text: &str) -> (acts: Vec<ServerAction>)
        requires
            old(self).wf(),
            old(core).wf(),
        ensures
            final(self).wf(),
            final(core).wf(),
            final(self).channel == old(self).channel,
            final(core).monitors == old(core).monitors,
            !(old(self).phase is AwaitingHello && pmsg(text@) matches Some(
                MessageView::ClientHello { .. },
            )) ==> final(self).phase == old(self).phase && final(self).client_id == old(
                self,
            ).client_id && final(core).clients@ == old(core).clients@,
            old(self).phase is Closed ==> acts@.len() == 0,
            old(self).phase is Registered ==> match pmsg(text@) {
                Some(MessageView::FeedbackMessage { .. }) => acts@.len() == 1 && (acts@[0] matches
                    ServerAction::Emit(ServerEvent::FeedbackReceived { message }) && pmsg(text@)
                    == Some(message@)),
                Some(MessageView::Ping { .. }) => acts@.len() == 1 && (acts@[0] matches
                    ServerAction::Send(f) && pmsg(f@) matches Some(MessageView::Pong { .. })),
                _ => acts@.len() == 0,
            },
            old(self).phase is AwaitingHello ==> match pmsg(text@) {
                Some(MessageView::ClientHello { payload, .. }) => {
                    &&& final(self).phase is Registered
                    &&& final(self).client_id matches Some(cid) && cid@.len() == 36
                        && final(core).clients@ == entries_insert(
                        old(core).clients@,
                        ClientEntryView {
                            key: cid@,
                            info: hello_info(cid@, payload),
                            channel: old(self).channel,
                        },
                    ) && acts@.len() == 3 && (acts@[0] matches ServerAction::Send(w) && (pmsg(w@)
                        matches Some(MessageView::ServerWelcome { payload: wp, .. })
                        && wp.server_name == "Kanpe Server"@ && wp.assigned_client_id == cid@)) && (
                    acts@[1] matches ServerAction::Send(sy) && (pmsg(sy@) matches Some(
                        MessageView::MonitorListSync { monitors, .. },
                    ) && monitors == old(core).monitors@)) && (acts@[2] matches ServerAction::Emit(
                        ServerEvent::ClientConnected { client_id, name, monitor_ids },
                    ) && client_id@ == cid@ && name@ == payload.client_name && monitor_ids@
                        == payload.display_monitor_ids)
                },
                _ => acts@.len() == 0,
            },
    {
        let mut acts: Vec<ServerAction> = Vec::new();
        match deserialize_message(text) {
            Ok(m) => {
                match self.phase {
                    SessionPhase::AwaitingHello => {
                        match m {
                            Message::ClientHello { payload, .. } => {
                                let cid = new_id();
                                let info = ClientInfo {
                                    client_id: cid.clone(),
                                    client_name: payload.client_name.clone(),
                                    display_monitor_ids: clone_ids(&payload.display_monitor_ids),
                                };
                                core.clients.add_client(cid.clone(), info, self.channel);
                                self.phase = SessionPhase::Registered;
                                self.client_id = Some(cid.clone());
                                let welcome = Message::server_welcome(
                                    "Kanpe Server".to_owned(),
                                    cid.clone(),
                                );
                                let wframe = serialize_message(&welcome);
                                proof {
                                    lemma_pmsg_complete(welcome@);
                                }
                                acts.push(ServerAction::Send(wframe));
                                let monitors = core.monitors.get_all_monitors();
                                let sync = Message::monitor_list_sync(monitors);
                                let sframe = serialize_message(&sync);
                                proof {
                                    lemma_pmsg_complete(sync@);
                                }
                                acts.push(ServerAction::Send(sframe));
                                acts.push(
                                    ServerAction::Emit(
                                        ServerEvent::ClientConnected {
                                            client_id: cid,
                                            name: payload.client_name,
                                            monitor_ids: payload.display_monitor_ids,
                                        },
                                    ),
                                );
                            },
                            _ => {},
                        }
                    },
                    SessionPhase::Registered => {
                        match m {
                            Message::FeedbackMessage { .. } => {
                                acts.push(
                                    ServerAction::Emit(ServerEvent::FeedbackReceived { message: m }),
                                );
                            },
                            Message::Ping { .. } => {
                                let pong = Message::pong();
                                let frame = serialize_message(&pong);
                                proof {
                                    lemma_pmsg_complete(pong@);
                                }
                                acts.push(ServerAction::Send(frame));
                            },
                            _ => {},
                        }
                    },
                    SessionPhase::Closed => {},
                }
            },
            Err(_) => {},
        }
        acts
    }

    /// The transport reported closure.  A registered client is
    /// unregistered exactly once — the session moves to `Closed`, so a
    /// second closure report removes nothing — and its departure becomes a
    /// `ClientDisconnected` event.  A connection that never completed the
    /// handshake leaves the registry untouched.
    pub fn on_close(&mut self, core: &mut KanpeServer) -> (acts: Vec<ServerAction>)
        requires
            old(self).wf(),
            old(core).wf(),
        ensures
            final(self).wf(),
            final(core).wf(),
            final(self).phase is Closed,
            final(self).client_id is None,
            final(self).channel == old(self).channel,
            final(core).monitors == old(core).monitors,
            old(self).phase is Registered ==> ({
                let cid = old(self).client_id->0;
                &&& final(core).clients@ == entries_remove(old(core).clients@, cid@)
                &&& !has_key(final(core).clients@, cid@)
                &&& acts@.len() == 1
                &&& acts@[0] matches ServerAction::Emit(
                    ServerEvent::ClientDisconnected { client_id },
                ) && client_id@ == cid@
            }),
            !(old(self).phase is Registered) ==> final(core).clients@ == old(core).clients@
                && acts@.len() == 0,
    {
        let mut acts: Vec<ServerAction> = Vec::new();
        let was_registered = match self.phase {
            SessionPhase::Registered => true,
            _ => false,
        };
        self.phase = SessionPhase::Closed;
        if was_registered {
            let cid = self.client_id.take();
            match cid {
                Some(id) => {
                    let _removed = core.clients.remove_client(id.as_str());
                    acts.push(
                        ServerAction::Emit(ServerEvent::ClientDisconnected { client_id: id }),
                    );
                },
                None => {},
            }
        } else {
            self.client_id = None;
        }
        acts
    }

    /// One heartbeat tick: a `Ping` frame to write, unless the session is
    /// already closed.
    pub fn heartbeat_tick(&self) -> (r: Option<String>)
        ensures
            r is Some <==> !(self.phase is Closed),
            r matches Some(f) ==> pmsg(f@) matches Some(MessageView::Ping { .. }),
    {
        match self.phase {
            SessionPhase::Closed => None,
            _ => {
                let ping = Message::ping();
                let frame = serialize_message(&ping);
                proof {
                    lemma_pmsg_complete(ping@);
                }
                Some(frame)
            },
        }
    }
}

} // verus!
