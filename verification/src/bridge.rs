//! The macro-pad bridge: a simplified JSON side channel.
//!
//! A single bridge peer at a time sends coarse requests — send feedback,
//! react to the latest cue, query state — which are translated into
//! operations on the client session.  Requests arrive as JSON text frames
//! in one canonical form; responses are serialized the same way.

use vstd::prelude::*;
use crate::client_session::ClientSession;
use crate::json::{
    emit_lit, emit_jstr, lemma_pjstr_complete, lemma_pjstr_sound, parse_jstr, parse_lit, pjstr,
    plit, ser_jstr, str_to_chars,
};
use crate::message::{clone_ids, clone_monitors, monitors_view, Message, MessageView};
use crate::types::{str_eq, FeedbackType, Priority, VirtualMonitor};
use crate::wire::{
    emit_mon_list, emit_u64_list, lemma_lit_mismatch, lemma_plit_sound, lemma_pmsg_complete, pmsg,
    ser_mon_list, ser_u64_list,
};
use crate::json::lemma_plit_complete;

verus! {

// ---------------------------------------------------------------------------
// Requests
// ---------------------------------------------------------------------------

/// A request from the macro-pad peer.
#[derive(Debug)]
pub enum StreamDeckRequest {
    SendFeedback { content: String, feedback_type: String },
    ReactToLatest { feedback_type: String },
    GetState,
}

/// Mathematical value of a [`StreamDeckRequest`].
pub enum SdRequestView {
    SendFeedback { content: Seq<char>, feedback_type: Seq<char> },
    ReactToLatest { feedback_type: Seq<char> },
    GetState,
}

impl View for StreamDeckRequest {
    type V = SdRequestView;

    open spec fn view(&self) -> SdRequestView {
        match self {
            StreamDeckRequest::SendFeedback { content, feedback_type } => {
                SdRequestView::SendFeedback {
                    content: content@,
                    feedback_type: feedback_type@,
                }
            },
            StreamDeckRequest::ReactToLatest { feedback_type } => SdRequestView::ReactToLatest {
                feedback_type: feedback_type@,
            },
            StreamDeckRequest::GetState => SdRequestView::GetState,
        }
    }
}

/// The canonical wire text of a bridge request.
pub open spec fn ser_request(r: SdRequestView) -> Seq<char> {
    match r {
        SdRequestView::SendFeedback { content, feedback_type } => "{\"type\":\"send_feedback\",\"content\":"@
            + ser_jstr(content) + ",\"feedback_type\":"@ + ser_jstr(feedback_type) + "}"@,
        SdRequestView::ReactToLatest { feedback_type } => "{\"type\":\"react_to_latest\",\"feedback_type\":"@
            + ser_jstr(feedback_type) + "}"@,
        SdRequestView::GetState => "{\"type\":\"get_state\"}"@,
    }
}

/// Parse one whole request frame: exactly the canonical serializations.
#[verifier::opaque]
pub open spec fn preq(t: Seq<char>) -> Option<SdRequestView> {
    match plit(t, "{\"type\":\""@) {
        Some(t0) => if plit(t0, "send_feedback\",\"content\":"@) is Some {
            let t1 = plit(t0, "send_feedback\",\"content\":"@)->Some_0;
            match pjstr(t1) {
                Some((content, t2)) => match plit(t2, ",\"feedback_type\":"@) {
                    Some(t3) => match pjstr(t3) {
                        Some((ft, t4)) => match plit(t4, "}"@) {
                            Some(t5) => if t5.len() == 0 {
                                Some(SdRequestView::SendFeedback { content, feedback_type: ft })
                            } else {
                                None
                            },
                            None => None,
                        },
                        None => None,
                    },
                    None => None,
                },
                None => None,
            }
        } else if plit(t0, "react_to_latest\",\"feedback_type\":"@) is Some {
            let t1 = plit(t0, "react_to_latest\",\"feedback_type\":"@)->Some_0;
            match pjstr(t1) {
                Some((ft, t2)) => match plit(t2, "}"@) {
                    Some(t3) => if t3.len() == 0 {
                        Some(SdRequestView::ReactToLatest { feedback_type: ft })
                    } else {
                        None
                    },
                    None => None,
                },
                None => None,
            }
        } else if plit(t0, "get_state\"}"@) is Some {
            let t1 = plit(t0, "get_state\"}"@)->Some_0;
            if t1.len() == 0 {
                Some(SdRequestView::GetState)
            } else {
                None
            }
        } else {
            None
        },
        None => None,
    }
}

#[verifier::rlimit(100)]
proof fn lemma_preq_complete(r: SdRequestView)
    ensures
        preq(ser_request(r)) == Some(r),
{
    reveal(preq);
    reveal_strlit("{\"type\":\"");
    reveal_strlit("{\"type\":\"send_feedback\",\"content\":");
    reveal_strlit("{\"type\":\"react_to_latest\",\"feedback_type\":");
    reveal_strlit("{\"type\":\"get_state\"}");
    reveal_strlit("send_feedback\",\"content\":");
    reveal_strlit("react_to_latest\",\"feedback_type\":");
    reveal_strlit("get_state\"}");
    reveal_strlit(",\"feedback_type\":");
    reveal_strlit("}");
    let t = ser_request(r);
    match r {
        SdRequestView::SendFeedback { content, feedback_type } => {
            let x = "send_feedback\",\"content\":"@ + (ser_jstr(content) + (",\"feedback_type\":"@
                + (ser_jstr(feedback_type) + "}"@)));
            assert(t =~= "{\"type\":\""@ + x);
            lemma_plit_complete("{\"type\":\""@, x);
            lemma_plit_complete(
                "send_feedback\",\"content\":"@,
                ser_jstr(content) + (",\"feedback_type\":"@ + (ser_jstr(feedback_type) + "}"@)),
            );
            lemma_pjstr_complete(content, ",\"feedback_type\":"@ + (ser_jstr(feedback_type) + "}"@));
            lemma_plit_complete(",\"feedback_type\":"@, ser_jstr(feedback_type) + "}"@);
            lemma_pjstr_complete(feedback_type, "}"@);
            assert("}"@ =~= "}"@ + Seq::<char>::empty());
            lemma_plit_complete("}"@, Seq::<char>::empty());
        },
        SdRequestView::ReactToLatest { feedback_type } => {
            let x = "react_to_latest\",\"feedback_type\":"@ + (ser_jstr(feedback_type) + "}"@);
            assert(t =~= "{\"type\":\""@ + x);
            lemma_plit_complete("{\"type\":\""@, x);
            lemma_lit_mismatch(x, "send_feedback\",\"content\":"@, 0);
            lemma_plit_complete(
                "react_to_latest\",\"feedback_type\":"@,
                ser_jstr(feedback_type) + "}"@,
            );
            lemma_pjstr_complete(feedback_type, "}"@);
            assert("}"@ =~= "}"@ + Seq::<char>::empty());
            lemma_plit_complete("}"@, Seq::<char>::empty());
        },
        SdRequestView::GetState => {
            let x = "get_state\"}"@;
            assert(t =~= "{\"type\":\""@ + x);
            lemma_plit_complete("{\"type\":\""@, x);
            lemma_lit_mismatch(x, "send_feedback\",\"content\":"@, 0);
            lemma_lit_mismatch(x, "react_to_latest\",\"feedback_type\":"@, 0);
            assert(x =~= "get_state\"}"@ + Seq::<char>::empty());
            lemma_plit_complete("get_state\"}"@, Seq::<char>::empty());
        },
    }
}

#[verifier::rlimit(100)]
proof fn lemma_preq_sound(t: Seq<char>)
    requires
        preq(t) is Some,
    ensures
        t == ser_request(preq(t)->Some_0),
{
    reveal(preq);
    reveal_strlit("{\"type\":\"");
    reveal_strlit("{\"type\":\"send_feedback\",\"content\":");
    reveal_strlit("{\"type\":\"react_to_latest\",\"feedback_type\":");
    reveal_strlit("{\"type\":\"get_state\"}");
    reveal_strlit("send_feedback\",\"content\":");
    reveal_strlit("react_to_latest\",\"feedback_type\":");
    reveal_strlit("get_state\"}");
    reveal_strlit(",\"feedback_type\":");
    reveal_strlit("}");
    let r = preq(t)->Some_0;
    let t0 = plit(t, "{\"type\":\""@)->Some_0;
    lemma_plit_sound(t, "{\"type\":\""@);
    if plit(t0, "send_feedback\",\"content\":"@) is Some {
        let t1 = plit(t0, "send_feedback\",\"content\":"@)->Some_0;
        lemma_plit_sound(t0, "send_feedback\",\"content\":"@);
        let (content, t2) = pjstr(t1)->Some_0;
        lemma_pjstr_sound(t1);
        let t3 = plit(t2, ",\"feedback_type\":"@)->Some_0;
        lemma_plit_sound(t2, ",\"feedback_type\":"@);
        let (ft, t4) = pjstr(t3)->Some_0;
        lemma_pjstr_sound(t3);
        let t5 = plit(t4, "}"@)->Some_0;
        lemma_plit_sound(t4, "}"@);
        assert(t5 =~= Seq::<char>::empty());
        assert(t4 =~= "}"@);
        assert(t =~= ser_request(r));
    } else if plit(t0, "react_to_latest\",\"feedback_type\":"@) is Some {
        let t1 = plit(t0, "react_to_latest\",\"feedback_type\":"@)->Some_0;
        lemma_plit_sound(t0, "react_to_latest\",\"feedback_type\":"@);
        let (ft, t2) = pjstr(t1)->Some_0;
        lemma_pjstr_sound(t1);
        let t3 = plit(t2, "}"@)->Some_0;
        lemma_plit_sound(t2, "}"@);
        assert(t3 =~= Seq::<char>::empty());
        assert(t2 =~= "}"@);
        assert(t =~= ser_request(r));
    } else {
        let t1 = plit(t0, "get_state\"}"@)->Some_0;
        lemma_plit_sound(t0, "get_state\"}"@);
        assert(t1 =~= Seq::<char>::empty());
        assert(t0 =~= "get_state\"}"@);
        assert(t =~= ser_request(r));
    }
}

fn parse_request_inner(cs: &Vec<char>) -> (r: Option<StreamDeckRequest>)
    ensures
        match r {
            Some(q) => preq(cs@) == Some(q@),
            None => preq(cs@) is None,
        },
{
    proof {
        reveal(preq);
        assert(cs@.skip(0) == cs@);
    }
    let j0 = match parse_lit(cs, 0, "{\"type\":\"") {
        Some(j) => j,
        None => { return None; },
    };
    if let Some(j1) = parse_lit(cs, j0, "send_feedback\",\"content\":") {
        let (content, j2) = match parse_jstr(cs, j1) {
            Some(v) => v,
            None => { return None; },
        };
        let j3 = match parse_lit(cs, j2, ",\"feedback_type\":") {
            Some(j) => j,
            None => { return None; },
        };
        let (ft, j4) = match parse_jstr(cs, j3) {
            Some(v) => v,
            None => { return None; },
        };
        let j5 = match parse_lit(cs, j4, "}") {
            Some(j) => j,
            None => { return None; },
        };
        if j5 != cs.len() {
            return None;
        }
        Some(StreamDeckRequest::SendFeedback { content, feedback_type: ft })
    } else if let Some(j1) = parse_lit(cs, j0, "react_to_latest\",\"feedback_type\":") {
        let (ft, j2) = match parse_jstr(cs, j1) {
            Some(v) => v,
            None => { return None; },
        };
        let j3 = match parse_lit(cs, j2, "}") {
            Some(j) => j,
            None => { return None; },
        };
        if j3 != cs.len() {
            return None;
        }
        Some(StreamDeckRequest::ReactToLatest { feedback_type: ft })
    } else if let Some(j1) = parse_lit(cs, j0, "get_state\"}") {
        if j1 != cs.len() {
            return None;
        }
        Some(StreamDeckRequest::GetState)
    } else {
        None
    }
}

/// Decode one bridge request.
///
/// Succeeds exactly on the canonical wire text of a request; anything else
/// — an unknown tag, missing fields — is rejected, and the caller skips
/// the frame.
pub fn parse_streamdeck_request(s: &str) -> (r: Option<StreamDeckRequest>)
    ensures
        r matches Some(q) ==> s@ == ser_request(q@),
        forall|rv: SdRequestView| s@ == ser_request(rv) ==> (r matches Some(q) && q@ == rv),
{
    let cs = str_to_chars(s);
    match parse_request_inner(&cs) {
        Some(q) => {
            proof {
                lemma_preq_sound(s@);
                assert forall|rv: SdRequestView| s@ == ser_request(rv) implies q@ == rv by {
                    lemma_preq_complete(rv);
                }
            }
            Some(q)
        },
        None => {
            proof {
                assert forall|rv: SdRequestView| s@ != ser_request(rv) by {
                    if s@ == ser_request(rv) {
                        lemma_preq_complete(rv);
                    }
                }
            }
            None
        },
    }
}

// ---------------------------------------------------------------------------
// Responses
// ---------------------------------------------------------------------------

/// A compact description of the latest cue, for the bridge peer.
#[derive(Debug)]
pub struct LatestMessageInfo {
    pub id: String,
    pub content: String,
    pub priority: String,
    pub target_monitor_ids: Vec<u64>,
}

/// Mathematical value of a [`LatestMessageInfo`].
pub struct LatestInfoView {
    pub id: Seq<char>,
    pub content: Seq<char>,
    pub priority: Seq<char>,
    pub target_monitor_ids: Seq<u64>,
}

impl View for LatestMessageInfo {
    type V = LatestInfoView;

    open spec fn view(&self) -> LatestInfoView {
        LatestInfoView {
            id: self.id@,
            content: self.content@,
            priority: self.priority@,
            target_monitor_ids: self.target_monitor_ids@,
        }
    }
}

/// A response to the macro-pad peer.
#[derive(Debug)]
pub enum StreamDeckResponse {
    Result { success: bool, error: Option<String> },
    StateUpdate {
        connected: bool,
        latest_message: Option<LatestMessageInfo>,
        monitors: Vec<VirtualMonitor>,
    },
}

/// Mathematical value of a [`StreamDeckResponse`].
pub enum SdResponseView {
    Result { success: bool, error: Option<Seq<char>> },
    StateUpdate {
        connected: bool,
        latest_message: Option<LatestInfoView>,
        monitors: Seq<crate::types::MonitorView>,
    },
}

impl View for StreamDeckResponse {
    type V = SdResponseView;

    open spec fn view(&self) -> SdResponseView {
        match self {
            StreamDeckResponse::Result { success, error } => SdResponseView::Result {
                success: *success,
                error: crate::types::opt_string_view(*error),
            },
            StreamDeckResponse::StateUpdate { connected, latest_message, monitors } => {
                SdResponseView::StateUpdate {
                    connected: *connected,
                    latest_message: match latest_message {
                        Some(l) => Some(l@),
                        None => None,
                    },
                    monitors: monitors_view(monitors@),
                }
            },
        }
    }
}

pub open spec fn ser_bool(b: bool) -> Seq<char> {
    if b {
        "true"@
    } else {
        "false"@
    }
}

/// The canonical wire text of a bridge response.  A `result` without an
/// error and a `state_update` without a latest message omit those members.
pub open spec fn ser_response(r: SdResponseView) -> Seq<char> {
    match r {
        SdResponseView::Result { success, error } => match error {
            None => "{\"type\":\"result\",\"success\":"@ + ser_bool(success) + "}"@,
            Some(e) => "{\"type\":\"result\",\"success\":"@ + ser_bool(success) + ",\"error\":"@
                + ser_jstr(e) + "}"@,
        },
        SdResponseView::StateUpdate { connected, latest_message, monitors } => match latest_message {
            None => "{\"type\":\"state_update\",\"connected\":"@ + ser_bool(connected)
                + ",\"monitors\":"@ + ser_mon_list(monitors) + "}"@,
            Some(l) => "{\"type\":\"state_update\",\"connected\":"@ + ser_bool(connected)
                + ",\"latest_message\":{\"id\":"@ + ser_jstr(l.id) + ",\"content\":"@ + ser_jstr(
                l.content,
            ) + ",\"priority\":"@ + ser_jstr(l.priority) + ",\"target_monitor_ids\":"@
                + ser_u64_list(l.target_monitor_ids) + "},\"monitors\":"@ + ser_mon_list(monitors)
                + "}"@,
        },
    }
}

fn emit_bool(out: &mut String, b: bool)
    ensures
        final(out)@ == old(out)@ + ser_bool(b),
{
    if b {
        emit_lit(out, "true");
    } else {
        emit_lit(out, "false");
    }
}

/// The canonical wire text of a response.
#[verifier::rlimit(100)]
pub fn serialize_streamdeck_response(r: &StreamDeckResponse) -> (s: String)
    ensures
        s@ == ser_response(r@),
{
    let mut out = String::new();
    match r {
        StreamDeckResponse::Result { success, error } => {
            emit_lit(&mut out, "{\"type\":\"result\",\"success\":");
            emit_bool(&mut out, *success);
            match error {
                Some(e) => {
                    emit_lit(&mut out, ",\"error\":");
                    emit_jstr(&mut out, e.as_str());
                },
                None => {},
            }
            emit_lit(&mut out, "}");
        },
        StreamDeckResponse::StateUpdate { connected, latest_message, monitors } => {
            emit_lit(&mut out, "{\"type\":\"state_update\",\"connected\":");
            emit_bool(&mut out, *connected);
            match latest_message {
                Some(l) => {
                    emit_lit(&mut out, ",\"latest_message\":{\"id\":");
                    emit_jstr(&mut out, l.id.as_str());
                    emit_lit(&mut out, ",\"content\":");
                    emit_jstr(&mut out, l.content.as_str());
                    emit_lit(&mut out, ",\"priority\":");
                    emit_jstr(&mut out, l.priority.as_str());
                    emit_lit(&mut out, ",\"target_monitor_ids\":");
                    emit_u64_list(&mut out, &l.target_monitor_ids);
                    emit_lit(&mut out, "},\"monitors\":");
                },
                None => {
                    emit_lit(&mut out, ",\"monitors\":");
                },
            }
            emit_mon_list(&mut out, monitors);
            emit_lit(&mut out, "}");
        },
    }
    proof {
        assert(out@ =~= ser_response(r@));
    }
    out
}

impl StreamDeckResponse {
    /// The affirmative operation result.
    pub fn success() -> (r: StreamDeckResponse)
        ensures
            r matches StreamDeckResponse::Result { success, error } && success && error is None,
    {
        StreamDeckResponse::Result { success: true, error: None }
    }

    /// A failed operation result carrying a description.
    pub fn error(message: String) -> (r: StreamDeckResponse)
        ensures
            r matches StreamDeckResponse::Result { success, error } && !success && (error matches
                Some(e) && e@ == message@),
    {
        StreamDeckResponse::Result { success: false, error: Some(message) }
    }
}

// ---------------------------------------------------------------------------
// Bridge operations against the client session
// ---------------------------------------------------------------------------

/// What the bridge server reports to the surrounding runtime.
#[derive(Debug)]
pub enum StreamDeckEvent {
    Connected,
    Disconnected,
    SendFeedback { content: String, feedback_type: String },
    ReactToLatest { feedback_type: String },
    GetState,
}

/// The request a peer sent, as an event for the runtime's bridge loop.
pub fn request_event(req: StreamDeckRequest) -> (r: StreamDeckEvent)
    ensures
        match req@ {
            SdRequestView::SendFeedback { content, feedback_type } => r matches
                StreamDeckEvent::SendFeedback { content: c, feedback_type: f } && c@ == content
                && f@ == feedback_type,
            SdRequestView::ReactToLatest { feedback_type } => r matches
                StreamDeckEvent::ReactToLatest { feedback_type: f } && f@ == feedback_type,
            SdRequestView::GetState => r is GetState,
        },
{
    match req {
        StreamDeckRequest::SendFeedback { content, feedback_type } => {
            StreamDeckEvent::SendFeedback { content, feedback_type }
        },
        StreamDeckRequest::ReactToLatest { feedback_type } => StreamDeckEvent::ReactToLatest {
            feedback_type,
        },
        StreamDeckRequest::GetState => StreamDeckEvent::GetState,
    }
}

/// Why a bridge operation failed.
#[derive(Debug, Clone, Copy, PartialEq, Eq, Structural)]
pub enum BridgeError {
    InvalidFeedbackType,
    NotConnected,
    NoLatestMessage,
}

impl BridgeError {
    /// A description for the `result` response.
    pub fn message(&self) -> (r: String)
        ensures
            self is InvalidFeedbackType ==> r@ == "Invalid feedback type"@,
            self is NotConnected ==> r@ == "Not connected to a server"@,
            self is NoLatestMessage ==> r@ == "No messages received yet"@,
    {
        match self {
            BridgeError::InvalidFeedbackType => "Invalid feedback type".to_owned(),
            BridgeError::NotConnected => "Not connected to a server".to_owned(),
            BridgeError::NoLatestMessage => "No messages received yet".to_owned(),
        }
    }
}

/// The feedback type named by a bridge request, if the name is one of the
/// four the protocol knows.
pub open spec fn feedback_name_view(s: Seq<char>) -> Option<FeedbackType> {
    if s == "Ack"@ {
        Some(FeedbackType::Ack)
    } else if s == "Question"@ {
        Some(FeedbackType::Question)
    } else if s == "Issue"@ {
        Some(FeedbackType::Issue)
    } else if s == "Info"@ {
        Some(FeedbackType::Info)
    } else {
        None
    }
}

fn parse_feedback_name(s: &str) -> (r: Option<FeedbackType>)
    ensures
        r == feedback_name_view(s@),
{
    if str_eq(s, "Ack") {
        Some(FeedbackType::Ack)
    } else if str_eq(s, "Question") {
        Some(FeedbackType::Question)
    } else if str_eq(s, "Issue") {
        Some(FeedbackType::Issue)
    } else if str_eq(s, "Info") {
        Some(FeedbackType::Info)
    } else {
        None
    }
}

/// The client name the bridge signs feedback with: the session's stored
/// name, or a fixed stand-in before any connection stored one.
pub open spec fn bridge_client_name(c: ClientSession) -> Seq<char> {
    if c.client_name@.len() > 0 {
        c.client_name@
    } else {
        "StreamDeck"@
    }
}

fn effective_client_name(client: &ClientSession) -> (r: String)
    ensures
        r@ == bridge_client_name(*client),
{
    match client.get_client_name() {
        Some(n) => n,
        None => "StreamDeck".to_owned(),
    }
}

/// Canned reaction text for each feedback type.
pub open spec fn canned_reaction(f: FeedbackType) -> Seq<char> {
    match f {
        FeedbackType::Ack => "了解しました"@,
        FeedbackType::Question => "質問があります"@,
        FeedbackType::Issue => "問題が発生しました"@,
        FeedbackType::Info => "情報を共有します"@,
    }
}

fn reaction_content(f: &FeedbackType) -> (r: String)
    ensures
        r@ == canned_reaction(*f),
{
    match f {
        FeedbackType::Ack => "了解しました".to_owned(),
        FeedbackType::Question => "質問があります".to_owned(),
        FeedbackType::Issue => "問題が発生しました".to_owned(),
        FeedbackType::Info => "情報を共有します".to_owned(),
    }
}

/// Build the feedback frame for a `SendFeedback` request: an unknown
/// feedback-type name or a missing connection is a failure, otherwise the
/// frame carries the content, the session's client name, and no referenced
/// message.
pub fn bridge_send_feedback(client: &ClientSession, content: String, feedback_type: &str) -> (r:
    Result<String, BridgeError>)
    ensures
        feedback_name_view(feedback_type@) is None <==> r == Err::<String, BridgeError>(
            BridgeError::InvalidFeedbackType,
        ),
        feedback_name_view(feedback_type@) is Some && client.state is Disconnected ==> r == Err::<
            String,
            BridgeError,
        >(BridgeError::NotConnected),
        match feedback_name_view(feedback_type@) {
            Some(ft) => !(client.state is Disconnected) ==> (r matches Ok(f) && (pmsg(f@) matches
                Some(MessageView::FeedbackMessage { payload, .. }) && payload.content == content@
                && payload.client_name == bridge_client_name(*client)
                && payload.reply_to_message_id == Seq::<char>::empty() && payload.feedback_type
                == ft)),
            None => true,
        },
{
    let ft = match parse_feedback_name(feedback_type) {
        Some(f) => f,
        None => { return Err(BridgeError::InvalidFeedbackType); },
    };
    if !client.is_connected() {
        return Err(BridgeError::NotConnected);
    }
    let name = effective_client_name(client);
    let message = Message::feedback_message(content, name, String::new(), ft);
    proof {
        lemma_pmsg_complete(message@);
    }
    match client.prepare_send(&message) {
        Ok(f) => Ok(f),
        Err(_) => Err(BridgeError::NotConnected),
    }
}

/// Build the feedback frame for a `ReactToLatest` request.  On a session
/// that has not yet received any cue this fails with `NoLatestMessage` and
/// produces no frame; otherwise the frame references the latest cue's
/// identifier and carries the canned text for the feedback type.
pub fn bridge_react_to_latest(client: &ClientSession, feedback_type: &str) -> (r: Result<
    String,
    BridgeError,
>)
    ensures
        feedback_name_view(feedback_type@) is None <==> r == Err::<String, BridgeError>(
            BridgeError::InvalidFeedbackType,
        ),
        feedback_name_view(feedback_type@) is Some && client.state is Disconnected ==> r == Err::<
            String,
            BridgeError,
        >(BridgeError::NotConnected),
        feedback_name_view(feedback_type@) is Some && !(client.state is Disconnected)
            && client.latest is None ==> r == Err::<String, BridgeError>(
            BridgeError::NoLatestMessage,
        ),
        match feedback_name_view(feedback_type@) {
            Some(ft) => !(client.state is Disconnected) ==> match crate::client_session::latest_view(
                client.latest,
            ) {
                Some((lid, lp)) => (r matches Ok(f) && (pmsg(f@) matches Some(
                    MessageView::FeedbackMessage { payload, .. },
                ) && payload.content == canned_reaction(ft) && payload.client_name
                    == bridge_client_name(*client) && payload.reply_to_message_id == lid
                    && payload.feedback_type == ft)),
                None => true,
            },
            None => true,
        },
{
    let ft = match parse_feedback_name(feedback_type) {
        Some(f) => f,
        None => { return Err(BridgeError::InvalidFeedbackType); },
    };
    if !client.is_connected() {
        return Err(BridgeError::NotConnected);
    }
    let latest = client.get_latest_message();
    let message_id = match latest {
        Some((id, _)) => id,
        None => { return Err(BridgeError::NoLatestMessage); },
    };
    let name = effective_client_name(client);
    let content = reaction_content(&ft);
    let message = Message::feedback_message(content, name, message_id, ft);
    proof {
        lemma_pmsg_complete(message@);
    }
    match client.prepare_send(&message) {
        Ok(f) => Ok(f),
        Err(_) => Err(BridgeError::NotConnected),
    }
}

/// The lowercase label of a priority, as the bridge state report uses it.
pub open spec fn priority_label(p: Priority) -> Seq<char> {
    match p {
        Priority::Normal => "normal"@,
        Priority::High => "high"@,
        Priority::Urgent => "urgent"@,
    }
}

fn priority_label_exec(p: &Priority) -> (r: String)
    ensures
        r@ == priority_label(*p),
{
    match p {
        Priority::Normal => "normal".to_owned(),
        Priority::High => "high".to_owned(),
        Priority::Urgent => "urgent".to_owned(),
    }
}

/// A point-in-time state report: whether a transport is held, the latest
/// cue if any, and the cached monitor list.
pub fn bridge_get_state(client: &ClientSession) -> (r: StreamDeckResponse)
    ensures
        r matches StreamDeckResponse::StateUpdate { connected, latest_message, monitors } && ({
            &&& connected == !(client.state is Disconnected)
            &&& monitors_view(monitors@) == monitors_view(client.monitors@)
            &&& match crate::client_session::latest_view(client.latest) {
                None => latest_message is None,
                Some((lid, lp)) => latest_message matches Some(l) && l.id@ == lid && l.content@
                    == lp.content && l.priority@ == priority_label(lp.priority)
                    && l.target_monitor_ids@ == lp.target_monitor_ids,
            }
        }),
{
    let connected = client.is_connected();
    let latest_message = match client.get_latest_message() {
        Some((id, p)) => Some(
            LatestMessageInfo {
                id,
                content: p.content,
                priority: priority_label_exec(&p.priority),
                target_monitor_ids: p.target_monitor_ids,
            },
        ),
        None => None,
    };
    let monitors = client.get_monitors();
    StreamDeckResponse::StateUpdate { connected, latest_message, monitors }
}

/// Serve one bridge request against the client session: the response to
/// write back to the bridge peer, and, for feedback requests that
/// succeeded, the frame to send to the server through the client's
/// transport.  A `ReactToLatest` before any cue arrived yields a failure
/// response and sends nothing.
pub fn bridge_handle_request(client: &ClientSession, req: StreamDeckRequest) -> (r: (
    StreamDeckResponse,
    Option<String>,
))
    ensures
        match req@ {
            SdRequestView::SendFeedback { content, feedback_type } => {
                if feedback_name_view(feedback_type) is Some && !(client.state is Disconnected) {
                    &&& r.0 matches StreamDeckResponse::Result { success, error } && success
                        && error is None
                    &&& r.1 matches Some(f) && (pmsg(f@) matches Some(
                        MessageView::FeedbackMessage { payload, .. },
                    ) && payload.content == content && payload.client_name == bridge_client_name(
                        *client,
                    ))
                } else {
                    (r.0 matches StreamDeckResponse::Result { success, error } && !success
                        && error is Some) && r.1 is None
                }
            },
            SdRequestView::ReactToLatest { feedback_type } => {
                if feedback_name_view(feedback_type) is Some && !(client.state is Disconnected)
                    && client.latest is Some {
                    &&& r.0 matches StreamDeckResponse::Result { success, error } && success
                        && error is None
                    &&& r.1 matches Some(f) && (pmsg(f@) matches Some(
                        MessageView::FeedbackMessage { .. },
                    ))
                } else {
                    (r.0 matches StreamDeckResponse::Result { success, error } && !success
                        && error is Some) && r.1 is None
                }
            },
            SdRequestView::GetState => r.0 is StateUpdate && r.1 is None,
        },
{
    match req {
        StreamDeckRequest::SendFeedback { content, feedback_type } => {
            match bridge_send_feedback(client, content, feedback_type.as_str()) {
                Ok(frame) => (StreamDeckResponse::success(), Some(frame)),
                Err(e) => (StreamDeckResponse::error(e.message()), None),
            }
        },
        StreamDeckRequest::ReactToLatest { feedback_type } => {
            match bridge_react_to_latest(client, feedback_type.as_str()) {
                Ok(frame) => (StreamDeckResponse::success(), Some(frame)),
                Err(e) => (StreamDeckResponse::error(e.message()), None),
            }
        },
        StreamDeckRequest::GetState => (bridge_get_state(client), None),
    }
}

} // verus!
