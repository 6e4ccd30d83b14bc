//! The wire form of protocol messages.
//!
//! A frame is one JSON object in canonical form:
//! `{"type":"<tag>","id":"…","timestamp":<ms>,"payload":{…}}`, where `Ping`
//! and `Pong` omit the payload member.  Tags are the snake-case variant
//! names; priorities and feedback types serialize as lowercase strings;
//! monitor lists keep their order.  [`ser_message`] defines the canonical
//! text of every message; the parser functions accept exactly those texts,
//! and the lemmas here prove both directions inverse to each other.

use vstd::prelude::*;
use crate::json::{
    is_digit, lemma_plit_complete, lemma_pnat_complete, lemma_pnat_sound, lemma_pjstr_complete,
    lemma_pjstr_sound, lemma_ser_nat_canonical, pi64, pjstr, plit, pnat, pu64, ser_i64, ser_jstr,
    ser_nat,
};
use crate::message::{
    ClientHelloView, FeedbackMessageView, KanpeMessageView, MessageView, ServerWelcomeView,
};
use crate::types::{FeedbackType, MonitorView, Priority};
use crate::json::{emit_i64, emit_jstr, emit_lit, emit_u64};
use crate::json::{parse_i64, parse_jstr, parse_lit, parse_u64, str_to_chars};
use crate::message::{
    ClientHelloPayload, ClearCommandPayload, FeedbackMessagePayload, FlashCommandPayload,
    KanpeMessagePayload, Message, MonitorAddedPayload, MonitorListSyncPayload,
    MonitorRemovedPayload, MonitorUpdatedPayload, ServerWelcomePayload,
};
use crate::message::monitors_view;
use crate::types::{opt_string_view, VirtualMonitor};

verus! {

// ---------------------------------------------------------------------------
// Fixed fragments: general facts
// ---------------------------------------------------------------------------

pub proof fn lemma_plit_sound(t: Seq<char>, l: Seq<char>)
    requires
        plit(t, l) is Some,
    ensures
        t == l + plit(t, l)->Some_0,
        t.len() == l.len() + plit(t, l)->Some_0.len(),
{
    let r = plit(t, l)->Some_0;
    assert(t =~= l + t.skip(l.len() as int));
}

/// A fragment cannot match where the input differs at some position.
pub proof fn lemma_lit_mismatch(t: Seq<char>, l: Seq<char>, k: int)
    requires
        0 <= k < l.len(),
        k < t.len(),
        t[k] != l[k],
    ensures
        plit(t, l) is None,
{
    if l.is_prefix_of(t) {
        assert(t.subrange(0, l.len() as int)[k] == t[k]);
    }
}

// ---------------------------------------------------------------------------
// Priorities and feedback types
// ---------------------------------------------------------------------------

pub open spec fn ser_priority(p: Priority) -> Seq<char> {
    match p {
        Priority::Normal => "\"normal\""@,
        Priority::High => "\"high\""@,
        Priority::Urgent => "\"urgent\""@,
    }
}

pub open spec fn ppriority(t: Seq<char>) -> Option<(Priority, Seq<char>)> {
    if plit(t, "\"normal\""@) is Some {
        Some((Priority::Normal, plit(t, "\"normal\""@)->Some_0))
    } else if plit(t, "\"high\""@) is Some {
        Some((Priority::High, plit(t, "\"high\""@)->Some_0))
    } else if plit(t, "\"urgent\""@) is Some {
        Some((Priority::Urgent, plit(t, "\"urgent\""@)->Some_0))
    } else {
        None
    }
}

pub proof fn lemma_ppriority_complete(p: Priority, rest: Seq<char>)
    ensures
        ppriority(ser_priority(p) + rest) == Some((p, rest)),
{
    reveal_strlit("\"normal\"");
    reveal_strlit("\"high\"");
    reveal_strlit("\"urgent\"");
    let t = ser_priority(p) + rest;
    lemma_plit_complete(ser_priority(p), rest);
    match p {
        Priority::Normal => {},
        Priority::High => {
            lemma_lit_mismatch(t, "\"normal\""@, 1);
        },
        Priority::Urgent => {
            lemma_lit_mismatch(t, "\"normal\""@, 1);
            lemma_lit_mismatch(t, "\"high\""@, 1);
        },
    }
}

pub proof fn lemma_ppriority_sound(t: Seq<char>)
    requires
        ppriority(t) is Some,
    ensures
        ({
            let (p, rest) = ppriority(t)->Some_0;
            &&& t == ser_priority(p) + rest
            &&& t.len() == ser_priority(p).len() + rest.len()
        }),
{
    if plit(t, "\"normal\""@) is Some {
        lemma_plit_sound(t, "\"normal\""@);
    } else if plit(t, "\"high\""@) is Some {
        lemma_plit_sound(t, "\"high\""@);
    } else {
        lemma_plit_sound(t, "\"urgent\""@);
    }
}

pub open spec fn ser_feedback(f: FeedbackType) -> Seq<char> {
    match f {
        FeedbackType::Ack => "\"ack\""@,
        FeedbackType::Question => "\"question\""@,
        FeedbackType::Issue => "\"issue\""@,
        FeedbackType::Info => "\"info\""@,
    }
}

pub open spec fn pfeedback(t: Seq<char>) -> Option<(FeedbackType, Seq<char>)> {
    if plit(t, "\"ack\""@) is Some {
        Some((FeedbackType::Ack, plit(t, "\"ack\""@)->Some_0))
    } else if plit(t, "\"question\""@) is Some {
        Some((FeedbackType::Question, plit(t, "\"question\""@)->Some_0))
    } else if plit(t, "\"issue\""@) is Some {
        Some((FeedbackType::Issue, plit(t, "\"issue\""@)->Some_0))
    } else if plit(t, "\"info\""@) is Some {
        Some((FeedbackType::Info, plit(t, "\"info\""@)->Some_0))
    } else {
        None
    }
}

pub proof fn lemma_pfeedback_complete(f: FeedbackType, rest: Seq<char>)
    ensures
        pfeedback(ser_feedback(f) + rest) == Some((f, rest)),
{
    reveal_strlit("\"ack\"");
    reveal_strlit("\"question\"");
    reveal_strlit("\"issue\"");
    reveal_strlit("\"info\"");
    let t = ser_feedback(f) + rest;
    lemma_plit_complete(ser_feedback(f), rest);
    match f {
        FeedbackType::Ack => {},
        FeedbackType::Question => {
            lemma_lit_mismatch(t, "\"ack\""@, 1);
        },
        FeedbackType::Issue => {
            lemma_lit_mismatch(t, "\"ack\""@, 1);
            lemma_lit_mismatch(t, "\"question\""@, 1);
        },
        FeedbackType::Info => {
            lemma_lit_mismatch(t, "\"ack\""@, 1);
            lemma_lit_mismatch(t, "\"question\""@, 1);
            lemma_lit_mismatch(t, "\"issue\""@, 2);
        },
    }
}

pub proof fn lemma_pfeedback_sound(t: Seq<char>)
    requires
        pfeedback(t) is Some,
    ensures
        ({
            let (f, rest) = pfeedback(t)->Some_0;
            &&& t == ser_feedback(f) + rest
            &&& t.len() == ser_feedback(f).len() + rest.len()
        }),
{
    if plit(t, "\"ack\""@) is Some {
        lemma_plit_sound(t, "\"ack\""@);
    } else if plit(t, "\"question\""@) is Some {
        lemma_plit_sound(t, "\"question\""@);
    } else if plit(t, "\"issue\""@) is Some {
        lemma_plit_sound(t, "\"issue\""@);
    } else {
        lemma_plit_sound(t, "\"info\""@);
    }
}

// ---------------------------------------------------------------------------
// Optional strings (a JSON string or `null`)
// ---------------------------------------------------------------------------

pub open spec fn ser_opt_str(o: Option<Seq<char>>) -> Seq<char> {
    match o {
        Some(s) => ser_jstr(s),
        None => "null"@,
    }
}

pub open spec fn popt_str(t: Seq<char>) -> Option<(Option<Seq<char>>, Seq<char>)> {
    if t.len() > 0 && t[0] == '"' {
        match pjstr(t) {
            Some((s, rest)) => Some((Some(s), rest)),
            None => None,
        }
    } else {
        match plit(t, "null"@) {
            Some(rest) => Some((None, rest)),
            None => None,
        }
    }
}

pub proof fn lemma_popt_str_complete(o: Option<Seq<char>>, rest: Seq<char>)
    ensures
        popt_str(ser_opt_str(o) + rest) == Some((o, rest)),
{
    let t = ser_opt_str(o) + rest;
    match o {
        Some(s) => {
            assert(t[0] == '"');
            lemma_pjstr_complete(s, rest);
        },
        None => {
            reveal_strlit("null");
            assert(t[0] == 'n');
            lemma_plit_complete("null"@, rest);
        },
    }
}

pub proof fn lemma_popt_str_sound(t: Seq<char>)
    requires
        popt_str(t) is Some,
    ensures
        ({
            let (o, rest) = popt_str(t)->Some_0;
            &&& t == ser_opt_str(o) + rest
            &&& t.len() == ser_opt_str(o).len() + rest.len()
        }),
{
    if t.len() > 0 && t[0] == '"' {
        lemma_pjstr_sound(t);
    } else {
        lemma_plit_sound(t, "null"@);
    }
}

// ---------------------------------------------------------------------------
// Lists of monitor identifiers
// ---------------------------------------------------------------------------

/// Elements after the first: `,<n>` repeated, then `]`.
pub open spec fn ser_u64_rest(l: Seq<u64>) -> Seq<char>
    decreases l.len(),
{
    if l.len() == 0 {
        "]"@
    } else {
        ","@ + ser_nat(l[0] as int) + ser_u64_rest(l.drop_first())
    }
}

pub open spec fn ser_u64_list(l: Seq<u64>) -> Seq<char> {
    if l.len() == 0 {
        "[]"@
    } else {
        "["@ + ser_nat(l[0] as int) + ser_u64_rest(l.drop_first())
    }
}

pub open spec fn pu64_list_rest(t: Seq<char>) -> Option<(Seq<u64>, Seq<char>)>
    decreases t.len(),
{
    if t.len() == 0 {
        None
    } else if t[0] == ']' {
        Some((Seq::empty(), t.skip(1)))
    } else if t[0] == ',' {
        match pu64(t.skip(1)) {
            Some((v, t2)) => if t2.len() < t.len() {
                match pu64_list_rest(t2) {
                    Some((l, rest)) => Some((seq![v] + l, rest)),
                    None => None,
                }
            } else {
                None
            },
            None => None,
        }
    } else {
        None
    }
}

pub open spec fn pu64_list(t: Seq<char>) -> Option<(Seq<u64>, Seq<char>)> {
    if t.len() >= 2 && t[0] == '[' && t[1] == ']' {
        Some((Seq::empty(), t.skip(2)))
    } else if t.len() >= 1 && t[0] == '[' {
        match pu64(t.skip(1)) {
            Some((v, t2)) => if t2.len() < t.len() {
                match pu64_list_rest(t2) {
                    Some((l, rest)) => Some((seq![v] + l, rest)),
                    None => None,
                }
            } else {
                None
            },
            None => None,
        }
    } else {
        None
    }
}

/// `ser_u64_rest` begins with `,` or `]`, never a digit.
pub proof fn lemma_ser_u64_rest_head(l: Seq<u64>)
    ensures
        ser_u64_rest(l).len() >= 1,
        ser_u64_rest(l)[0] == ']' || ser_u64_rest(l)[0] == ',',
        !is_digit(ser_u64_rest(l)[0]),
{
    reveal_strlit("]");
    reveal_strlit(",");
    if l.len() == 0 {
    } else {
        assert(ser_u64_rest(l)[0] == ","@[0]);
    }
}

pub proof fn lemma_pu64_list_rest_complete(l: Seq<u64>, rest: Seq<char>)
    ensures
        pu64_list_rest(ser_u64_rest(l) + rest) == Some((l, rest)),
    decreases l.len(),
{
    reveal_strlit("]");
    reveal_strlit(",");
    let t = ser_u64_rest(l) + rest;
    if l.len() == 0 {
        assert(t[0] == ']');
        assert(t.skip(1) =~= rest);
        assert(l =~= Seq::<u64>::empty());
    } else {
        let v = l[0];
        let l1 = l.drop_first();
        let z = ser_u64_rest(l1) + rest;
        assert(t =~= ","@ + (ser_nat(v as int) + z));
        assert(t[0] == ',');
        assert(t[0] != ']');
        assert(t.skip(1) =~= ser_nat(v as int) + z);
        lemma_ser_u64_rest_head(l1);
        lemma_pnat_complete(v as int, z);
        assert(pu64(t.skip(1)) == Some((v, z)));
        lemma_ser_nat_canonical(v as int);
        assert(z.len() < t.len());
        lemma_pu64_list_rest_complete(l1, rest);
        assert(seq![v] + l1 =~= l);
    }
}

pub proof fn lemma_pu64_list_complete(l: Seq<u64>, rest: Seq<char>)
    ensures
        pu64_list(ser_u64_list(l) + rest) == Some((l, rest)),
{
    reveal_strlit("[");
    reveal_strlit("[]");
    reveal_strlit("]");
    reveal_strlit(",");
    let t = ser_u64_list(l) + rest;
    if l.len() == 0 {
        assert(t[0] == '[' && t[1] == ']');
        assert(t.skip(2) =~= rest);
        assert(l =~= Seq::<u64>::empty());
    } else {
        let v = l[0];
        let l1 = l.drop_first();
        let z = ser_u64_rest(l1) + rest;
        assert(t =~= "["@ + (ser_nat(v as int) + z));
        assert(t[0] == '[');
        lemma_ser_nat_canonical(v as int);
        assert(t[1] != ']') by {
            assert(t[1] == ser_nat(v as int)[0]);
            assert(is_digit(ser_nat(v as int)[0]));
        }
        assert(t.skip(1) =~= ser_nat(v as int) + z);
        lemma_ser_u64_rest_head(l1);
        lemma_pnat_complete(v as int, z);
        assert(pu64(t.skip(1)) == Some((v, z)));
        assert(z.len() < t.len());
        lemma_pu64_list_rest_complete(l1, rest);
        assert(seq![v] + l1 =~= l);
    }
}

pub proof fn lemma_pu64_list_rest_sound(t: Seq<char>)
    requires
        pu64_list_rest(t) is Some,
    ensures
        ({
            let (l, rest) = pu64_list_rest(t)->Some_0;
            &&& t == ser_u64_rest(l) + rest
            &&& t.len() == ser_u64_rest(l).len() + rest.len()
        }),
    decreases t.len(),
{
    reveal_strlit("]");
    reveal_strlit(",");
    let (l, rest) = pu64_list_rest(t)->Some_0;
    if t[0] == ']' {
        assert(l =~= Seq::<u64>::empty());
        assert(t =~= "]"@ + t.skip(1));
    } else {
        let (v, t2) = pu64(t.skip(1))->Some_0;
        lemma_pnat_sound(t.skip(1));
        lemma_pu64_list_rest_sound(t2);
        let (l1, rest1) = pu64_list_rest(t2)->Some_0;
        assert(l == seq![v] + l1);
        assert(l.drop_first() =~= l1);
        assert(l[0] == v);
        assert(ser_u64_rest(l) == ","@ + ser_nat(v as int) + ser_u64_rest(l1));
        assert(t =~= seq![t[0]] + t.skip(1));
        assert(seq![t[0]] =~= ","@);
        assert(t =~= ser_u64_rest(l) + rest);
    }
}

// ---------------------------------------------------------------------------
// Monitors
// ---------------------------------------------------------------------------

pub open spec fn ser_monitor(m: MonitorView) -> Seq<char> {
    "{\"id\":"@ + ser_nat(m.id as int) + ",\"name\":"@ + ser_jstr(m.name) + ",\"description\":"@
        + ser_opt_str(m.description) + ",\"color\":"@ + ser_opt_str(m.color) + "}"@
}

#[verifier::opaque]
pub open spec fn pmonitor(t: Seq<char>) -> Option<(MonitorView, Seq<char>)> {
    match plit(t, "{\"id\":"@) {
        Some(t1) => match pu64(t1) {
            Some((id, t2)) => match plit(t2, ",\"name\":"@) {
                Some(t3) => match pjstr(t3) {
                    Some((name, t4)) => match plit(t4, ",\"description\":"@) {
                        Some(t5) => match popt_str(t5) {
                            Some((description, t6)) => match plit(t6, ",\"color\":"@) {
                                Some(t7) => match popt_str(t7) {
                                    Some((color, t8)) => match plit(t8, "}"@) {
                                        Some(t9) => Some(
                                            (MonitorView { id, name, description, color }, t9),
                                        ),
                                        None => None,
                                    },
                                    None => None,
                                },
                                None => None,
                            },
                            None => None,
                        },
                        None => None,
                    },
                    None => None,
                },
                None => None,
            },
            None => None,
        },
        None => None,
    }
}

pub proof fn lemma_pmonitor_complete(m: MonitorView, rest: Seq<char>)
    ensures
        pmonitor(ser_monitor(m) + rest) == Some((m, rest)),
{
    reveal(pmonitor);
    reveal_strlit("{\"id\":");
    reveal_strlit(",\"name\":");
    reveal_strlit(",\"description\":");
    reveal_strlit(",\"color\":");
    reveal_strlit("}");
    let t = ser_monitor(m) + rest;
    let x5 = "}"@ + rest;
    let x4 = ser_opt_str(m.color) + x5;
    let x3 = ",\"color\":"@ + x4;
    let x2 = ser_opt_str(m.description) + x3;
    let x1 = ",\"description\":"@ + x2;
    let x0 = ser_jstr(m.name) + x1;
    let w1 = ",\"name\":"@ + x0;
    let w0 = ser_nat(m.id as int) + w1;
    assert(t =~= "{\"id\":"@ + w0);
    lemma_plit_complete("{\"id\":"@, w0);
    lemma_ser_nat_canonical(m.id as int);
    assert(w1[0] == ',');
    assert(!is_digit(w1[0]));
    lemma_pnat_complete(m.id as int, w1);
    assert(pu64(w0) == Some((m.id, w1)));
    lemma_plit_complete(",\"name\":"@, x0);
    lemma_pjstr_complete(m.name, x1);
    lemma_plit_complete(",\"description\":"@, x2);
    lemma_popt_str_complete(m.description, x3);
    lemma_plit_complete(",\"color\":"@, x4);
    lemma_popt_str_complete(m.color, x5);
    lemma_plit_complete("}"@, rest);
    assert(pmonitor(t) == Some(
        (MonitorView { id: m.id, name: m.name, description: m.description, color: m.color }, rest),
    ));
    assert(MonitorView { id: m.id, name: m.name, description: m.description, color: m.color }
        == m);
}

proof fn lemma_monitor_recompose(
    t: Seq<char>,
    t1: Seq<char>,
    t2: Seq<char>,
    t3: Seq<char>,
    t4: Seq<char>,
    t5: Seq<char>,
    t6: Seq<char>,
    t7: Seq<char>,
    t8: Seq<char>,
    m: MonitorView,
    rest: Seq<char>,
)
    requires
        t == "{\"id\":"@ + t1,
        t1 == ser_nat(m.id as int) + t2,
        t2 == ",\"name\":"@ + t3,
        t3 == ser_jstr(m.name) + t4,
        t4 == ",\"description\":"@ + t5,
        t5 == ser_opt_str(m.description) + t6,
        t6 == ",\"color\":"@ + t7,
        t7 == ser_opt_str(m.color) + t8,
        t8 == "}"@ + rest,
    ensures
        t == ser_monitor(m) + rest,
        t.len() == ser_monitor(m).len() + rest.len(),
{
    assert(t =~= ser_monitor(m) + rest);
}

pub proof fn lemma_pmonitor_sound(t: Seq<char>)
    requires
        pmonitor(t) is Some,
    ensures
        ({
            let (m, rest) = pmonitor(t)->Some_0;
            &&& t == ser_monitor(m) + rest
            &&& t.len() == ser_monitor(m).len() + rest.len()
        }),
{
    reveal(pmonitor);
    let (m, rest) = pmonitor(t)->Some_0;
    let t1 = plit(t, "{\"id\":"@)->Some_0;
    lemma_plit_sound(t, "{\"id\":"@);
    let (id, t2) = pu64(t1)->Some_0;
    lemma_pnat_sound(t1);
    let t3 = plit(t2, ",\"name\":"@)->Some_0;
    lemma_plit_sound(t2, ",\"name\":"@);
    let (name, t4) = pjstr(t3)->Some_0;
    lemma_pjstr_sound(t3);
    let t5 = plit(t4, ",\"description\":"@)->Some_0;
    lemma_plit_sound(t4, ",\"description\":"@);
    let (description, t6) = popt_str(t5)->Some_0;
    lemma_popt_str_sound(t5);
    let t7 = plit(t6, ",\"color\":"@)->Some_0;
    lemma_plit_sound(t6, ",\"color\":"@);
    let (color, t8) = popt_str(t7)->Some_0;
    lemma_popt_str_sound(t7);
    let t9 = plit(t8, "}"@)->Some_0;
    lemma_plit_sound(t8, "}"@);
    assert(m.id == id && m.name == name && m.description == description && m.color == color);
    lemma_monitor_recompose(t, t1, t2, t3, t4, t5, t6, t7, t8, m, rest);
}

/// `ser_monitor` begins with `{`.
pub proof fn lemma_ser_monitor_head(m: MonitorView)
    ensures
        ser_monitor(m).len() >= 1,
        ser_monitor(m)[0] == '{',
{
    reveal_strlit("{\"id\":");
    assert(ser_monitor(m)[0] == "{\"id\":"@[0]);
}

// ---------------------------------------------------------------------------
// Lists of monitors
// ---------------------------------------------------------------------------

pub open spec fn ser_mon_rest(l: Seq<MonitorView>) -> Seq<char>
    decreases l.len(),
{
    if l.len() == 0 {
        "]"@
    } else {
        ","@ + ser_monitor(l[0]) + ser_mon_rest(l.drop_first())
    }
}

pub open spec fn ser_mon_list(l: Seq<MonitorView>) -> Seq<char> {
    if l.len() == 0 {
        "[]"@
    } else {
        "["@ + ser_monitor(l[0]) + ser_mon_rest(l.drop_first())
    }
}

pub open spec fn pmon_list_rest(t: Seq<char>) -> Option<(Seq<MonitorView>, Seq<char>)>
    decreases t.len(),
{
    if t.len() == 0 {
        None
    } else if t[0] == ']' {
        Some((Seq::empty(), t.skip(1)))
    } else if t[0] == ',' {
        match pmonitor(t.skip(1)) {
            Some((m, t2)) => if t2.len() < t.len() {
                match pmon_list_rest(t2) {
                    Some((l, rest)) => Some((seq![m] + l, rest)),
                    None => None,
                }
            } else {
                None
            },
            None => None,
        }
    } else {
        None
    }
}

pub open spec fn pmon_list(t: Seq<char>) -> Option<(Seq<MonitorView>, Seq<char>)> {
    if t.len() >= 2 && t[0] == '[' && t[1] == ']' {
        Some((Seq::empty(), t.skip(2)))
    } else if t.len() >= 1 && t[0] == '[' {
        match pmonitor(t.skip(1)) {
            Some((m, t2)) => if t2.len() < t.len() {
                match pmon_list_rest(t2) {
                    Some((l, rest)) => Some((seq![m] + l, rest)),
                    None => None,
                }
            } else {
                None
            },
            None => None,
        }
    } else {
        None
    }
}

#[verifier::rlimit(100)]
pub proof fn lemma_pmon_list_rest_complete(l: Seq<MonitorView>, rest: Seq<char>)
    ensures
        pmon_list_rest(ser_mon_rest(l) + rest) == Some((l, rest)),
    decreases l.len(),
{
    reveal_strlit("]");
    reveal_strlit(",");
    let t = ser_mon_rest(l) + rest;
    if l.len() == 0 {
        assert(t[0] == ']');
        assert(t.skip(1) =~= rest);
        assert(l =~= Seq::<MonitorView>::empty());
    } else {
        let m = l[0];
        let l1 = l.drop_first();
        let z = ser_mon_rest(l1) + rest;
        assert(t =~= ","@ + (ser_monitor(m) + z));
        assert(t[0] == ',');
        assert(t[0] != ']');
        assert(t.skip(1) =~= ser_monitor(m) + z);
        lemma_pmonitor_complete(m, z);
        lemma_ser_monitor_head(m);
        assert(z.len() < t.len());
        lemma_pmon_list_rest_complete(l1, rest);
        assert(seq![m] + l1 =~= l);
    }
}

#[verifier::rlimit(100)]
pub proof fn lemma_pmon_list_complete(l: Seq<MonitorView>, rest: Seq<char>)
    ensures
        pmon_list(ser_mon_list(l) + rest) == Some((l, rest)),
{
    reveal_strlit("[");
    reveal_strlit("[]");
    reveal_strlit("]");
    let t = ser_mon_list(l) + rest;
    if l.len() == 0 {
        assert(t[0] == '[' && t[1] == ']');
        assert(t.skip(2) =~= rest);
        assert(l =~= Seq::<MonitorView>::empty());
    } else {
        let m = l[0];
        let l1 = l.drop_first();
        let z = ser_mon_rest(l1) + rest;
        assert(t =~= "["@ + (ser_monitor(m) + z));
        assert(t[0] == '[');
        lemma_ser_monitor_head(m);
        assert(t[1] != ']') by {
            assert(t[1] == ser_monitor(m)[0]);
        }
        assert(t.skip(1) =~= ser_monitor(m) + z);
        lemma_pmonitor_complete(m, z);
        assert(z.len() < t.len());
        lemma_pmon_list_rest_complete(l1, rest);
        assert(seq![m] + l1 =~= l);
    }
}

#[verifier::rlimit(100)]
pub proof fn lemma_pmon_list_rest_sound(t: Seq<char>)
    requires
        pmon_list_rest(t) is Some,
    ensures
        ({
            let (l, rest) = pmon_list_rest(t)->Some_0;
            &&& t == ser_mon_rest(l) + rest
            &&& t.len() == ser_mon_rest(l).len() + rest.len()
        }),
    decreases t.len(),
{
    reveal_strlit("]");
    reveal_strlit(",");
    let (l, rest) = pmon_list_rest(t)->Some_0;
    if t[0] == ']' {
        assert(l =~= Seq::<MonitorView>::empty());
        assert(t =~= "]"@ + t.skip(1));
    } else {
        let (m, t2) = pmonitor(t.skip(1))->Some_0;
        lemma_pmonitor_sound(t.skip(1));
        lemma_pmon_list_rest_sound(t2);
        let (l1, rest1) = pmon_list_rest(t2)->Some_0;
        assert(l == seq![m] + l1);
        assert(l.drop_first() =~= l1);
        assert(l[0] == m);
        assert(ser_mon_rest(l) == ","@ + ser_monitor(m) + ser_mon_rest(l1));
        assert(t =~= seq![t[0]] + t.skip(1));
        assert(seq![t[0]] =~= ","@);
        assert(t =~= ser_mon_rest(l) + rest);
    }
}

#[verifier::rlimit(100)]
pub proof fn lemma_pmon_list_sound(t: Seq<char>)
    requires
        pmon_list(t) is Some,
    ensures
        ({
            let (l, rest) = pmon_list(t)->Some_0;
            &&& t == ser_mon_list(l) + rest
            &&& t.len() == ser_mon_list(l).len() + rest.len()
        }),
{
    reveal_strlit("[");
    reveal_strlit("[]");
    let (l, rest) = pmon_list(t)->Some_0;
    if t.len() >= 2 && t[0] == '[' && t[1] == ']' {
        assert(l =~= Seq::<MonitorView>::empty());
        assert(t =~= "[]"@ + t.skip(2));
    } else {
        let (m, t2) = pmonitor(t.skip(1))->Some_0;
        lemma_pmonitor_sound(t.skip(1));
        lemma_pmon_list_rest_sound(t2);
        let (l1, rest1) = pmon_list_rest(t2)->Some_0;
        assert(l == seq![m] + l1);
        assert(l.drop_first() =~= l1);
        assert(l[0] == m);
        assert(ser_mon_list(l) == "["@ + ser_monitor(m) + ser_mon_rest(l1));
        assert(t =~= seq![t[0]] + t.skip(1));
        assert(seq![t[0]] =~= "["@);
        assert(t =~= ser_mon_list(l) + rest);
    }
}

pub proof fn lemma_pu64_list_sound(t: Seq<char>)
    requires
        pu64_list(t) is Some,
    ensures
        ({
            let (l, rest) = pu64_list(t)->Some_0;
            &&& t == ser_u64_list(l) + rest
            &&& t.len() == ser_u64_list(l).len() + rest.len()
        }),
{
    reveal_strlit("[");
    reveal_strlit("[]");
    let (l, rest) = pu64_list(t)->Some_0;
    if t.len() >= 2 && t[0] == '[' && t[1] == ']' {
        assert(l =~= Seq::<u64>::empty());
        assert(t =~= "[]"@ + t.skip(2));
    } else {
        let (v, t2) = pu64(t.skip(1))->Some_0;
        lemma_pnat_sound(t.skip(1));
        lemma_pu64_list_rest_sound(t2);
        let (l1, rest1) = pu64_list_rest(t2)->Some_0;
        assert(l == seq![v] + l1);
        assert(l.drop_first() =~= l1);
        assert(l[0] == v);
        assert(ser_u64_list(l) == "["@ + ser_nat(v as int) + ser_u64_rest(l1));
        assert(t =~= seq![t[0]] + t.skip(1));
        assert(seq![t[0]] =~= "["@);
        assert(t =~= ser_u64_list(l) + rest);
    }
}


// ---------------------------------------------------------------------------
// Signed numbers
// ---------------------------------------------------------------------------

pub proof fn lemma_pi64_complete(n: i64, rest: Seq<char>)
    requires
        rest.len() == 0 || !is_digit(rest[0]),
    ensures
        pi64(ser_i64(n as int) + rest) == Some((n, rest)),
{
    let t = ser_i64(n as int) + rest;
    if n >= 0 {
        lemma_ser_nat_canonical(n as int);
        assert(t[0] == ser_nat(n as int)[0]);
        assert(t[0] != '-');
        lemma_pnat_complete(n as int, rest);
        assert(t =~= ser_nat(n as int) + rest);
    } else {
        assert(t[0] == '-');
        assert(t.skip(1) =~= ser_nat(-(n as int)) + rest);
        lemma_pnat_complete(-(n as int), rest);
        assert(1 <= -(n as int) <= 0x8000_0000_0000_0000);
        assert((-(-(n as int))) as i64 == n);
    }
}

pub proof fn lemma_pi64_sound(t: Seq<char>)
    requires
        pi64(t) is Some,
    ensures
        ({
            let (v, rest) = pi64(t)->Some_0;
            &&& t == ser_i64(v as int) + rest
            &&& t.len() == ser_i64(v as int).len() + rest.len()
            &&& rest.len() == 0 || !is_digit(rest[0])
        }),
{
    let (v, rest) = pi64(t)->Some_0;
    if t.len() > 0 && t[0] == '-' {
        lemma_pnat_sound(t.skip(1));
        let (m, r) = pnat(t.skip(1))->Some_0;
        assert(v as int == -m);
        assert(ser_i64(v as int) == seq!['-'] + ser_nat(m));
        assert(t =~= seq![t[0]] + t.skip(1));
        assert(seq![t[0]] =~= seq!['-']);
        assert(t =~= ser_i64(v as int) + rest);
    } else {
        lemma_pnat_sound(t);
        assert(v as int >= 0);
        assert(ser_i64(v as int) == ser_nat(v as int));
    }
}

// ---------------------------------------------------------------------------
// The message envelope and body
// ---------------------------------------------------------------------------

/// The shared `"<id>","timestamp":<ms>` part of every frame.
pub open spec fn ser_env(id: Seq<char>, ts: i64) -> Seq<char> {
    ser_jstr(id) + ",\"timestamp\":"@ + ser_i64(ts as int)
}

pub open spec fn penv(t: Seq<char>) -> Option<((Seq<char>, i64), Seq<char>)> {
    match pjstr(t) {
        Some((id, t1)) => match plit(t1, ",\"timestamp\":"@) {
            Some(t2) => match pi64(t2) {
                Some((ts, t3)) => Some(((id, ts), t3)),
                None => None,
            },
            None => None,
        },
        None => None,
    }
}

pub proof fn lemma_penv_complete(id: Seq<char>, ts: i64, rest: Seq<char>)
    requires
        rest.len() == 0 || !is_digit(rest[0]),
    ensures
        penv(ser_env(id, ts) + rest) == Some(((id, ts), rest)),
{
    let t = ser_env(id, ts) + rest;
    let x1 = ",\"timestamp\":"@ + (ser_i64(ts as int) + rest);
    assert(t =~= ser_jstr(id) + x1);
    lemma_pjstr_complete(id, x1);
    lemma_plit_complete(",\"timestamp\":"@, ser_i64(ts as int) + rest);
    lemma_pi64_complete(ts, rest);
}

pub proof fn lemma_penv_sound(t: Seq<char>)
    requires
        penv(t) is Some,
    ensures
        ({
            let ((id, ts), rest) = penv(t)->Some_0;
            &&& t == ser_env(id, ts) + rest
            &&& t.len() == ser_env(id, ts).len() + rest.len()
            &&& rest.len() == 0 || !is_digit(rest[0])
        }),
{
    let ((id, ts), rest) = penv(t)->Some_0;
    lemma_pjstr_sound(t);
    let (id0, t1) = pjstr(t)->Some_0;
    lemma_plit_sound(t1, ",\"timestamp\":"@);
    let t2 = plit(t1, ",\"timestamp\":"@)->Some_0;
    lemma_pi64_sound(t2);
    assert(t =~= ser_env(id, ts) + rest);
}

/// The body of a frame: everything after `{"type":"`.
#[verifier::opaque]
pub open spec fn ser_msg_body(m: MessageView) -> Seq<char> {
    match m {
        MessageView::ClientHello { id, timestamp, payload } => "client_hello\",\"id\":"@
            + ser_env(id, timestamp) + ",\"payload\":{\"client_name\":"@ + ser_jstr(
            payload.client_name,
        ) + ",\"display_monitor_ids\":"@ + ser_u64_list(payload.display_monitor_ids) + "}}"@,
        MessageView::ServerWelcome { id, timestamp, payload } => "server_welcome\",\"id\":"@
            + ser_env(id, timestamp) + ",\"payload\":{\"server_name\":"@ + ser_jstr(
            payload.server_name,
        ) + ",\"assigned_client_id\":"@ + ser_jstr(payload.assigned_client_id) + "}}"@,
        MessageView::KanpeMessage { id, timestamp, payload } => "kanpe_message\",\"id\":"@
            + ser_env(id, timestamp) + ",\"payload\":{\"content\":"@ + ser_jstr(payload.content)
            + ",\"target_monitor_ids\":"@ + ser_u64_list(payload.target_monitor_ids)
            + ",\"priority\":"@ + ser_priority(payload.priority) + "}}"@,
        MessageView::FeedbackMessage { id, timestamp, payload } => "feedback_message\",\"id\":"@
            + ser_env(id, timestamp) + ",\"payload\":{\"content\":"@ + ser_jstr(payload.content)
            + ",\"client_name\":"@ + ser_jstr(payload.client_name)
            + ",\"reply_to_message_id\":"@ + ser_jstr(payload.reply_to_message_id)
            + ",\"feedback_type\":"@ + ser_feedback(payload.feedback_type) + "}}"@,
        MessageView::Ping { id, timestamp } => "ping\",\"id\":"@ + ser_env(id, timestamp) + "}"@,
        MessageView::Pong { id, timestamp } => "pong\",\"id\":"@ + ser_env(id, timestamp) + "}"@,
        MessageView::MonitorListSync { id, timestamp, monitors } => "monitor_list_sync\",\"id\":"@
            + ser_env(id, timestamp) + ",\"payload\":{\"monitors\":"@ + ser_mon_list(monitors)
            + "}}"@,
        MessageView::MonitorAdded { id, timestamp, monitor } => "monitor_added\",\"id\":"@
            + ser_env(id, timestamp) + ",\"payload\":{\"monitor\":"@ + ser_monitor(monitor)
            + "}}"@,
        MessageView::MonitorRemoved { id, timestamp, monitor_id } => "monitor_removed\",\"id\":"@
            + ser_env(id, timestamp) + ",\"payload\":{\"monitor_id\":"@ + ser_nat(
            monitor_id as int,
        ) + "}}"@,
        MessageView::MonitorUpdated { id, timestamp, monitor } => "monitor_updated\",\"id\":"@
            + ser_env(id, timestamp) + ",\"payload\":{\"monitor\":"@ + ser_monitor(monitor)
            + "}}"@,
        MessageView::FlashCommand { id, timestamp, target_monitor_ids } => "flash_command\",\"id\":"@
            + ser_env(id, timestamp) + ",\"payload\":{\"target_monitor_ids\":"@ + ser_u64_list(
            target_monitor_ids,
        ) + "}}"@,
        MessageView::ClearCommand { id, timestamp, target_monitor_ids } => "clear_command\",\"id\":"@
            + ser_env(id, timestamp) + ",\"payload\":{\"target_monitor_ids\":"@ + ser_u64_list(
            target_monitor_ids,
        ) + "}}"@,
    }
}

/// The canonical wire text of a message.
pub open spec fn ser_message(m: MessageView) -> Seq<char> {
    "{\"type\":\""@ + ser_msg_body(m)
}

// ---------------------------------------------------------------------------
// Parsing whole frames
// ---------------------------------------------------------------------------

#[verifier::opaque]
pub open spec fn pmsg_client_hello(t: Seq<char>) -> Option<MessageView> {
    match penv(t) {
        Some(((id, ts), t1)) => match plit(t1, ",\"payload\":{\"client_name\":"@) {
            Some(t2) => match pjstr(t2) {
                Some((nm, t3)) => match plit(t3, ",\"display_monitor_ids\":"@) {
                    Some(t4) => match pu64_list(t4) {
                        Some((ids, t5)) => match plit(t5, "}}"@) {
                            Some(t6) => if t6.len() == 0 {
                                Some(
                                    MessageView::ClientHello {
                                        id,
                                        timestamp: ts,
                                        payload: ClientHelloView {
                                            client_name: nm,
                                            display_monitor_ids: ids,
                                        },
                                    },
                                )
                            } else {
                                None
                            },
                            None => None,
                        },
                        None => None,
                    },
                    None => None,
                },
                None => None,
            },
            None => None,
        },
        None => None,
    }
}

#[verifier::opaque]
pub open spec fn pmsg_server_welcome(t: Seq<char>) -> Option<MessageView> {
    match penv(t) {
        Some(((id, ts), t1)) => match plit(t1, ",\"payload\":{\"server_name\":"@) {
            Some(t2) => match pjstr(t2) {
                Some((nm, t3)) => match plit(t3, ",\"assigned_client_id\":"@) {
                    Some(t4) => match pjstr(t4) {
                        Some((cid, t5)) => match plit(t5, "}}"@) {
                            Some(t6) => if t6.len() == 0 {
                                Some(
                                    MessageView::ServerWelcome {
                                        id,
                                        timestamp: ts,
                                        payload: ServerWelcomeView {
                                            server_name: nm,
                                            assigned_client_id: cid,
                                        },
                                    },
                                )
                            } else {
                                None
                            },
                            None => None,
                        },
                        None => None,
                    },
                    None => None,
                },
                None => None,
            },
            None => None,
        },
        None => None,
    }
}

#[verifier::opaque]
pub open spec fn pmsg_kanpe(t: Seq<char>) -> Option<MessageView> {
    match penv(t) {
        Some(((id, ts), t1)) => match plit(t1, ",\"payload\":{\"content\":"@) {
            Some(t2) => match pjstr(t2) {
                Some((content, t3)) => match plit(t3, ",\"target_monitor_ids\":"@) {
                    Some(t4) => match pu64_list(t4) {
                        Some((ids, t5)) => match plit(t5, ",\"priority\":"@) {
                            Some(t6) => match ppriority(t6) {
                                Some((pri, t7)) => match plit(t7, "}}"@) {
                                    Some(t8) => if t8.len() == 0 {
                                        Some(
                                            MessageView::KanpeMessage {
                                                id,
                                                timestamp: ts,
                                                payload: KanpeMessageView {
                                                    content,
                                                    target_monitor_ids: ids,
                                                    priority: pri,
                                                },
                                            },
                                        )
                                    } else {
                                        None
                                    },
                                    None => None,
                                },
                                None => None,
                            },
                            None => None,
                        },
                        None => None,
                    },
                    None => None,
                },
                None => None,
            },
            None => None,
        },
        None => None,
    }
}

#[verifier::opaque]
pub open spec fn pmsg_feedback(t: Seq<char>) -> Option<MessageView> {
    match penv(t) {
        Some(((id, ts), t1)) => match plit(t1, ",\"payload\":{\"content\":"@) {
            Some(t2) => match pjstr(t2) {
                Some((content, t3)) => match plit(t3, ",\"client_name\":"@) {
                    Some(t4) => match pjstr(t4) {
                        Some((nm, t5)) => match plit(t5, ",\"reply_to_message_id\":"@) {
                            Some(t6) => match pjstr(t6) {
                                Some((reply, t7)) => match plit(t7, ",\"feedback_type\":"@) {
                                    Some(t8) => match pfeedback(t8) {
                                        Some((ft, t9)) => match plit(t9, "}}"@) {
                                            Some(t10) => if t10.len() == 0 {
                                                Some(
                                                    MessageView::FeedbackMessage {
                                                        id,
                                                        timestamp: ts,
                                                        payload: FeedbackMessageView {
                                                            content,
                                                            client_name: nm,
                                                            reply_to_message_id: reply,
                                                            feedback_type: ft,
                                                        },
                                                    },
                                                )
                                            } else {
                                                None
                                            },
                                            None => None,
                                        },
                                        None => None,
                                    },
                                    None => None,
                                },
                                None => None,
                            },
                            None => None,
                        },
                        None => None,
                    },
                    None => None,
                },
                None => None,
            },
            None => None,
        },
        None => None,
    }
}

#[verifier::opaque]
pub open spec fn pmsg_ping(t: Seq<char>) -> Option<MessageView> {
    match penv(t) {
        Some(((id, ts), t1)) => match plit(t1, "}"@) {
            Some(t2) => if t2.len() == 0 {
                Some(MessageView::Ping { id, timestamp: ts })
            } else {
                None
            },
            None => None,
        },
        None => None,
    }
}

#[verifier::opaque]
pub open spec fn pmsg_pong(t: Seq<char>) -> Option<MessageView> {
    match penv(t) {
        Some(((id, ts), t1)) => match plit(t1, "}"@) {
            Some(t2) => if t2.len() == 0 {
                Some(MessageView::Pong { id, timestamp: ts })
            } else {
                None
            },
            None => None,
        },
        None => None,
    }
}

#[verifier::opaque]
pub open spec fn pmsg_monitor_list_sync(t: Seq<char>) -> Option<MessageView> {
    match penv(t) {
        Some(((id, ts), t1)) => match plit(t1, ",\"payload\":{\"monitors\":"@) {
            Some(t2) => match pmon_list(t2) {
                Some((ms, t3)) => match plit(t3, "}}"@) {
                    Some(t4) => if t4.len() == 0 {
                        Some(MessageView::MonitorListSync { id, timestamp: ts, monitors: ms })
                    } else {
                        None
                    },
                    None => None,
                },
                None => None,
            },
            None => None,
        },
        None => None,
    }
}

#[verifier::opaque]
pub open spec fn pmsg_monitor_added(t: Seq<char>) -> Option<MessageView> {
    match penv(t) {
        Some(((id, ts), t1)) => match plit(t1, ",\"payload\":{\"monitor\":"@) {
            Some(t2) => match pmonitor(t2) {
                Some((m, t3)) => match plit(t3, "}}"@) {
                    Some(t4) => if t4.len() == 0 {
                        Some(MessageView::MonitorAdded { id, timestamp: ts, monitor: m })
                    } else {
                        None
                    },
                    None => None,
                },
                None => None,
            },
            None => None,
        },
        None => None,
    }
}

#[verifier::opaque]
pub open spec fn pmsg_monitor_removed(t: Seq<char>) -> Option<MessageView> {
    match penv(t) {
        Some(((id, ts), t1)) => match plit(t1, ",\"payload\":{\"monitor_id\":"@) {
            Some(t2) => match pu64(t2) {
                Some((mid, t3)) => match plit(t3, "}}"@) {
                    Some(t4) => if t4.len() == 0 {
                        Some(MessageView::MonitorRemoved { id, timestamp: ts, monitor_id: mid })
                    } else {
                        None
                    },
                    None => None,
                },
                None => None,
            },
            None => None,
        },
        None => None,
    }
}

#[verifier::opaque]
pub open spec fn pmsg_monitor_updated(t: Seq<char>) -> Option<MessageView> {
    match penv(t) {
        Some(((id, ts), t1)) => match plit(t1, ",\"payload\":{\"monitor\":"@) {
            Some(t2) => match pmonitor(t2) {
                Some((m, t3)) => match plit(t3, "}}"@) {
                    Some(t4) => if t4.len() == 0 {
                        Some(MessageView::MonitorUpdated { id, timestamp: ts, monitor: m })
                    } else {
                        None
                    },
                    None => None,
                },
                None => None,
            },
            None => None,
        },
        None => None,
    }
}

#[verifier::opaque]
pub open spec fn pmsg_flash(t: Seq<char>) -> Option<MessageView> {
    match penv(t) {
        Some(((id, ts), t1)) => match plit(t1, ",\"payload\":{\"target_monitor_ids\":"@) {
            Some(t2) => match pu64_list(t2) {
                Some((ids, t3)) => match plit(t3, "}}"@) {
                    Some(t4) => if t4.len() == 0 {
                        Some(
                            MessageView::FlashCommand {
                                id,
                                timestamp: ts,
                                target_monitor_ids: ids,
                            },
                        )
                    } else {
                        None
                    },
                    None => None,
                },
                None => None,
            },
            None => None,
        },
        None => None,
    }
}

#[verifier::opaque]
pub open spec fn pmsg_clear(t: Seq<char>) -> Option<MessageView> {
    match penv(t) {
        Some(((id, ts), t1)) => match plit(t1, ",\"payload\":{\"target_monitor_ids\":"@) {
            Some(t2) => match pu64_list(t2) {
                Some((ids, t3)) => match plit(t3, "}}"@) {
                    Some(t4) => if t4.len() == 0 {
                        Some(
                            MessageView::ClearCommand {
                                id,
                                timestamp: ts,
                                target_monitor_ids: ids,
                            },
                        )
                    } else {
                        None
                    },
                    None => None,
                },
                None => None,
            },
            None => None,
        },
        None => None,
    }
}

/// Parse one whole frame: exactly the canonical serialization of a message.
#[verifier::opaque]
pub open spec fn pmsg(t: Seq<char>) -> Option<MessageView> {
    match plit(t, "{\"type\":\""@) {
        Some(t0) => if plit(t0, "client_hello\",\"id\":"@) is Some {
            pmsg_client_hello(plit(t0, "client_hello\",\"id\":"@)->Some_0)
        } else if plit(t0, "server_welcome\",\"id\":"@) is Some {
            pmsg_server_welcome(plit(t0, "server_welcome\",\"id\":"@)->Some_0)
        } else if plit(t0, "kanpe_message\",\"id\":"@) is Some {
            pmsg_kanpe(plit(t0, "kanpe_message\",\"id\":"@)->Some_0)
        } else if plit(t0, "feedback_message\",\"id\":"@) is Some {
            pmsg_feedback(plit(t0, "feedback_message\",\"id\":"@)->Some_0)
        } else if plit(t0, "ping\",\"id\":"@) is Some {
            pmsg_ping(plit(t0, "ping\",\"id\":"@)->Some_0)
        } else if plit(t0, "pong\",\"id\":"@) is Some {
            pmsg_pong(plit(t0, "pong\",\"id\":"@)->Some_0)
        } else if plit(t0, "monitor_list_sync\",\"id\":"@) is Some {
            pmsg_monitor_list_sync(plit(t0, "monitor_list_sync\",\"id\":"@)->Some_0)
        } else if plit(t0, "monitor_added\",\"id\":"@) is Some {
            pmsg_monitor_added(plit(t0, "monitor_added\",\"id\":"@)->Some_0)
        } else if plit(t0, "monitor_removed\",\"id\":"@) is Some {
            pmsg_monitor_removed(plit(t0, "monitor_removed\",\"id\":"@)->Some_0)
        } else if plit(t0, "monitor_updated\",\"id\":"@) is Some {
            pmsg_monitor_updated(plit(t0, "monitor_updated\",\"id\":"@)->Some_0)
        } else if plit(t0, "flash_command\",\"id\":"@) is Some {
            pmsg_flash(plit(t0, "flash_command\",\"id\":"@)->Some_0)
        } else if plit(t0, "clear_command\",\"id\":"@) is Some {
            pmsg_clear(plit(t0, "clear_command\",\"id\":"@)->Some_0)
        } else {
            None
        },
        None => None,
    }
}


// ---------------------------------------------------------------------------
// Completeness: every canonical frame parses back to its message
// ---------------------------------------------------------------------------

proof fn lemma_ch_complete(id: Seq<char>, ts: i64, p: ClientHelloView)
    ensures
        pmsg_client_hello(
            ser_env(id, ts) + (",\"payload\":{\"client_name\":"@ + (ser_jstr(p.client_name) + (
            ",\"display_monitor_ids\":"@ + (ser_u64_list(p.display_monitor_ids) + "}}"@)))),
        ) == Some(MessageView::ClientHello { id, timestamp: ts, payload: p }),
{
    reveal(pmsg_client_hello);
    reveal_strlit(",\"payload\":{\"client_name\":");
    reveal_strlit(",\"display_monitor_ids\":");
    reveal_strlit("}}");
    let x2 = ",\"display_monitor_ids\":"@ + (ser_u64_list(p.display_monitor_ids) + "}}"@);
    let x1 = ",\"payload\":{\"client_name\":"@ + (ser_jstr(p.client_name) + x2);
    lemma_penv_complete(id, ts, x1);
    lemma_plit_complete(",\"payload\":{\"client_name\":"@, ser_jstr(p.client_name) + x2);
    lemma_pjstr_complete(p.client_name, x2);
    lemma_plit_complete(",\"display_monitor_ids\":"@, ser_u64_list(p.display_monitor_ids) + "}}"@);
    lemma_pu64_list_complete(p.display_monitor_ids, "}}"@);
    assert("}}"@ =~= "}}"@ + Seq::<char>::empty());
    lemma_plit_complete("}}"@, Seq::<char>::empty());
    assert(ClientHelloView { client_name: p.client_name, display_monitor_ids: p.display_monitor_ids } == p);
}

proof fn lemma_sw_complete(id: Seq<char>, ts: i64, p: ServerWelcomeView)
    ensures
        pmsg_server_welcome(
            ser_env(id, ts) + (",\"payload\":{\"server_name\":"@ + (ser_jstr(p.server_name) + (
            ",\"assigned_client_id\":"@ + (ser_jstr(p.assigned_client_id) + "}}"@)))),
        ) == Some(MessageView::ServerWelcome { id, timestamp: ts, payload: p }),
{
    reveal(pmsg_server_welcome);
    reveal_strlit(",\"payload\":{\"server_name\":");
    reveal_strlit(",\"assigned_client_id\":");
    reveal_strlit("}}");
    let x2 = ",\"assigned_client_id\":"@ + (ser_jstr(p.assigned_client_id) + "}}"@);
    let x1 = ",\"payload\":{\"server_name\":"@ + (ser_jstr(p.server_name) + x2);
    lemma_penv_complete(id, ts, x1);
    lemma_plit_complete(",\"payload\":{\"server_name\":"@, ser_jstr(p.server_name) + x2);
    lemma_pjstr_complete(p.server_name, x2);
    lemma_plit_complete(",\"assigned_client_id\":"@, ser_jstr(p.assigned_client_id) + "}}"@);
    lemma_pjstr_complete(p.assigned_client_id, "}}"@);
    assert("}}"@ =~= "}}"@ + Seq::<char>::empty());
    lemma_plit_complete("}}"@, Seq::<char>::empty());
    assert(ServerWelcomeView { server_name: p.server_name, assigned_client_id: p.assigned_client_id } == p);
}

proof fn lemma_km_complete(id: Seq<char>, ts: i64, p: KanpeMessageView)
    ensures
        pmsg_kanpe(
            ser_env(id, ts) + (",\"payload\":{\"content\":"@ + (ser_jstr(p.content) + (
            ",\"target_monitor_ids\":"@ + (ser_u64_list(p.target_monitor_ids) + (",\"priority\":"@
                + (ser_priority(p.priority) + "}}"@)))))),
        ) == Some(MessageView::KanpeMessage { id, timestamp: ts, payload: p }),
{
    reveal(pmsg_kanpe);
    reveal_strlit(",\"payload\":{\"content\":");
    reveal_strlit(",\"target_monitor_ids\":");
    reveal_strlit(",\"priority\":");
    reveal_strlit("}}");
    let x3 = ",\"priority\":"@ + (ser_priority(p.priority) + "}}"@);
    let x2 = ",\"target_monitor_ids\":"@ + (ser_u64_list(p.target_monitor_ids) + x3);
    let x1 = ",\"payload\":{\"content\":"@ + (ser_jstr(p.content) + x2);
    lemma_penv_complete(id, ts, x1);
    lemma_plit_complete(",\"payload\":{\"content\":"@, ser_jstr(p.content) + x2);
    lemma_pjstr_complete(p.content, x2);
    lemma_plit_complete(",\"target_monitor_ids\":"@, ser_u64_list(p.target_monitor_ids) + x3);
    lemma_pu64_list_complete(p.target_monitor_ids, x3);
    lemma_plit_complete(",\"priority\":"@, ser_priority(p.priority) + "}}"@);
    lemma_ppriority_complete(p.priority, "}}"@);
    assert("}}"@ =~= "}}"@ + Seq::<char>::empty());
    lemma_plit_complete("}}"@, Seq::<char>::empty());
    assert(KanpeMessageView { content: p.content, target_monitor_ids: p.target_monitor_ids, priority: p.priority } == p);
}

proof fn lemma_fm_complete(id: Seq<char>, ts: i64, p: FeedbackMessageView)
    ensures
        pmsg_feedback(
            ser_env(id, ts) + (",\"payload\":{\"content\":"@ + (ser_jstr(p.content) + (
            ",\"client_name\":"@ + (ser_jstr(p.client_name) + (",\"reply_to_message_id\":"@ + (
            ser_jstr(p.reply_to_message_id) + (",\"feedback_type\":"@ + (ser_feedback(
                p.feedback_type,
            ) + "}}"@)))))))),
        ) == Some(MessageView::FeedbackMessage { id, timestamp: ts, payload: p }),
{
    reveal(pmsg_feedback);
    reveal_strlit(",\"payload\":{\"content\":");
    reveal_strlit(",\"client_name\":");
    reveal_strlit(",\"reply_to_message_id\":");
    reveal_strlit(",\"feedback_type\":");
    reveal_strlit("}}");
    let x4 = ",\"feedback_type\":"@ + (ser_feedback(p.feedback_type) + "}}"@);
    let x3 = ",\"reply_to_message_id\":"@ + (ser_jstr(p.reply_to_message_id) + x4);
    let x2 = ",\"client_name\":"@ + (ser_jstr(p.client_name) + x3);
    let x1 = ",\"payload\":{\"content\":"@ + (ser_jstr(p.content) + x2);
    lemma_penv_complete(id, ts, x1);
    lemma_plit_complete(",\"payload\":{\"content\":"@, ser_jstr(p.content) + x2);
    lemma_pjstr_complete(p.content, x2);
    lemma_plit_complete(",\"client_name\":"@, ser_jstr(p.client_name) + x3);
    lemma_pjstr_complete(p.client_name, x3);
    lemma_plit_complete(",\"reply_to_message_id\":"@, ser_jstr(p.reply_to_message_id) + x4);
    lemma_pjstr_complete(p.reply_to_message_id, x4);
    lemma_plit_complete(",\"feedback_type\":"@, ser_feedback(p.feedback_type) + "}}"@);
    lemma_pfeedback_complete(p.feedback_type, "}}"@);
    assert("}}"@ =~= "}}"@ + Seq::<char>::empty());
    lemma_plit_complete("}}"@, Seq::<char>::empty());
    assert(FeedbackMessageView { content: p.content, client_name: p.client_name, reply_to_message_id: p.reply_to_message_id, feedback_type: p.feedback_type } == p);
}

proof fn lemma_ping_complete(id: Seq<char>, ts: i64)
    ensures
        pmsg_ping(ser_env(id, ts) + "}"@) == Some(MessageView::Ping { id, timestamp: ts }),
        pmsg_pong(ser_env(id, ts) + "}"@) == Some(MessageView::Pong { id, timestamp: ts }),
{
    reveal(pmsg_ping);
    reveal(pmsg_pong);
    reveal_strlit("}");
    lemma_penv_complete(id, ts, "}"@);
    assert("}"@ =~= "}"@ + Seq::<char>::empty());
    lemma_plit_complete("}"@, Seq::<char>::empty());
}

proof fn lemma_mls_complete(id: Seq<char>, ts: i64, ms: Seq<MonitorView>)
    ensures
        pmsg_monitor_list_sync(
            ser_env(id, ts) + (",\"payload\":{\"monitors\":"@ + (ser_mon_list(ms) + "}}"@)),
        ) == Some(MessageView::MonitorListSync { id, timestamp: ts, monitors: ms }),
{
    reveal(pmsg_monitor_list_sync);
    reveal_strlit(",\"payload\":{\"monitors\":");
    reveal_strlit("}}");
    let x1 = ",\"payload\":{\"monitors\":"@ + (ser_mon_list(ms) + "}}"@);
    lemma_penv_complete(id, ts, x1);
    lemma_plit_complete(",\"payload\":{\"monitors\":"@, ser_mon_list(ms) + "}}"@);
    lemma_pmon_list_complete(ms, "}}"@);
    assert("}}"@ =~= "}}"@ + Seq::<char>::empty());
    lemma_plit_complete("}}"@, Seq::<char>::empty());
}

proof fn lemma_ma_complete(id: Seq<char>, ts: i64, m: MonitorView)
    ensures
        pmsg_monitor_added(
            ser_env(id, ts) + (",\"payload\":{\"monitor\":"@ + (ser_monitor(m) + "}}"@)),
        ) == Some(MessageView::MonitorAdded { id, timestamp: ts, monitor: m }),
        pmsg_monitor_updated(
            ser_env(id, ts) + (",\"payload\":{\"monitor\":"@ + (ser_monitor(m) + "}}"@)),
        ) == Some(MessageView::MonitorUpdated { id, timestamp: ts, monitor: m }),
{
    reveal(pmsg_monitor_added);
    reveal(pmsg_monitor_updated);
    reveal_strlit(",\"payload\":{\"monitor\":");
    reveal_strlit("}}");
    let x1 = ",\"payload\":{\"monitor\":"@ + (ser_monitor(m) + "}}"@);
    lemma_penv_complete(id, ts, x1);
    lemma_plit_complete(",\"payload\":{\"monitor\":"@, ser_monitor(m) + "}}"@);
    lemma_pmonitor_complete(m, "}}"@);
    assert("}}"@ =~= "}}"@ + Seq::<char>::empty());
    lemma_plit_complete("}}"@, Seq::<char>::empty());
}

proof fn lemma_mr_complete(id: Seq<char>, ts: i64, mid: u64)
    ensures
        pmsg_monitor_removed(
            ser_env(id, ts) + (",\"payload\":{\"monitor_id\":"@ + (ser_nat(mid as int) + "}}"@)),
        ) == Some(MessageView::MonitorRemoved { id, timestamp: ts, monitor_id: mid }),
{
    reveal(pmsg_monitor_removed);
    reveal_strlit(",\"payload\":{\"monitor_id\":");
    reveal_strlit("}}");
    let x1 = ",\"payload\":{\"monitor_id\":"@ + (ser_nat(mid as int) + "}}"@);
    lemma_penv_complete(id, ts, x1);
    lemma_plit_complete(",\"payload\":{\"monitor_id\":"@, ser_nat(mid as int) + "}}"@);
    lemma_pnat_complete(mid as int, "}}"@);
    lemma_ser_nat_canonical(mid as int);
    assert("}}"@ =~= "}}"@ + Seq::<char>::empty());
    lemma_plit_complete("}}"@, Seq::<char>::empty());
}

proof fn lemma_fc_complete(id: Seq<char>, ts: i64, ids: Seq<u64>)
    ensures
        pmsg_flash(
            ser_env(id, ts) + (",\"payload\":{\"target_monitor_ids\":"@ + (ser_u64_list(ids)
                + "}}"@)),
        ) == Some(MessageView::FlashCommand { id, timestamp: ts, target_monitor_ids: ids }),
        pmsg_clear(
            ser_env(id, ts) + (",\"payload\":{\"target_monitor_ids\":"@ + (ser_u64_list(ids)
                + "}}"@)),
        ) == Some(MessageView::ClearCommand { id, timestamp: ts, target_monitor_ids: ids }),
{
    reveal(pmsg_flash);
    reveal(pmsg_clear);
    reveal_strlit(",\"payload\":{\"target_monitor_ids\":");
    reveal_strlit("}}");
    let x1 = ",\"payload\":{\"target_monitor_ids\":"@ + (ser_u64_list(ids) + "}}"@);
    lemma_penv_complete(id, ts, x1);
    lemma_plit_complete(",\"payload\":{\"target_monitor_ids\":"@, ser_u64_list(ids) + "}}"@);
    lemma_pu64_list_complete(ids, "}}"@);
    assert("}}"@ =~= "}}"@ + Seq::<char>::empty());
    lemma_plit_complete("}}"@, Seq::<char>::empty());
}


#[verifier::rlimit(100)]
proof fn lemma_pmsg_complete_ch(id: Seq<char>, ts: i64, payload: ClientHelloView)
    ensures
        pmsg(ser_message(MessageView::ClientHello { id, timestamp: ts, payload })) == Some(
            MessageView::ClientHello { id, timestamp: ts, payload },
        ),
{
    reveal(pmsg);
    reveal(ser_msg_body);
    reveal_strlit("{\"type\":\"");
    reveal_strlit("client_hello\",\"id\":");
    reveal_strlit("server_welcome\",\"id\":");
    reveal_strlit("kanpe_message\",\"id\":");
    reveal_strlit("feedback_message\",\"id\":");
    reveal_strlit("ping\",\"id\":");
    reveal_strlit("pong\",\"id\":");
    reveal_strlit("monitor_list_sync\",\"id\":");
    reveal_strlit("monitor_added\",\"id\":");
    reveal_strlit("monitor_removed\",\"id\":");
    reveal_strlit("monitor_updated\",\"id\":");
    reveal_strlit("flash_command\",\"id\":");
    reveal_strlit("clear_command\",\"id\":");
    let m = MessageView::ClientHello { id, timestamp: ts, payload };
    let t = ser_message(m);
    let body = ser_msg_body(m);
    lemma_plit_complete("{\"type\":\""@, body);
            let x = ser_env(id, ts) + (",\"payload\":{\"client_name\":"@ + (ser_jstr(
                payload.client_name,
            ) + (",\"display_monitor_ids\":"@ + (ser_u64_list(payload.display_monitor_ids)
                + "}}"@))));
            assert(body =~= "client_hello\",\"id\":"@ + x);
            lemma_plit_complete("client_hello\",\"id\":"@, x);
            lemma_ch_complete(id, ts, payload);
}

#[verifier::rlimit(100)]
proof fn lemma_pmsg_complete_sw(id: Seq<char>, ts: i64, payload: ServerWelcomeView)
    ensures
        pmsg(ser_message(MessageView::ServerWelcome { id, timestamp: ts, payload })) == Some(
            MessageView::ServerWelcome { id, timestamp: ts, payload },
        ),
{
    reveal(pmsg);
    reveal(ser_msg_body);
    reveal_strlit("{\"type\":\"");
    reveal_strlit("client_hello\",\"id\":");
    reveal_strlit("server_welcome\",\"id\":");
    reveal_strlit("kanpe_message\",\"id\":");
    reveal_strlit("feedback_message\",\"id\":");
    reveal_strlit("ping\",\"id\":");
    reveal_strlit("pong\",\"id\":");
    reveal_strlit("monitor_list_sync\",\"id\":");
    reveal_strlit("monitor_added\",\"id\":");
    reveal_strlit("monitor_removed\",\"id\":");
    reveal_strlit("monitor_updated\",\"id\":");
    reveal_strlit("flash_command\",\"id\":");
    reveal_strlit("clear_command\",\"id\":");
    let m = MessageView::ServerWelcome { id, timestamp: ts, payload };
    let t = ser_message(m);
    let body = ser_msg_body(m);
    lemma_plit_complete("{\"type\":\""@, body);
            let x = ser_env(id, ts) + (",\"payload\":{\"server_name\":"@ + (ser_jstr(
                payload.server_name,
            ) + (",\"assigned_client_id\":"@ + (ser_jstr(payload.assigned_client_id) + "}}"@))));
            assert(body =~= "server_welcome\",\"id\":"@ + x);
            lemma_lit_mismatch(body, "client_hello\",\"id\":"@, 0);
            lemma_plit_complete("server_welcome\",\"id\":"@, x);
            lemma_sw_complete(id, ts, payload);
}

#[verifier::rlimit(100)]
proof fn lemma_pmsg_complete_km(id: Seq<char>, ts: i64, payload: KanpeMessageView)
    ensures
        pmsg(ser_message(MessageView::KanpeMessage { id, timestamp: ts, payload })) == Some(
            MessageView::KanpeMessage { id, timestamp: ts, payload },
        ),
{
    reveal(pmsg);
    reveal(ser_msg_body);
    reveal_strlit("{\"type\":\"");
    reveal_strlit("client_hello\",\"id\":");
    reveal_strlit("server_welcome\",\"id\":");
    reveal_strlit("kanpe_message\",\"id\":");
    reveal_strlit("feedback_message\",\"id\":");
    reveal_strlit("ping\",\"id\":");
    reveal_strlit("pong\",\"id\":");
    reveal_strlit("monitor_list_sync\",\"id\":");
    reveal_strlit("monitor_added\",\"id\":");
    reveal_strlit("monitor_removed\",\"id\":");
    reveal_strlit("monitor_updated\",\"id\":");
    reveal_strlit("flash_command\",\"id\":");
    reveal_strlit("clear_command\",\"id\":");
    let m = MessageView::KanpeMessage { id, timestamp: ts, payload };
    let t = ser_message(m);
    let body = ser_msg_body(m);
    lemma_plit_complete("{\"type\":\""@, body);
            let x = ser_env(id, ts) + (",\"payload\":{\"content\":"@ + (ser_jstr(
                payload.content,
            ) + (",\"target_monitor_ids\":"@ + (ser_u64_list(payload.target_monitor_ids) + (
            ",\"priority\":"@ + (ser_priority(payload.priority) + "}}"@))))));
            assert(body =~= "kanpe_message\",\"id\":"@ + x);
            lemma_lit_mismatch(body, "client_hello\",\"id\":"@, 0);
            lemma_lit_mismatch(body, "server_welcome\",\"id\":"@, 0);
            lemma_plit_complete("kanpe_message\",\"id\":"@, x);
            lemma_km_complete(id, ts, payload);
}

#[verifier::rlimit(100)]
proof fn lemma_pmsg_complete_fm(id: Seq<char>, ts: i64, payload: FeedbackMessageView)
    ensures
        pmsg(ser_message(MessageView::FeedbackMessage { id, timestamp: ts, payload })) == Some(
            MessageView::FeedbackMessage { id, timestamp: ts, payload },
        ),
{
    reveal(pmsg);
    reveal(ser_msg_body);
    reveal_strlit("{\"type\":\"");
    reveal_strlit("client_hello\",\"id\":");
    reveal_strlit("server_welcome\",\"id\":");
    reveal_strlit("kanpe_message\",\"id\":");
    reveal_strlit("feedback_message\",\"id\":");
    reveal_strlit("ping\",\"id\":");
    reveal_strlit("pong\",\"id\":");
    reveal_strlit("monitor_list_sync\",\"id\":");
    reveal_strlit("monitor_added\",\"id\":");
    reveal_strlit("monitor_removed\",\"id\":");
    reveal_strlit("monitor_updated\",\"id\":");
    reveal_strlit("flash_command\",\"id\":");
    reveal_strlit("clear_command\",\"id\":");
    let m = MessageView::FeedbackMessage { id, timestamp: ts, payload };
    let t = ser_message(m);
    let body = ser_msg_body(m);
    lemma_plit_complete("{\"type\":\""@, body);
            let x = ser_env(id, ts) + (",\"payload\":{\"content\":"@ + (ser_jstr(
                payload.content,
            ) + (",\"client_name\":"@ + (ser_jstr(payload.client_name) + (
            ",\"reply_to_message_id\":"@ + (ser_jstr(payload.reply_to_message_id) + (
            ",\"feedback_type\":"@ + (ser_feedback(payload.feedback_type) + "}}"@))))))));
            assert(body =~= "feedback_message\",\"id\":"@ + x);
            lemma_lit_mismatch(body, "client_hello\",\"id\":"@, 0);
            lemma_lit_mismatch(body, "server_welcome\",\"id\":"@, 0);
            lemma_lit_mismatch(body, "kanpe_message\",\"id\":"@, 0);
            lemma_plit_complete("feedback_message\",\"id\":"@, x);
            lemma_fm_complete(id, ts, payload);
}

#[verifier::rlimit(100)]
proof fn lemma_pmsg_complete_ping(id: Seq<char>, ts: i64)
    ensures
        pmsg(ser_message(MessageView::Ping { id, timestamp: ts })) == Some(
            MessageView::Ping { id, timestamp: ts },
        ),
{
    reveal(pmsg);
    reveal(ser_msg_body);
    reveal_strlit("{\"type\":\"");
    reveal_strlit("client_hello\",\"id\":");
    reveal_strlit("server_welcome\",\"id\":");
    reveal_strlit("kanpe_message\",\"id\":");
    reveal_strlit("feedback_message\",\"id\":");
    reveal_strlit("ping\",\"id\":");
    reveal_strlit("pong\",\"id\":");
    reveal_strlit("monitor_list_sync\",\"id\":");
    reveal_strlit("monitor_added\",\"id\":");
    reveal_strlit("monitor_removed\",\"id\":");
    reveal_strlit("monitor_updated\",\"id\":");
    reveal_strlit("flash_command\",\"id\":");
    reveal_strlit("clear_command\",\"id\":");
    let m = MessageView::Ping { id, timestamp: ts };
    let t = ser_message(m);
    let body = ser_msg_body(m);
    lemma_plit_complete("{\"type\":\""@, body);
            let x = ser_env(id, ts) + "}"@;
            assert(body =~= "ping\",\"id\":"@ + x);
            lemma_lit_mismatch(body, "client_hello\",\"id\":"@, 0);
            lemma_lit_mismatch(body, "server_welcome\",\"id\":"@, 0);
            lemma_lit_mismatch(body, "kanpe_message\",\"id\":"@, 0);
            lemma_lit_mismatch(body, "feedback_message\",\"id\":"@, 0);
            lemma_plit_complete("ping\",\"id\":"@, x);
            lemma_ping_complete(id, ts);
}

#[verifier::rlimit(100)]
proof fn lemma_pmsg_complete_pong(id: Seq<char>, ts: i64)
    ensures
        pmsg(ser_message(MessageView::Pong { id, timestamp: ts })) == Some(
            MessageView::Pong { id, timestamp: ts },
        ),
{
    reveal(pmsg);
    reveal(ser_msg_body);
    reveal_strlit("{\"type\":\"");
    reveal_strlit("client_hello\",\"id\":");
    reveal_strlit("server_welcome\",\"id\":");
    reveal_strlit("kanpe_message\",\"id\":");
    reveal_strlit("feedback_message\",\"id\":");
    reveal_strlit("ping\",\"id\":");
    reveal_strlit("pong\",\"id\":");
    reveal_strlit("monitor_list_sync\",\"id\":");
    reveal_strlit("monitor_added\",\"id\":");
    reveal_strlit("monitor_removed\",\"id\":");
    reveal_strlit("monitor_updated\",\"id\":");
    reveal_strlit("flash_command\",\"id\":");
    reveal_strlit("clear_command\",\"id\":");
    let m = MessageView::Pong { id, timestamp: ts };
    let t = ser_message(m);
    let body = ser_msg_body(m);
    lemma_plit_complete("{\"type\":\""@, body);
            let x = ser_env(id, ts) + "}"@;
            assert(body =~= "pong\",\"id\":"@ + x);
            lemma_lit_mismatch(body, "client_hello\",\"id\":"@, 0);
            lemma_lit_mismatch(body, "server_welcome\",\"id\":"@, 0);
            lemma_lit_mismatch(body, "kanpe_message\",\"id\":"@, 0);
            lemma_lit_mismatch(body, "feedback_message\",\"id\":"@, 0);
            lemma_lit_mismatch(body, "ping\",\"id\":"@, 1);
            lemma_plit_complete("pong\",\"id\":"@, x);
            lemma_ping_complete(id, ts);
}

#[verifier::rlimit(100)]
proof fn lemma_pmsg_complete_mls(id: Seq<char>, ts: i64, monitors: Seq<MonitorView>)
    ensures
        pmsg(ser_message(MessageView::MonitorListSync { id, timestamp: ts, monitors })) == Some(
            MessageView::MonitorListSync { id, timestamp: ts, monitors },
        ),
{
    reveal(pmsg);
    reveal(ser_msg_body);
    reveal_strlit("{\"type\":\"");
    reveal_strlit("client_hello\",\"id\":");
    reveal_strlit("server_welcome\",\"id\":");
    reveal_strlit("kanpe_message\",\"id\":");
    reveal_strlit("feedback_message\",\"id\":");
    reveal_strlit("ping\",\"id\":");
    reveal_strlit("pong\",\"id\":");
    reveal_strlit("monitor_list_sync\",\"id\":");
    reveal_strlit("monitor_added\",\"id\":");
    reveal_strlit("monitor_removed\",\"id\":");
    reveal_strlit("monitor_updated\",\"id\":");
    reveal_strlit("flash_command\",\"id\":");
    reveal_strlit("clear_command\",\"id\":");
    let m = MessageView::MonitorListSync { id, timestamp: ts, monitors };
    let t = ser_message(m);
    let body = ser_msg_body(m);
    lemma_plit_complete("{\"type\":\""@, body);
            let x = ser_env(id, ts) + (",\"payload\":{\"monitors\":"@ + (ser_mon_list(
                monitors,
            ) + "}}"@));
            assert(body =~= "monitor_list_sync\",\"id\":"@ + x);
            lemma_lit_mismatch(body, "client_hello\",\"id\":"@, 0);
            lemma_lit_mismatch(body, "server_welcome\",\"id\":"@, 0);
            lemma_lit_mismatch(body, "kanpe_message\",\"id\":"@, 0);
            lemma_lit_mismatch(body, "feedback_message\",\"id\":"@, 0);
            lemma_lit_mismatch(body, "ping\",\"id\":"@, 0);
            lemma_lit_mismatch(body, "pong\",\"id\":"@, 0);
            lemma_plit_complete("monitor_list_sync\",\"id\":"@, x);
            lemma_mls_complete(id, ts, monitors);
}

#[verifier::rlimit(100)]
proof fn lemma_pmsg_complete_ma(id: Seq<char>, ts: i64, monitor: MonitorView)
    ensures
        pmsg(ser_message(MessageView::MonitorAdded { id, timestamp: ts, monitor })) == Some(
            MessageView::MonitorAdded { id, timestamp: ts, monitor },
        ),
{
    reveal(pmsg);
    reveal(ser_msg_body);
    reveal_strlit("{\"type\":\"");
    reveal_strlit("client_hello\",\"id\":");
    reveal_strlit("server_welcome\",\"id\":");
    reveal_strlit("kanpe_message\",\"id\":");
    reveal_strlit("feedback_message\",\"id\":");
    reveal_strlit("ping\",\"id\":");
    reveal_strlit("pong\",\"id\":");
    reveal_strlit("monitor_list_sync\",\"id\":");
    reveal_strlit("monitor_added\",\"id\":");
    reveal_strlit("monitor_removed\",\"id\":");
    reveal_strlit("monitor_updated\",\"id\":");
    reveal_strlit("flash_command\",\"id\":");
    reveal_strlit("clear_command\",\"id\":");
    let m = MessageView::MonitorAdded { id, timestamp: ts, monitor };
    let t = ser_message(m);
    let body = ser_msg_body(m);
    lemma_plit_complete("{\"type\":\""@, body);
            let x = ser_env(id, ts) + (",\"payload\":{\"monitor\":"@ + (ser_monitor(monitor)
                + "}}"@));
            assert(body =~= "monitor_added\",\"id\":"@ + x);
            lemma_lit_mismatch(body, "client_hello\",\"id\":"@, 0);
            lemma_lit_mismatch(body, "server_welcome\",\"id\":"@, 0);
            lemma_lit_mismatch(body, "kanpe_message\",\"id\":"@, 0);
            lemma_lit_mismatch(body, "feedback_message\",\"id\":"@, 0);
            lemma_lit_mismatch(body, "ping\",\"id\":"@, 0);
            lemma_lit_mismatch(body, "pong\",\"id\":"@, 0);
            lemma_lit_mismatch(body, "monitor_list_sync\",\"id\":"@, 8);
            lemma_plit_complete("monitor_added\",\"id\":"@, x);
            lemma_ma_complete(id, ts, monitor);
}

#[verifier::rlimit(100)]
proof fn lemma_pmsg_complete_mr(id: Seq<char>, ts: i64, monitor_id: u64)
    ensures
        pmsg(ser_message(MessageView::MonitorRemoved { id, timestamp: ts, monitor_id })) == Some(
            MessageView::MonitorRemoved { id, timestamp: ts, monitor_id },
        ),
{
    reveal(pmsg);
    reveal(ser_msg_body);
    reveal_strlit("{\"type\":\"");
    reveal_strlit("client_hello\",\"id\":");
    reveal_strlit("server_welcome\",\"id\":");
    reveal_strlit("kanpe_message\",\"id\":");
    reveal_strlit("feedback_message\",\"id\":");
    reveal_strlit("ping\",\"id\":");
    reveal_strlit("pong\",\"id\":");
    reveal_strlit("monitor_list_sync\",\"id\":");
    reveal_strlit("monitor_added\",\"id\":");
    reveal_strlit("monitor_removed\",\"id\":");
    reveal_strlit("monitor_updated\",\"id\":");
    reveal_strlit("flash_command\",\"id\":");
    reveal_strlit("clear_command\",\"id\":");
    let m = MessageView::MonitorRemoved { id, timestamp: ts, monitor_id };
    let t = ser_message(m);
    let body = ser_msg_body(m);
    lemma_plit_complete("{\"type\":\""@, body);
            let x = ser_env(id, ts) + (",\"payload\":{\"monitor_id\":"@ + (ser_nat(
                monitor_id as int,
            ) + "}}"@));
            assert(body =~= "monitor_removed\",\"id\":"@ + x);
            lemma_lit_mismatch(body, "client_hello\",\"id\":"@, 0);
            lemma_lit_mismatch(body, "server_welcome\",\"id\":"@, 0);
            lemma_lit_mismatch(body, "kanpe_message\",\"id\":"@, 0);
            lemma_lit_mismatch(body, "feedback_message\",\"id\":"@, 0);
            lemma_lit_mismatch(body, "ping\",\"id\":"@, 0);
            lemma_lit_mismatch(body, "pong\",\"id\":"@, 0);
            lemma_lit_mismatch(body, "monitor_list_sync\",\"id\":"@, 8);
            lemma_lit_mismatch(body, "monitor_added\",\"id\":"@, 8);
            lemma_plit_complete("monitor_removed\",\"id\":"@, x);
            lemma_mr_complete(id, ts, monitor_id);
}

#[verifier::rlimit(100)]
proof fn lemma_pmsg_complete_mu(id: Seq<char>, ts: i64, monitor: MonitorView)
    ensures
        pmsg(ser_message(MessageView::MonitorUpdated { id, timestamp: ts, monitor })) == Some(
            MessageView::MonitorUpdated { id, timestamp: ts, monitor },
        ),
{
    reveal(pmsg);
    reveal(ser_msg_body);
    reveal_strlit("{\"type\":\"");
    reveal_strlit("client_hello\",\"id\":");
    reveal_strlit("server_welcome\",\"id\":");
    reveal_strlit("kanpe_message\",\"id\":");
    reveal_strlit("feedback_message\",\"id\":");
    reveal_strlit("ping\",\"id\":");
    reveal_strlit("pong\",\"id\":");
    reveal_strlit("monitor_list_sync\",\"id\":");
    reveal_strlit("monitor_added\",\"id\":");
    reveal_strlit("monitor_removed\",\"id\":");
    reveal_strlit("monitor_updated\",\"id\":");
    reveal_strlit("flash_command\",\"id\":");
    reveal_strlit("clear_command\",\"id\":");
    let m = MessageView::MonitorUpdated { id, timestamp: ts, monitor };
    let t = ser_message(m);
    let body = ser_msg_body(m);
    lemma_plit_complete("{\"type\":\""@, body);
            let x = ser_env(id, ts) + (",\"payload\":{\"monitor\":"@ + (ser_monitor(monitor)
                + "}}"@));
            assert(body =~= "monitor_updated\",\"id\":"@ + x);
            lemma_lit_mismatch(body, "client_hello\",\"id\":"@, 0);
            lemma_lit_mismatch(body, "server_welcome\",\"id\":"@, 0);
            lemma_lit_mismatch(body, "kanpe_message\",\"id\":"@, 0);
            lemma_lit_mismatch(body, "feedback_message\",\"id\":"@, 0);
            lemma_lit_mismatch(body, "ping\",\"id\":"@, 0);
            lemma_lit_mismatch(body, "pong\",\"id\":"@, 0);
            lemma_lit_mismatch(body, "monitor_list_sync\",\"id\":"@, 8);
            lemma_lit_mismatch(body, "monitor_added\",\"id\":"@, 8);
            lemma_lit_mismatch(body, "monitor_removed\",\"id\":"@, 8);
            lemma_plit_complete("monitor_updated\",\"id\":"@, x);
            lemma_ma_complete(id, ts, monitor);
}

#[verifier::rlimit(100)]
proof fn lemma_pmsg_complete_fc(id: Seq<char>, ts: i64, target_monitor_ids: Seq<u64>)
    ensures
        pmsg(ser_message(MessageView::FlashCommand { id, timestamp: ts, target_monitor_ids })) == Some(
            MessageView::FlashCommand { id, timestamp: ts, target_monitor_ids },
        ),
{
    reveal(pmsg);
    reveal(ser_msg_body);
    reveal_strlit("{\"type\":\"");
    reveal_strlit("client_hello\",\"id\":");
    reveal_strlit("server_welcome\",\"id\":");
    reveal_strlit("kanpe_message\",\"id\":");
    reveal_strlit("feedback_message\",\"id\":");
    reveal_strlit("ping\",\"id\":");
    reveal_strlit("pong\",\"id\":");
    reveal_strlit("monitor_list_sync\",\"id\":");
    reveal_strlit("monitor_added\",\"id\":");
    reveal_strlit("monitor_removed\",\"id\":");
    reveal_strlit("monitor_updated\",\"id\":");
    reveal_strlit("flash_command\",\"id\":");
    reveal_strlit("clear_command\",\"id\":");
    let m = MessageView::FlashCommand { id, timestamp: ts, target_monitor_ids };
    let t = ser_message(m);
    let body = ser_msg_body(m);
    lemma_plit_complete("{\"type\":\""@, body);
            let x = ser_env(id, ts) + (",\"payload\":{\"target_monitor_ids\":"@ + (
            ser_u64_list(target_monitor_ids) + "}}"@));
            assert(body =~= "flash_command\",\"id\":"@ + x);
            lemma_lit_mismatch(body, "client_hello\",\"id\":"@, 0);
            lemma_lit_mismatch(body, "server_welcome\",\"id\":"@, 0);
            lemma_lit_mismatch(body, "kanpe_message\",\"id\":"@, 0);
            lemma_lit_mismatch(body, "feedback_message\",\"id\":"@, 1);
            lemma_lit_mismatch(body, "ping\",\"id\":"@, 0);
            lemma_lit_mismatch(body, "pong\",\"id\":"@, 0);
            lemma_lit_mismatch(body, "monitor_list_sync\",\"id\":"@, 0);
            lemma_lit_mismatch(body, "monitor_added\",\"id\":"@, 0);
            lemma_lit_mismatch(body, "monitor_removed\",\"id\":"@, 0);
            lemma_lit_mismatch(body, "monitor_updated\",\"id\":"@, 0);
            lemma_plit_complete("flash_command\",\"id\":"@, x);
            lemma_fc_complete(id, ts, target_monitor_ids);
}

#[verifier::rlimit(100)]
proof fn lemma_pmsg_complete_cc(id: Seq<char>, ts: i64, target_monitor_ids: Seq<u64>)
    ensures
        pmsg(ser_message(MessageView::ClearCommand { id, timestamp: ts, target_monitor_ids })) == Some(
            MessageView::ClearCommand { id, timestamp: ts, target_monitor_ids },
        ),
{
    reveal(pmsg);
    reveal(ser_msg_body);
    reveal_strlit("{\"type\":\"");
    reveal_strlit("client_hello\",\"id\":");
    reveal_strlit("server_welcome\",\"id\":");
    reveal_strlit("kanpe_message\",\"id\":");
    reveal_strlit("feedback_message\",\"id\":");
    reveal_strlit("ping\",\"id\":");
    reveal_strlit("pong\",\"id\":");
    reveal_strlit("monitor_list_sync\",\"id\":");
    reveal_strlit("monitor_added\",\"id\":");
    reveal_strlit("monitor_removed\",\"id\":");
    reveal_strlit("monitor_updated\",\"id\":");
    reveal_strlit("flash_command\",\"id\":");
    reveal_strlit("clear_command\",\"id\":");
    let m = MessageView::ClearCommand { id, timestamp: ts, target_monitor_ids };
    let t = ser_message(m);
    let body = ser_msg_body(m);
    lemma_plit_complete("{\"type\":\""@, body);
            let x = ser_env(id, ts) + (",\"payload\":{\"target_monitor_ids\":"@ + (
            ser_u64_list(target_monitor_ids) + "}}"@));
            assert(body =~= "clear_command\",\"id\":"@ + x);
            lemma_lit_mismatch(body, "client_hello\",\"id\":"@, 2);
            lemma_lit_mismatch(body, "server_welcome\",\"id\":"@, 0);
            lemma_lit_mismatch(body, "kanpe_message\",\"id\":"@, 0);
            lemma_lit_mismatch(body, "feedback_message\",\"id\":"@, 0);
            lemma_lit_mismatch(body, "ping\",\"id\":"@, 0);
            lemma_lit_mismatch(body, "pong\",\"id\":"@, 0);
            lemma_lit_mismatch(body, "monitor_list_sync\",\"id\":"@, 0);
            lemma_lit_mismatch(body, "monitor_added\",\"id\":"@, 0);
            lemma_lit_mismatch(body, "monitor_removed\",\"id\":"@, 0);
            lemma_lit_mismatch(body, "monitor_updated\",\"id\":"@, 0);
            lemma_lit_mismatch(body, "flash_command\",\"id\":"@, 0);
            lemma_plit_complete("clear_command\",\"id\":"@, x);
            lemma_fc_complete(id, ts, target_monitor_ids);
}

/// Parsing is complete: the canonical text of any message parses back to it.
pub proof fn lemma_pmsg_complete(m: MessageView)
    ensures
        pmsg(ser_message(m)) == Some(m),
{
    match m {
        MessageView::ClientHello { id, timestamp, payload } => lemma_pmsg_complete_ch(id, timestamp, payload),
        MessageView::ServerWelcome { id, timestamp, payload } => lemma_pmsg_complete_sw(id, timestamp, payload),
        MessageView::KanpeMessage { id, timestamp, payload } => lemma_pmsg_complete_km(id, timestamp, payload),
        MessageView::FeedbackMessage { id, timestamp, payload } => lemma_pmsg_complete_fm(id, timestamp, payload),
        MessageView::Ping { id, timestamp } => lemma_pmsg_complete_ping(id, timestamp),
        MessageView::Pong { id, timestamp } => lemma_pmsg_complete_pong(id, timestamp),
        MessageView::MonitorListSync { id, timestamp, monitors } => lemma_pmsg_complete_mls(id, timestamp, monitors),
        MessageView::MonitorAdded { id, timestamp, monitor } => lemma_pmsg_complete_ma(id, timestamp, monitor),
        MessageView::MonitorRemoved { id, timestamp, monitor_id } => lemma_pmsg_complete_mr(id, timestamp, monitor_id),
        MessageView::MonitorUpdated { id, timestamp, monitor } => lemma_pmsg_complete_mu(id, timestamp, monitor),
        MessageView::FlashCommand { id, timestamp, target_monitor_ids } => lemma_pmsg_complete_fc(id, timestamp, target_monitor_ids),
        MessageView::ClearCommand { id, timestamp, target_monitor_ids } => lemma_pmsg_complete_cc(id, timestamp, target_monitor_ids),
    }
}
proof fn lemma_ch_recompose(
    t: Seq<char>,
    t1: Seq<char>,
    t2: Seq<char>,
    t3: Seq<char>,
    t4: Seq<char>,
    t5: Seq<char>,
    id: Seq<char>,
    ts: i64,
    p: ClientHelloView,
)
    requires
        t == ser_env(id, ts) + t1,
        t1 == ",\"payload\":{\"client_name\":"@ + t2,
        t2 == ser_jstr(p.client_name) + t3,
        t3 == ",\"display_monitor_ids\":"@ + t4,
        t4 == ser_u64_list(p.display_monitor_ids) + t5,
        t5 == "}}"@,
    ensures
        ser_msg_body(MessageView::ClientHello { id, timestamp: ts, payload: p })
            == "client_hello\",\"id\":"@ + t,
{
    reveal(ser_msg_body);
    assert(ser_msg_body(MessageView::ClientHello { id, timestamp: ts, payload: p })
        =~= "client_hello\",\"id\":"@ + t);
}

proof fn lemma_ch_sound(t: Seq<char>)
    requires
        pmsg_client_hello(t) is Some,
    ensures
        ser_msg_body(pmsg_client_hello(t)->Some_0) == "client_hello\",\"id\":"@ + t,
{
    reveal(pmsg_client_hello);
    reveal(ser_msg_body);
    let m = pmsg_client_hello(t)->Some_0;
    let ((id, ts), t1) = penv(t)->Some_0;
    lemma_penv_sound(t);
    let t2 = plit(t1, ",\"payload\":{\"client_name\":"@)->Some_0;
    lemma_plit_sound(t1, ",\"payload\":{\"client_name\":"@);
    let (v1, t3) = pjstr(t2)->Some_0;
    lemma_pjstr_sound(t2);
    let t4 = plit(t3, ",\"display_monitor_ids\":"@)->Some_0;
    lemma_plit_sound(t3, ",\"display_monitor_ids\":"@);
    let (v3, t5) = pu64_list(t4)->Some_0;
    lemma_pu64_list_sound(t4);
    let t6 = plit(t5, "}}"@)->Some_0;
    lemma_plit_sound(t5, "}}"@);
    assert(t6.len() == 0);
    assert(t6 =~= Seq::<char>::empty());
    assert(t5 =~= "}}"@);
    let p = ClientHelloView { client_name: v1, display_monitor_ids: v3 };
    lemma_ch_recompose(t, t1, t2, t3, t4, t5, id, ts, p);
}

proof fn lemma_sw_recompose(
    t: Seq<char>,
    t1: Seq<char>,
    t2: Seq<char>,
    t3: Seq<char>,
    t4: Seq<char>,
    t5: Seq<char>,
    id: Seq<char>,
    ts: i64,
    p: ServerWelcomeView,
)
    requires
        t == ser_env(id, ts) + t1,
        t1 == ",\"payload\":{\"server_name\":"@ + t2,
        t2 == ser_jstr(p.server_name) + t3,
        t3 == ",\"assigned_client_id\":"@ + t4,
        t4 == ser_jstr(p.assigned_client_id) + t5,
        t5 == "}}"@,
    ensures
        ser_msg_body(MessageView::ServerWelcome { id, timestamp: ts, payload: p })
            == "server_welcome\",\"id\":"@ + t,
{
    reveal(ser_msg_body);
    assert(ser_msg_body(MessageView::ServerWelcome { id, timestamp: ts, payload: p })
        =~= "server_welcome\",\"id\":"@ + t);
}

proof fn lemma_sw_sound(t: Seq<char>)
    requires
        pmsg_server_welcome(t) is Some,
    ensures
        ser_msg_body(pmsg_server_welcome(t)->Some_0) == "server_welcome\",\"id\":"@ + t,
{
    reveal(pmsg_server_welcome);
    reveal(ser_msg_body);
    let m = pmsg_server_welcome(t)->Some_0;
    let ((id, ts), t1) = penv(t)->Some_0;
    lemma_penv_sound(t);
    let t2 = plit(t1, ",\"payload\":{\"server_name\":"@)->Some_0;
    lemma_plit_sound(t1, ",\"payload\":{\"server_name\":"@);
    let (v1, t3) = pjstr(t2)->Some_0;
    lemma_pjstr_sound(t2);
    let t4 = plit(t3, ",\"assigned_client_id\":"@)->Some_0;
    lemma_plit_sound(t3, ",\"assigned_client_id\":"@);
    let (v3, t5) = pjstr(t4)->Some_0;
    lemma_pjstr_sound(t4);
    let t6 = plit(t5, "}}"@)->Some_0;
    lemma_plit_sound(t5, "}}"@);
    assert(t6.len() == 0);
    assert(t6 =~= Seq::<char>::empty());
    assert(t5 =~= "}}"@);
    let p = ServerWelcomeView { server_name: v1, assigned_client_id: v3 };
    lemma_sw_recompose(t, t1, t2, t3, t4, t5, id, ts, p);
}

proof fn lemma_km_recompose(
    t: Seq<char>,
    t1: Seq<char>,
    t2: Seq<char>,
    t3: Seq<char>,
    t4: Seq<char>,
    t5: Seq<char>,
    t6: Seq<char>,
    t7: Seq<char>,
    id: Seq<char>,
    ts: i64,
    p: KanpeMessageView,
)
    requires
        t == ser_env(id, ts) + t1,
        t1 == ",\"payload\":{\"content\":"@ + t2,
        t2 == ser_jstr(p.content) + t3,
        t3 == ",\"target_monitor_ids\":"@ + t4,
        t4 == ser_u64_list(p.target_monitor_ids) + t5,
        t5 == ",\"priority\":"@ + t6,
        t6 == ser_priority(p.priority) + t7,
        t7 == "}}"@,
    ensures
        ser_msg_body(MessageView::KanpeMessage { id, timestamp: ts, payload: p })
            == "kanpe_message\",\"id\":"@ + t,
{
    reveal(ser_msg_body);
    assert(ser_msg_body(MessageView::KanpeMessage { id, timestamp: ts, payload: p })
        =~= "kanpe_message\",\"id\":"@ + t);
}

proof fn lemma_km_sound(t: Seq<char>)
    requires
        pmsg_kanpe(t) is Some,
    ensures
        ser_msg_body(pmsg_kanpe(t)->Some_0) == "kanpe_message\",\"id\":"@ + t,
{
    reveal(pmsg_kanpe);
    reveal(ser_msg_body);
    let m = pmsg_kanpe(t)->Some_0;
    let ((id, ts), t1) = penv(t)->Some_0;
    lemma_penv_sound(t);
    let t2 = plit(t1, ",\"payload\":{\"content\":"@)->Some_0;
    lemma_plit_sound(t1, ",\"payload\":{\"content\":"@);
    let (v1, t3) = pjstr(t2)->Some_0;
    lemma_pjstr_sound(t2);
    let t4 = plit(t3, ",\"target_monitor_ids\":"@)->Some_0;
    lemma_plit_sound(t3, ",\"target_monitor_ids\":"@);
    let (v3, t5) = pu64_list(t4)->Some_0;
    lemma_pu64_list_sound(t4);
    let t6 = plit(t5, ",\"priority\":"@)->Some_0;
    lemma_plit_sound(t5, ",\"priority\":"@);
    let (v5, t7) = ppriority(t6)->Some_0;
    lemma_ppriority_sound(t6);
    let t8 = plit(t7, "}}"@)->Some_0;
    lemma_plit_sound(t7, "}}"@);
    assert(t8.len() == 0);
    assert(t8 =~= Seq::<char>::empty());
    assert(t7 =~= "}}"@);
    let p = KanpeMessageView { content: v1, target_monitor_ids: v3, priority: v5 };
    lemma_km_recompose(t, t1, t2, t3, t4, t5, t6, t7, id, ts, p);
}

proof fn lemma_fm_recompose(
    t: Seq<char>,
    t1: Seq<char>,
    t2: Seq<char>,
    t3: Seq<char>,
    t4: Seq<char>,
    t5: Seq<char>,
    t6: Seq<char>,
    t7: Seq<char>,
    t8: Seq<char>,
    t9: Seq<char>,
    id: Seq<char>,
    ts: i64,
    p: FeedbackMessageView,
)
    requires
        t == ser_env(id, ts) + t1,
        t1 == ",\"payload\":{\"content\":"@ + t2,
        t2 == ser_jstr(p.content) + t3,
        t3 == ",\"client_name\":"@ + t4,
        t4 == ser_jstr(p.client_name) + t5,
        t5 == ",\"reply_to_message_id\":"@ + t6,
        t6 == ser_jstr(p.reply_to_message_id) + t7,
        t7 == ",\"feedback_type\":"@ + t8,
        t8 == ser_feedback(p.feedback_type) + t9,
        t9 == "}}"@,
    ensures
        ser_msg_body(MessageView::FeedbackMessage { id, timestamp: ts, payload: p })
            == "feedback_message\",\"id\":"@ + t,
{
    reveal(ser_msg_body);
    assert(ser_msg_body(MessageView::FeedbackMessage { id, timestamp: ts, payload: p })
        =~= "feedback_message\",\"id\":"@ + t);
}

proof fn lemma_fm_sound(t: Seq<char>)
    requires
        pmsg_feedback(t) is Some,
    ensures
        ser_msg_body(pmsg_feedback(t)->Some_0) == "feedback_message\",\"id\":"@ + t,
{
    reveal(pmsg_feedback);
    let m = pmsg_feedback(t)->Some_0;
    let ((id, ts), t1) = penv(t)->Some_0;
    lemma_penv_sound(t);
    let t2 = plit(t1, ",\"payload\":{\"content\":"@)->Some_0;
    lemma_plit_sound(t1, ",\"payload\":{\"content\":"@);
    let (v1, t3) = pjstr(t2)->Some_0;
    lemma_pjstr_sound(t2);
    let t4 = plit(t3, ",\"client_name\":"@)->Some_0;
    lemma_plit_sound(t3, ",\"client_name\":"@);
    let (v3, t5) = pjstr(t4)->Some_0;
    lemma_pjstr_sound(t4);
    let t6 = plit(t5, ",\"reply_to_message_id\":"@)->Some_0;
    lemma_plit_sound(t5, ",\"reply_to_message_id\":"@);
    let (v5, t7) = pjstr(t6)->Some_0;
    lemma_pjstr_sound(t6);
    let t8 = plit(t7, ",\"feedback_type\":"@)->Some_0;
    lemma_plit_sound(t7, ",\"feedback_type\":"@);
    let (v7, t9) = pfeedback(t8)->Some_0;
    lemma_pfeedback_sound(t8);
    let t10 = plit(t9, "}}"@)->Some_0;
    lemma_plit_sound(t9, "}}"@);
    assert(t10.len() == 0);
    assert(t10 =~= Seq::<char>::empty());
    assert(t9 =~= "}}"@);
    let p = FeedbackMessageView {
        content: v1,
        client_name: v3,
        reply_to_message_id: v5,
        feedback_type: v7,
    };
    lemma_fm_recompose(t, t1, t2, t3, t4, t5, t6, t7, t8, t9, id, ts, p);
}

#[verifier::rlimit(100)]
proof fn lemma_ping_sound(t: Seq<char>)
    requires
        pmsg_ping(t) is Some,
    ensures
        ser_msg_body(pmsg_ping(t)->Some_0) == "ping\",\"id\":"@ + t,
{
    reveal(pmsg_ping);
    reveal(ser_msg_body);
    let m = pmsg_ping(t)->Some_0;
    let ((id, ts), t1) = penv(t)->Some_0;
    lemma_penv_sound(t);
    let t2 = plit(t1, "}"@)->Some_0;
    lemma_plit_sound(t1, "}"@);
    assert(t2.len() == 0);
    assert(t2 =~= Seq::<char>::empty());
    assert(t1 =~= "}"@);
    assert(t == ser_env(id, ts) + "}"@);
    assert(ser_msg_body(m) =~= "ping\",\"id\":"@ + t);
}

#[verifier::rlimit(100)]
proof fn lemma_pong_sound(t: Seq<char>)
    requires
        pmsg_pong(t) is Some,
    ensures
        ser_msg_body(pmsg_pong(t)->Some_0) == "pong\",\"id\":"@ + t,
{
    reveal(pmsg_pong);
    reveal(ser_msg_body);
    let m = pmsg_pong(t)->Some_0;
    let ((id, ts), t1) = penv(t)->Some_0;
    lemma_penv_sound(t);
    let t2 = plit(t1, "}"@)->Some_0;
    lemma_plit_sound(t1, "}"@);
    assert(t2.len() == 0);
    assert(t2 =~= Seq::<char>::empty());
    assert(t1 =~= "}"@);
    assert(t == ser_env(id, ts) + "}"@);
    assert(ser_msg_body(m) =~= "pong\",\"id\":"@ + t);
}

#[verifier::rlimit(100)]
proof fn lemma_mls_sound(t: Seq<char>)
    requires
        pmsg_monitor_list_sync(t) is Some,
    ensures
        ser_msg_body(pmsg_monitor_list_sync(t)->Some_0) == "monitor_list_sync\",\"id\":"@ + t,
{
    reveal(pmsg_monitor_list_sync);
    reveal(ser_msg_body);
    let m = pmsg_monitor_list_sync(t)->Some_0;
    let ((id, ts), t1) = penv(t)->Some_0;
    lemma_penv_sound(t);
    let t2 = plit(t1, ",\"payload\":{\"monitors\":"@)->Some_0;
    lemma_plit_sound(t1, ",\"payload\":{\"monitors\":"@);
    let (v1, t3) = pmon_list(t2)->Some_0;
    lemma_pmon_list_sound(t2);
    let t4 = plit(t3, "}}"@)->Some_0;
    lemma_plit_sound(t3, "}}"@);
    assert(t4.len() == 0);
    assert(t4 =~= Seq::<char>::empty());
    assert(t3 =~= "}}"@);
    assert(t2 == ser_mon_list(v1) + "}}"@);
    assert(t1 == ",\"payload\":{\"monitors\":"@ + (ser_mon_list(v1) + "}}"@));
    assert(t == ser_env(id, ts) + (",\"payload\":{\"monitors\":"@ + (ser_mon_list(v1) + "}}"@)));
    assert(ser_msg_body(m) =~= "monitor_list_sync\",\"id\":"@ + t);
}

#[verifier::rlimit(100)]
proof fn lemma_ma_sound(t: Seq<char>)
    requires
        pmsg_monitor_added(t) is Some,
    ensures
        ser_msg_body(pmsg_monitor_added(t)->Some_0) == "monitor_added\",\"id\":"@ + t,
{
    reveal(pmsg_monitor_added);
    reveal(ser_msg_body);
    let m = pmsg_monitor_added(t)->Some_0;
    let ((id, ts), t1) = penv(t)->Some_0;
    lemma_penv_sound(t);
    let t2 = plit(t1, ",\"payload\":{\"monitor\":"@)->Some_0;
    lemma_plit_sound(t1, ",\"payload\":{\"monitor\":"@);
    let (v1, t3) = pmonitor(t2)->Some_0;
    lemma_pmonitor_sound(t2);
    let t4 = plit(t3, "}}"@)->Some_0;
    lemma_plit_sound(t3, "}}"@);
    assert(t4.len() == 0);
    assert(t4 =~= Seq::<char>::empty());
    assert(t3 =~= "}}"@);
    assert(t2 == ser_monitor(v1) + "}}"@);
    assert(t1 == ",\"payload\":{\"monitor\":"@ + (ser_monitor(v1) + "}}"@));
    assert(t == ser_env(id, ts) + (",\"payload\":{\"monitor\":"@ + (ser_monitor(v1) + "}}"@)));
    assert(ser_msg_body(m) =~= "monitor_added\",\"id\":"@ + t);
}

#[verifier::rlimit(100)]
proof fn lemma_mr_sound(t: Seq<char>)
    requires
        pmsg_monitor_removed(t) is Some,
    ensures
        ser_msg_body(pmsg_monitor_removed(t)->Some_0) == "monitor_removed\",\"id\":"@ + t,
{
    reveal(pmsg_monitor_removed);
    reveal(ser_msg_body);
    let m = pmsg_monitor_removed(t)->Some_0;
    let ((id, ts), t1) = penv(t)->Some_0;
    lemma_penv_sound(t);
    let t2 = plit(t1, ",\"payload\":{\"monitor_id\":"@)->Some_0;
    lemma_plit_sound(t1, ",\"payload\":{\"monitor_id\":"@);
    let (v1, t3) = pu64(t2)->Some_0;
    assert(pnat(t2) is Some);
    lemma_pnat_sound(t2);
    let t4 = plit(t3, "}}"@)->Some_0;
    lemma_plit_sound(t3, "}}"@);
    assert(t4.len() == 0);
    assert(t4 =~= Seq::<char>::empty());
    assert(t3 =~= "}}"@);
    assert(t2 == ser_nat(v1 as int) + "}}"@);
    assert(t1 == ",\"payload\":{\"monitor_id\":"@ + (ser_nat(v1 as int) + "}}"@));
    assert(t == ser_env(id, ts) + (",\"payload\":{\"monitor_id\":"@ + (ser_nat(v1 as int) + "}}"@)));
    assert(ser_msg_body(m) =~= "monitor_removed\",\"id\":"@ + t);
}

#[verifier::rlimit(100)]
proof fn lemma_mu_sound(t: Seq<char>)
    requires
        pmsg_monitor_updated(t) is Some,
    ensures
        ser_msg_body(pmsg_monitor_updated(t)->Some_0) == "monitor_updated\",\"id\":"@ + t,
{
    reveal(pmsg_monitor_updated);
    reveal(ser_msg_body);
    let m = pmsg_monitor_updated(t)->Some_0;
    let ((id, ts), t1) = penv(t)->Some_0;
    lemma_penv_sound(t);
    let t2 = plit(t1, ",\"payload\":{\"monitor\":"@)->Some_0;
    lemma_plit_sound(t1, ",\"payload\":{\"monitor\":"@);
    let (v1, t3) = pmonitor(t2)->Some_0;
    lemma_pmonitor_sound(t2);
    let t4 = plit(t3, "}}"@)->Some_0;
    lemma_plit_sound(t3, "}}"@);
    assert(t4.len() == 0);
    assert(t4 =~= Seq::<char>::empty());
    assert(t3 =~= "}}"@);
    assert(t2 == ser_monitor(v1) + "}}"@);
    assert(t1 == ",\"payload\":{\"monitor\":"@ + (ser_monitor(v1) + "}}"@));
    assert(t == ser_env(id, ts) + (",\"payload\":{\"monitor\":"@ + (ser_monitor(v1) + "}}"@)));
    assert(ser_msg_body(m) =~= "monitor_updated\",\"id\":"@ + t);
}

#[verifier::rlimit(100)]
proof fn lemma_fc_sound(t: Seq<char>)
    requires
        pmsg_flash(t) is Some,
    ensures
        ser_msg_body(pmsg_flash(t)->Some_0) == "flash_command\",\"id\":"@ + t,
{
    reveal(pmsg_flash);
    reveal(ser_msg_body);
    let m = pmsg_flash(t)->Some_0;
    let ((id, ts), t1) = penv(t)->Some_0;
    lemma_penv_sound(t);
    let t2 = plit(t1, ",\"payload\":{\"target_monitor_ids\":"@)->Some_0;
    lemma_plit_sound(t1, ",\"payload\":{\"target_monitor_ids\":"@);
    let (v1, t3) = pu64_list(t2)->Some_0;
    lemma_pu64_list_sound(t2);
    let t4 = plit(t3, "}}"@)->Some_0;
    lemma_plit_sound(t3, "}}"@);
    assert(t4.len() == 0);
    assert(t4 =~= Seq::<char>::empty());
    assert(t3 =~= "}}"@);
    assert(t2 == ser_u64_list(v1) + "}}"@);
    assert(t1 == ",\"payload\":{\"target_monitor_ids\":"@ + (ser_u64_list(v1) + "}}"@));
    assert(t == ser_env(id, ts) + (",\"payload\":{\"target_monitor_ids\":"@ + (ser_u64_list(v1) + "}}"@)));
    assert(ser_msg_body(m) =~= "flash_command\",\"id\":"@ + t);
}

#[verifier::rlimit(100)]
proof fn lemma_cc_sound(t: Seq<char>)
    requires
        pmsg_clear(t) is Some,
    ensures
        ser_msg_body(pmsg_clear(t)->Some_0) == "clear_command\",\"id\":"@ + t,
{
    reveal(pmsg_clear);
    reveal(ser_msg_body);
    let m = pmsg_clear(t)->Some_0;
    let ((id, ts), t1) = penv(t)->Some_0;
    lemma_penv_sound(t);
    let t2 = plit(t1, ",\"payload\":{\"target_monitor_ids\":"@)->Some_0;
    lemma_plit_sound(t1, ",\"payload\":{\"target_monitor_ids\":"@);
    let (v1, t3) = pu64_list(t2)->Some_0;
    lemma_pu64_list_sound(t2);
    let t4 = plit(t3, "}}"@)->Some_0;
    lemma_plit_sound(t3, "}}"@);
    assert(t4.len() == 0);
    assert(t4 =~= Seq::<char>::empty());
    assert(t3 =~= "}}"@);
    assert(t2 == ser_u64_list(v1) + "}}"@);
    assert(t1 == ",\"payload\":{\"target_monitor_ids\":"@ + (ser_u64_list(v1) + "}}"@));
    assert(t == ser_env(id, ts) + (",\"payload\":{\"target_monitor_ids\":"@ + (ser_u64_list(v1) + "}}"@)));
    assert(ser_msg_body(m) =~= "clear_command\",\"id\":"@ + t);
}

/// Parsing is sound: whatever parses is the canonical text of its result.
#[verifier::rlimit(100)]
pub proof fn lemma_pmsg_sound(t: Seq<char>)
    requires
        pmsg(t) is Some,
    ensures
        t == ser_message(pmsg(t)->Some_0),
{
    reveal(pmsg);
    let m = pmsg(t)->Some_0;
    let t0 = plit(t, "{\"type\":\""@)->Some_0;
    lemma_plit_sound(t, "{\"type\":\""@);
    if plit(t0, "client_hello\",\"id\":"@) is Some {
        let t1 = plit(t0, "client_hello\",\"id\":"@)->Some_0;
        lemma_plit_sound(t0, "client_hello\",\"id\":"@);
        lemma_ch_sound(t1);
    } else if plit(t0, "server_welcome\",\"id\":"@) is Some {
        let t1 = plit(t0, "server_welcome\",\"id\":"@)->Some_0;
        lemma_plit_sound(t0, "server_welcome\",\"id\":"@);
        lemma_sw_sound(t1);
    } else if plit(t0, "kanpe_message\",\"id\":"@) is Some {
        let t1 = plit(t0, "kanpe_message\",\"id\":"@)->Some_0;
        lemma_plit_sound(t0, "kanpe_message\",\"id\":"@);
        lemma_km_sound(t1);
    } else if plit(t0, "feedback_message\",\"id\":"@) is Some {
        let t1 = plit(t0, "feedback_message\",\"id\":"@)->Some_0;
        lemma_plit_sound(t0, "feedback_message\",\"id\":"@);
        lemma_fm_sound(t1);
    } else if plit(t0, "ping\",\"id\":"@) is Some {
        let t1 = plit(t0, "ping\",\"id\":"@)->Some_0;
        lemma_plit_sound(t0, "ping\",\"id\":"@);
        lemma_ping_sound(t1);
    } else if plit(t0, "pong\",\"id\":"@) is Some {
        let t1 = plit(t0, "pong\",\"id\":"@)->Some_0;
        lemma_plit_sound(t0, "pong\",\"id\":"@);
        lemma_pong_sound(t1);
    } else if plit(t0, "monitor_list_sync\",\"id\":"@) is Some {
        let t1 = plit(t0, "monitor_list_sync\",\"id\":"@)->Some_0;
        lemma_plit_sound(t0, "monitor_list_sync\",\"id\":"@);
        lemma_mls_sound(t1);
    } else if plit(t0, "monitor_added\",\"id\":"@) is Some {
        let t1 = plit(t0, "monitor_added\",\"id\":"@)->Some_0;
        lemma_plit_sound(t0, "monitor_added\",\"id\":"@);
        lemma_ma_sound(t1);
    } else if plit(t0, "monitor_removed\",\"id\":"@) is Some {
        let t1 = plit(t0, "monitor_removed\",\"id\":"@)->Some_0;
        lemma_plit_sound(t0, "monitor_removed\",\"id\":"@);
        lemma_mr_sound(t1);
    } else if plit(t0, "monitor_updated\",\"id\":"@) is Some {
        let t1 = plit(t0, "monitor_updated\",\"id\":"@)->Some_0;
        lemma_plit_sound(t0, "monitor_updated\",\"id\":"@);
        lemma_mu_sound(t1);
    } else if plit(t0, "flash_command\",\"id\":"@) is Some {
        let t1 = plit(t0, "flash_command\",\"id\":"@)->Some_0;
        lemma_plit_sound(t0, "flash_command\",\"id\":"@);
        lemma_fc_sound(t1);
    } else {
        let t1 = plit(t0, "clear_command\",\"id\":"@)->Some_0;
        lemma_plit_sound(t0, "clear_command\",\"id\":"@);
        lemma_cc_sound(t1);
    }
}

// ---------------------------------------------------------------------------
// Executable serialization
// ---------------------------------------------------------------------------

fn emit_priority(out: &mut String, p: &Priority)
    ensures
        final(out)@ == old(out)@ + ser_priority(*p),
{
    match p {
        Priority::Normal => emit_lit(out, "\"normal\""),
        Priority::High => emit_lit(out, "\"high\""),
        Priority::Urgent => emit_lit(out, "\"urgent\""),
    }
}

fn emit_feedback(out: &mut String, f: &FeedbackType)
    ensures
        final(out)@ == old(out)@ + ser_feedback(*f),
{
    match f {
        FeedbackType::Ack => emit_lit(out, "\"ack\""),
        FeedbackType::Question => emit_lit(out, "\"question\""),
        FeedbackType::Issue => emit_lit(out, "\"issue\""),
        FeedbackType::Info => emit_lit(out, "\"info\""),
    }
}

fn emit_opt_str(out: &mut String, o: &Option<String>)
    ensures
        final(out)@ == old(out)@ + ser_opt_str(opt_string_view(*o)),
{
    match o {
        Some(s) => emit_jstr(out, s.as_str()),
        None => emit_lit(out, "null"),
    }
}

fn emit_u64_rest(out: &mut String, v: &Vec<u64>, k: usize)
    requires
        k <= v.len(),
    ensures
        final(out)@ == old(out)@ + ser_u64_rest(v@.skip(k as int)),
    decreases v.len() - k,
{
    if k == v.len() {
        emit_lit(out, "]");
        proof {
            assert(v@.skip(k as int).len() == 0);
        }
    } else {
        emit_lit(out, ",");
        emit_u64(out, v[k]);
        emit_u64_rest(out, v, k + 1);
        proof {
            let l = v@.skip(k as int);
            assert(l[0] == v@[k as int]);
            assert(l.drop_first() =~= v@.skip(k + 1 as int));
            assert(out@ =~= old(out)@ + ser_u64_rest(l));
        }
    }
}

pub(crate) fn emit_u64_list(out: &mut String, v: &Vec<u64>)
    ensures
        final(out)@ == old(out)@ + ser_u64_list(v@),
{
    if v.len() == 0 {
        emit_lit(out, "[]");
    } else {
        emit_lit(out, "[");
        emit_u64(out, v[0]);
        emit_u64_rest(out, v, 1);
        proof {
            assert(v@.drop_first() =~= v@.skip(1));
            assert(out@ =~= old(out)@ + ser_u64_list(v@));
        }
    }
}

fn emit_monitor(out: &mut String, m: &VirtualMonitor)
    ensures
        final(out)@ == old(out)@ + ser_monitor(m@),
{
    emit_lit(out, "{\"id\":");
    emit_u64(out, m.id);
    emit_lit(out, ",\"name\":");
    emit_jstr(out, m.name.as_str());
    emit_lit(out, ",\"description\":");
    emit_opt_str(out, &m.description);
    emit_lit(out, ",\"color\":");
    emit_opt_str(out, &m.color);
    emit_lit(out, "}");
    proof {
        assert(out@ =~= old(out)@ + ser_monitor(m@));
    }
}

fn emit_mon_rest(out: &mut String, v: &Vec<VirtualMonitor>, k: usize)
    requires
        k <= v.len(),
    ensures
        final(out)@ == old(out)@ + ser_mon_rest(monitors_view(v@).skip(k as int)),
    decreases v.len() - k,
{
    if k == v.len() {
        emit_lit(out, "]");
        proof {
            assert(monitors_view(v@).skip(k as int).len() == 0);
        }
    } else {
        emit_lit(out, ",");
        emit_monitor(out, &v[k]);
        emit_mon_rest(out, v, k + 1);
        proof {
            let l = monitors_view(v@).skip(k as int);
            assert(l[0] == v@[k as int]@);
            assert(l.drop_first() =~= monitors_view(v@).skip(k + 1 as int));
            assert(out@ =~= old(out)@ + ser_mon_rest(l));
        }
    }
}

pub(crate) fn emit_mon_list(out: &mut String, v: &Vec<VirtualMonitor>)
    ensures
        final(out)@ == old(out)@ + ser_mon_list(monitors_view(v@)),
{
    if v.len() == 0 {
        emit_lit(out, "[]");
        proof {
            assert(monitors_view(v@).len() == 0);
        }
    } else {
        emit_lit(out, "[");
        emit_monitor(out, &v[0]);
        emit_mon_rest(out, v, 1);
        proof {
            let l = monitors_view(v@);
            assert(l[0] == v@[0]@);
            assert(l.drop_first() =~= l.skip(1));
            assert(out@ =~= old(out)@ + ser_mon_list(l));
        }
    }
}

fn emit_env(out: &mut String, id: &String, ts: i64)
    ensures
        final(out)@ == old(out)@ + ser_env(id@, ts),
{
    emit_jstr(out, id.as_str());
    emit_lit(out, ",\"timestamp\":");
    emit_i64(out, ts);
    proof {
        assert(out@ =~= old(out)@ + ser_env(id@, ts));
    }
}

#[verifier::rlimit(100)]
fn emit_body_ch(out: &mut String, id: &String, ts: i64, p: &ClientHelloPayload)
    ensures
        final(out)@ == old(out)@ + ser_msg_body(
            MessageView::ClientHello { id: id@, timestamp: ts, payload: p@ },
        ),
{
    emit_lit(out, "client_hello\",\"id\":");
    emit_env(out, id, ts);
    emit_lit(out, ",\"payload\":{\"client_name\":");
    emit_jstr(out, p.client_name.as_str());
    emit_lit(out, ",\"display_monitor_ids\":");
    emit_u64_list(out, &p.display_monitor_ids);
    emit_lit(out, "}}");
    proof {
        reveal(ser_msg_body);
        assert(out@ =~= old(out)@ + ser_msg_body(
            MessageView::ClientHello { id: id@, timestamp: ts, payload: p@ },
        ));
    }
}

#[verifier::rlimit(100)]
fn emit_body_sw(out: &mut String, id: &String, ts: i64, p: &ServerWelcomePayload)
    ensures
        final(out)@ == old(out)@ + ser_msg_body(
            MessageView::ServerWelcome { id: id@, timestamp: ts, payload: p@ },
        ),
{
    emit_lit(out, "server_welcome\",\"id\":");
    emit_env(out, id, ts);
    emit_lit(out, ",\"payload\":{\"server_name\":");
    emit_jstr(out, p.server_name.as_str());
    emit_lit(out, ",\"assigned_client_id\":");
    emit_jstr(out, p.assigned_client_id.as_str());
    emit_lit(out, "}}");
    proof {
        reveal(ser_msg_body);
        assert(out@ =~= old(out)@ + ser_msg_body(
            MessageView::ServerWelcome { id: id@, timestamp: ts, payload: p@ },
        ));
    }
}

#[verifier::rlimit(100)]
fn emit_body_km(out: &mut String, id: &String, ts: i64, p: &KanpeMessagePayload)
    ensures
        final(out)@ == old(out)@ + ser_msg_body(
            MessageView::KanpeMessage { id: id@, timestamp: ts, payload: p@ },
        ),
{
    emit_lit(out, "kanpe_message\",\"id\":");
    emit_env(out, id, ts);
    emit_lit(out, ",\"payload\":{\"content\":");
    emit_jstr(out, p.content.as_str());
    emit_lit(out, ",\"target_monitor_ids\":");
    emit_u64_list(out, &p.target_monitor_ids);
    emit_lit(out, ",\"priority\":");
    emit_priority(out, &p.priority);
    emit_lit(out, "}}");
    proof {
        reveal(ser_msg_body);
        assert(out@ =~= old(out)@ + ser_msg_body(
            MessageView::KanpeMessage { id: id@, timestamp: ts, payload: p@ },
        ));
    }
}

#[verifier::rlimit(100)]
fn emit_body_fm(out: &mut String, id: &String, ts: i64, p: &FeedbackMessagePayload)
    ensures
        final(out)@ == old(out)@ + ser_msg_body(
            MessageView::FeedbackMessage { id: id@, timestamp: ts, payload: p@ },
        ),
{
    emit_lit(out, "feedback_message\",\"id\":");
    emit_env(out, id, ts);
    emit_lit(out, ",\"payload\":{\"content\":");
    emit_jstr(out, p.content.as_str());
    emit_lit(out, ",\"client_name\":");
    emit_jstr(out, p.client_name.as_str());
    emit_lit(out, ",\"reply_to_message_id\":");
    emit_jstr(out, p.reply_to_message_id.as_str());
    emit_lit(out, ",\"feedback_type\":");
    emit_feedback(out, &p.feedback_type);
    emit_lit(out, "}}");
    proof {
        reveal(ser_msg_body);
        assert(out@ =~= old(out)@ + ser_msg_body(
            MessageView::FeedbackMessage { id: id@, timestamp: ts, payload: p@ },
        ));
    }
}

#[verifier::rlimit(100)]
fn emit_body_mls(out: &mut String, id: &String, ts: i64, p: &MonitorListSyncPayload)
    ensures
        final(out)@ == old(out)@ + ser_msg_body(
            MessageView::MonitorListSync { id: id@, timestamp: ts, monitors: monitors_view(p.monitors@) },
        ),
{
    emit_lit(out, "monitor_list_sync\",\"id\":");
    emit_env(out, id, ts);
    emit_lit(out, ",\"payload\":{\"monitors\":");
    emit_mon_list(out, &p.monitors);
    emit_lit(out, "}}");
    proof {
        reveal(ser_msg_body);
        assert(out@ =~= old(out)@ + ser_msg_body(
            MessageView::MonitorListSync { id: id@, timestamp: ts, monitors: monitors_view(p.monitors@) },
        ));
    }
}

#[verifier::rlimit(100)]
fn emit_body_ma(out: &mut String, id: &String, ts: i64, p: &MonitorAddedPayload)
    ensures
        final(out)@ == old(out)@ + ser_msg_body(
            MessageView::MonitorAdded { id: id@, timestamp: ts, monitor: p.monitor@ },
        ),
{
    emit_lit(out, "monitor_added\",\"id\":");
    emit_env(out, id, ts);
    emit_lit(out, ",\"payload\":{\"monitor\":");
    emit_monitor(out, &p.monitor);
    emit_lit(out, "}}");
    proof {
        reveal(ser_msg_body);
        assert(out@ =~= old(out)@ + ser_msg_body(
            MessageView::MonitorAdded { id: id@, timestamp: ts, monitor: p.monitor@ },
        ));
    }
}

#[verifier::rlimit(100)]
fn emit_body_mr(out: &mut String, id: &String, ts: i64, p: &MonitorRemovedPayload)
    ensures
        final(out)@ == old(out)@ + ser_msg_body(
            MessageView::MonitorRemoved { id: id@, timestamp: ts, monitor_id: p.monitor_id },
        ),
{
    emit_lit(out, "monitor_removed\",\"id\":");
    emit_env(out, id, ts);
    emit_lit(out, ",\"payload\":{\"monitor_id\":");
    emit_u64(out, p.monitor_id);
    emit_lit(out, "}}");
    proof {
        reveal(ser_msg_body);
        assert(out@ =~= old(out)@ + ser_msg_body(
            MessageView::MonitorRemoved { id: id@, timestamp: ts, monitor_id: p.monitor_id },
        ));
    }
}

#[verifier::rlimit(100)]
fn emit_body_mu(out: &mut String, id: &String, ts: i64, p: &MonitorUpdatedPayload)
    ensures
        final(out)@ == old(out)@ + ser_msg_body(
            MessageView::MonitorUpdated { id: id@, timestamp: ts, monitor: p.monitor@ },
        ),
{
    emit_lit(out, "monitor_updated\",\"id\":");
    emit_env(out, id, ts);
    emit_lit(out, ",\"payload\":{\"monitor\":");
    emit_monitor(out, &p.monitor);
    emit_lit(out, "}}");
    proof {
        reveal(ser_msg_body);
        assert(out@ =~= old(out)@ + ser_msg_body(
            MessageView::MonitorUpdated { id: id@, timestamp: ts, monitor: p.monitor@ },
        ));
    }
}

#[verifier::rlimit(100)]
fn emit_body_fc(out: &mut String, id: &String, ts: i64, p: &FlashCommandPayload)
    ensures
        final(out)@ == old(out)@ + ser_msg_body(
            MessageView::FlashCommand { id: id@, timestamp: ts, target_monitor_ids: p.target_monitor_ids@ },
        ),
{
    emit_lit(out, "flash_command\",\"id\":");
    emit_env(out, id, ts);
    emit_lit(out, ",\"payload\":{\"target_monitor_ids\":");
    emit_u64_list(out, &p.target_monitor_ids);
    emit_lit(out, "}}");
    proof {
        reveal(ser_msg_body);
        assert(out@ =~= old(out)@ + ser_msg_body(
            MessageView::FlashCommand { id: id@, timestamp: ts, target_monitor_ids: p.target_monitor_ids@ },
        ));
    }
}

#[verifier::rlimit(100)]
fn emit_body_cc(out: &mut String, id: &String, ts: i64, p: &ClearCommandPayload)
    ensures
        final(out)@ == old(out)@ + ser_msg_body(
            MessageView::ClearCommand { id: id@, timestamp: ts, target_monitor_ids: p.target_monitor_ids@ },
        ),
{
    emit_lit(out, "clear_command\",\"id\":");
    emit_env(out, id, ts);
    emit_lit(out, ",\"payload\":{\"target_monitor_ids\":");
    emit_u64_list(out, &p.target_monitor_ids);
    emit_lit(out, "}}");
    proof {
        reveal(ser_msg_body);
        assert(out@ =~= old(out)@ + ser_msg_body(
            MessageView::ClearCommand { id: id@, timestamp: ts, target_monitor_ids: p.target_monitor_ids@ },
        ));
    }
}

fn emit_body_ping(out: &mut String, id: &String, ts: i64)
    ensures
        final(out)@ == old(out)@ + ser_msg_body(MessageView::Ping { id: id@, timestamp: ts }),
{
    emit_lit(out, "ping\",\"id\":");
    emit_env(out, id, ts);
    emit_lit(out, "}");
    proof {
        reveal(ser_msg_body);
        assert(out@ =~= old(out)@ + ser_msg_body(MessageView::Ping { id: id@, timestamp: ts }));
    }
}

fn emit_body_pong(out: &mut String, id: &String, ts: i64)
    ensures
        final(out)@ == old(out)@ + ser_msg_body(MessageView::Pong { id: id@, timestamp: ts }),
{
    emit_lit(out, "pong\",\"id\":");
    emit_env(out, id, ts);
    emit_lit(out, "}");
    proof {
        reveal(ser_msg_body);
        assert(out@ =~= old(out)@ + ser_msg_body(MessageView::Pong { id: id@, timestamp: ts }));
    }
}

/// The canonical wire text of a message.
pub fn serialize_message(m: &Message) -> (s: String)
    ensures
        s@ == ser_message(m@),
{
    let mut out = String::new();
    emit_lit(&mut out, "{\"type\":\"");
    match m {
        Message::ClientHello { id, timestamp, payload } => emit_body_ch(&mut out, id, *timestamp, payload),
        Message::ServerWelcome { id, timestamp, payload } => emit_body_sw(&mut out, id, *timestamp, payload),
        Message::KanpeMessage { id, timestamp, payload } => emit_body_km(&mut out, id, *timestamp, payload),
        Message::FeedbackMessage { id, timestamp, payload } => emit_body_fm(&mut out, id, *timestamp, payload),
        Message::Ping { id, timestamp } => emit_body_ping(&mut out, id, *timestamp),
        Message::Pong { id, timestamp } => emit_body_pong(&mut out, id, *timestamp),
        Message::MonitorListSync { id, timestamp, payload } => emit_body_mls(&mut out, id, *timestamp, payload),
        Message::MonitorAdded { id, timestamp, payload } => emit_body_ma(&mut out, id, *timestamp, payload),
        Message::MonitorRemoved { id, timestamp, payload } => emit_body_mr(&mut out, id, *timestamp, payload),
        Message::MonitorUpdated { id, timestamp, payload } => emit_body_mu(&mut out, id, *timestamp, payload),
        Message::FlashCommand { id, timestamp, payload } => emit_body_fc(&mut out, id, *timestamp, payload),
        Message::ClearCommand { id, timestamp, payload } => emit_body_cc(&mut out, id, *timestamp, payload),
    }
    out
}


// ---------------------------------------------------------------------------
// Executable parsing
// ---------------------------------------------------------------------------

/// Why an inbound frame was rejected.  A malformed frame is not fatal for a
/// connection: callers log and skip it.
#[derive(Debug, Clone, Copy, PartialEq, Eq, Structural)]
pub enum ProtocolError {
    MalformedMessage,
}

fn parse_priority(cs: &Vec<char>, i: usize) -> (r: Option<(Priority, usize)>)
    requires
        i <= cs.len(),
    ensures
        match r {
            Some((p, j)) => {
                &&& i <= j <= cs@.len()
                &&& ppriority(cs@.skip(i as int)) == Some((p, cs@.skip(j as int)))
            },
            None => ppriority(cs@.skip(i as int)) is None,
        },
{
    if let Some(j) = parse_lit(cs, i, "\"normal\"") {
        Some((Priority::Normal, j))
    } else if let Some(j) = parse_lit(cs, i, "\"high\"") {
        Some((Priority::High, j))
    } else if let Some(j) = parse_lit(cs, i, "\"urgent\"") {
        Some((Priority::Urgent, j))
    } else {
        None
    }
}

fn parse_feedback(cs: &Vec<char>, i: usize) -> (r: Option<(FeedbackType, usize)>)
    requires
        i <= cs.len(),
    ensures
        match r {
            Some((f, j)) => {
                &&& i <= j <= cs@.len()
                &&& pfeedback(cs@.skip(i as int)) == Some((f, cs@.skip(j as int)))
            },
            None => pfeedback(cs@.skip(i as int)) is None,
        },
{
    if let Some(j) = parse_lit(cs, i, "\"ack\"") {
        Some((FeedbackType::Ack, j))
    } else if let Some(j) = parse_lit(cs, i, "\"question\"") {
        Some((FeedbackType::Question, j))
    } else if let Some(j) = parse_lit(cs, i, "\"issue\"") {
        Some((FeedbackType::Issue, j))
    } else if let Some(j) = parse_lit(cs, i, "\"info\"") {
        Some((FeedbackType::Info, j))
    } else {
        None
    }
}

fn parse_opt_str(cs: &Vec<char>, i: usize) -> (r: Option<(Option<String>, usize)>)
    requires
        i <= cs.len(),
    ensures
        match r {
            Some((o, j)) => {
                &&& i <= j <= cs@.len()
                &&& popt_str(cs@.skip(i as int)) == Some((opt_string_view(o), cs@.skip(j as int)))
            },
            None => popt_str(cs@.skip(i as int)) is None,
        },
{
    let ghost t = cs@.skip(i as int);
    if i < cs.len() && cs[i] == '"' {
        proof {
            assert(t[0] == cs@[i as int]);
        }
        match parse_jstr(cs, i) {
            Some((s, j)) => Some((Some(s), j)),
            None => None,
        }
    } else {
        proof {
            if t.len() > 0 {
                assert(t[0] == cs@[i as int]);
            }
        }
        match parse_lit(cs, i, "null") {
            Some(j) => Some((None, j)),
            None => None,
        }
    }
}

fn parse_monitor(cs: &Vec<char>, i: usize) -> (r: Option<(VirtualMonitor, usize)>)
    requires
        i <= cs.len(),
    ensures
        match r {
            Some((m, j)) => {
                &&& i <= j <= cs@.len()
                &&& pmonitor(cs@.skip(i as int)) == Some((m@, cs@.skip(j as int)))
            },
            None => pmonitor(cs@.skip(i as int)) is None,
        },
{
    proof {
        reveal(pmonitor);
    }
    let j1 = match parse_lit(cs, i, "{\"id\":") {
        Some(j) => j,
        None => { return None; },
    };
    let (id, j2) = match parse_u64(cs, j1) {
        Some(v) => v,
        None => { return None; },
    };
    let j3 = match parse_lit(cs, j2, ",\"name\":") {
        Some(j) => j,
        None => { return None; },
    };
    let (name, j4) = match parse_jstr(cs, j3) {
        Some(v) => v,
        None => { return None; },
    };
    let j5 = match parse_lit(cs, j4, ",\"description\":") {
        Some(j) => j,
        None => { return None; },
    };
    let (description, j6) = match parse_opt_str(cs, j5) {
        Some(v) => v,
        None => { return None; },
    };
    let j7 = match parse_lit(cs, j6, ",\"color\":") {
        Some(j) => j,
        None => { return None; },
    };
    let (color, j8) = match parse_opt_str(cs, j7) {
        Some(v) => v,
        None => { return None; },
    };
    let j9 = match parse_lit(cs, j8, "}") {
        Some(j) => j,
        None => { return None; },
    };
    Some((VirtualMonitor { id, name, description, color }, j9))
}

pub open spec fn u64_list_cont(a: Seq<u64>, r: Option<(Seq<u64>, Seq<char>)>) -> Option<
    (Seq<u64>, Seq<char>),
> {
    match r {
        Some((l, rest)) => Some((a + l, rest)),
        None => None,
    }
}

proof fn lemma_u64_cont_cons(a: Seq<u64>, v: u64, r: Option<(Seq<u64>, Seq<char>)>)
    ensures
        ({
            let cons = match r {
                Some((l, rest)) => Some((seq![v] + l, rest)),
                None => None,
            };
            u64_list_cont(a, cons) == u64_list_cont(a.push(v), r)
        }),
{
    match r {
        Some((l, rest)) => {
            assert(a + (seq![v] + l) =~= a.push(v) + l);
        },
        None => {},
    }
}

fn parse_u64_list(cs: &Vec<char>, i: usize) -> (r: Option<(Vec<u64>, usize)>)
    requires
        i <= cs.len(),
    ensures
        match r {
            Some((l, j)) => {
                &&& i <= j <= cs@.len()
                &&& pu64_list(cs@.skip(i as int)) == Some((l@, cs@.skip(j as int)))
            },
            None => pu64_list(cs@.skip(i as int)) is None,
        },
{
    let ghost t = cs@.skip(i as int);
    if i == cs.len() || cs[i] != '[' {
        proof {
            if t.len() > 0 {
                assert(t[0] == cs@[i as int]);
            }
        }
        return None;
    }
    proof {
        assert(t[0] == cs@[i as int]);
        assert(t.skip(1) =~= cs@.skip(i + 1 as int));
    }
    if i + 1 < cs.len() && cs[i + 1] == ']' {
        let l: Vec<u64> = Vec::new();
        proof {
            assert(t[1] == cs@[i + 1]);
            assert(t.skip(2) =~= cs@.skip(i + 2 as int));
            assert(l@ =~= Seq::<u64>::empty());
        }
        return Some((l, i + 2));
    }
    proof {
        if i + 1 < cs.len() {
            assert(t[1] == cs@[i + 1]);
        }
        assert(!(t.len() >= 2 && t[0] == '[' && t[1] == ']'));
    }
    let (v0, j0) = match parse_u64(cs, i + 1) {
        Some(v) => v,
        None => { return None; },
    };
    let mut acc: Vec<u64> = Vec::new();
    acc.push(v0);
    let mut j: usize = j0;
    proof {
        assert(acc@ =~= seq![v0]);
        assert(cs@.skip(j as int).len() < t.len());
    }
    loop
        invariant
            i < j <= cs.len(),
            t == cs@.skip(i as int),
            pu64_list(t) == u64_list_cont(acc@, pu64_list_rest(cs@.skip(j as int))),
        decreases cs.len() - j,
    {
        let ghost u = cs@.skip(j as int);
        if j == cs.len() {
            proof {
                assert(u.len() == 0);
            }
            return None;
        }
        proof {
            assert(u[0] == cs@[j as int]);
            assert(u.skip(1) =~= cs@.skip(j + 1 as int));
        }
        let c = cs[j];
        if c == ']' {
            proof {
                assert(pu64_list_rest(u) == Some((Seq::<u64>::empty(), u.skip(1))));
                assert(acc@ + Seq::<u64>::empty() =~= acc@);
            }
            return Some((acc, j + 1));
        } else if c == ',' {
            let (v, j2) = match parse_u64(cs, j + 1) {
                Some(v) => v,
                None => { return None; },
            };
            proof {
                assert(cs@.skip(j2 as int).len() < u.len());
                lemma_u64_cont_cons(acc@, v, pu64_list_rest(cs@.skip(j2 as int)));
            }
            acc.push(v);
            j = j2;
        } else {
            proof {
                assert(pu64_list_rest(u) is None);
            }
            return None;
        }
    }
}

pub open spec fn mon_list_cont(a: Seq<MonitorView>, r: Option<(Seq<MonitorView>, Seq<char>)>) -> Option<
    (Seq<MonitorView>, Seq<char>),
> {
    match r {
        Some((l, rest)) => Some((a + l, rest)),
        None => None,
    }
}

proof fn lemma_mon_cont_cons(a: Seq<MonitorView>, m: MonitorView, r: Option<(Seq<MonitorView>, Seq<char>)>)
    ensures
        ({
            let cons = match r {
                Some((l, rest)) => Some((seq![m] + l, rest)),
                None => None,
            };
            mon_list_cont(a, cons) == mon_list_cont(a.push(m), r)
        }),
{
    match r {
        Some((l, rest)) => {
            assert(a + (seq![m] + l) =~= a.push(m) + l);
        },
        None => {},
    }
}

fn parse_mon_list(cs: &Vec<char>, i: usize) -> (r: Option<(Vec<VirtualMonitor>, usize)>)
    requires
        i <= cs.len(),
    ensures
        match r {
            Some((l, j)) => {
                &&& i <= j <= cs@.len()
                &&& pmon_list(cs@.skip(i as int)) == Some((monitors_view(l@), cs@.skip(j as int)))
            },
            None => pmon_list(cs@.skip(i as int)) is None,
        },
{
    let ghost t = cs@.skip(i as int);
    if i == cs.len() || cs[i] != '[' {
        proof {
            if t.len() > 0 {
                assert(t[0] == cs@[i as int]);
            }
        }
        return None;
    }
    proof {
        assert(t[0] == cs@[i as int]);
        assert(t.skip(1) =~= cs@.skip(i + 1 as int));
    }
    if i + 1 < cs.len() && cs[i + 1] == ']' {
        let l: Vec<VirtualMonitor> = Vec::new();
        proof {
            assert(t[1] == cs@[i + 1]);
            assert(t.skip(2) =~= cs@.skip(i + 2 as int));
            assert(monitors_view(l@) =~= Seq::<MonitorView>::empty());
        }
        return Some((l, i + 2));
    }
    proof {
        if i + 1 < cs.len() {
            assert(t[1] == cs@[i + 1]);
        }
        assert(!(t.len() >= 2 && t[0] == '[' && t[1] == ']'));
    }
    let (m0, j0) = match parse_monitor(cs, i + 1) {
        Some(v) => v,
        None => { return None; },
    };
    let mut acc: Vec<VirtualMonitor> = Vec::new();
    acc.push(m0);
    let mut j: usize = j0;
    proof {
        assert(monitors_view(acc@) =~= seq![m0@]);
        assert(cs@.skip(j as int).len() < t.len());
    }
    loop
        invariant
            i < j <= cs.len(),
            t == cs@.skip(i as int),
            pmon_list(t) == mon_list_cont(monitors_view(acc@), pmon_list_rest(cs@.skip(j as int))),
        decreases cs.len() - j,
    {
        let ghost u = cs@.skip(j as int);
        if j == cs.len() {
            proof {
                assert(u.len() == 0);
            }
            return None;
        }
        proof {
            assert(u[0] == cs@[j as int]);
            assert(u.skip(1) =~= cs@.skip(j + 1 as int));
        }
        let c = cs[j];
        if c == ']' {
            proof {
                assert(pmon_list_rest(u) == Some((Seq::<MonitorView>::empty(), u.skip(1))));
                assert(monitors_view(acc@) + Seq::<MonitorView>::empty() =~= monitors_view(acc@));
            }
            return Some((acc, j + 1));
        } else if c == ',' {
            let (m, j2) = match parse_monitor(cs, j + 1) {
                Some(v) => v,
                None => { return None; },
            };
            proof {
                assert(cs@.skip(j2 as int).len() < u.len());
                lemma_mon_cont_cons(monitors_view(acc@), m@, pmon_list_rest(cs@.skip(j2 as int)));
            }
            let ghost prev = acc@;
            acc.push(m);
            proof {
                assert(monitors_view(acc@) =~= monitors_view(prev).push(m@));
            }
            j = j2;
        } else {
            proof {
                assert(pmon_list_rest(u) is None);
            }
            return None;
        }
    }
}

fn parse_env(cs: &Vec<char>, i: usize) -> (r: Option<((String, i64), usize)>)
    requires
        i <= cs.len(),
    ensures
        match r {
            Some(((id, ts), j)) => {
                &&& i <= j <= cs@.len()
                &&& penv(cs@.skip(i as int)) == Some(((id@, ts), cs@.skip(j as int)))
            },
            None => penv(cs@.skip(i as int)) is None,
        },
{
    let (id, j1) = match parse_jstr(cs, i) {
        Some(v) => v,
        None => { return None; },
    };
    let j2 = match parse_lit(cs, j1, ",\"timestamp\":") {
        Some(j) => j,
        None => { return None; },
    };
    let (ts, j3) = match parse_i64(cs, j2) {
        Some(v) => v,
        None => { return None; },
    };
    Some(((id, ts), j3))
}

fn parse_body_ch(cs: &Vec<char>, i: usize) -> (r: Option<Message>)
    requires
        i <= cs.len(),
    ensures
        match r {
            Some(m) => pmsg_client_hello(cs@.skip(i as int)) == Some(m@),
            None => pmsg_client_hello(cs@.skip(i as int)) is None,
        },
{
    proof {
        reveal(pmsg_client_hello);
    }
    let ((id, ts), j1) = match parse_env(cs, i) {
        Some(v) => v,
        None => { return None; },
    };
    let j2 = match parse_lit(cs, j1, ",\"payload\":{\"client_name\":") {
        Some(j) => j,
        None => { return None; },
    };
    let (nm, j3) = match parse_jstr(cs, j2) {
        Some(v) => v,
        None => { return None; },
    };
    let j4 = match parse_lit(cs, j3, ",\"display_monitor_ids\":") {
        Some(j) => j,
        None => { return None; },
    };
    let (ids, j5) = match parse_u64_list(cs, j4) {
        Some(v) => v,
        None => { return None; },
    };
    let j6 = match parse_lit(cs, j5, "}}") {
        Some(j) => j,
        None => { return None; },
    };
    if j6 != cs.len() {
        return None;
    }
    Some(Message::ClientHello { id, timestamp: ts, payload: ClientHelloPayload { client_name: nm, display_monitor_ids: ids } })
}

fn parse_body_sw(cs: &Vec<char>, i: usize) -> (r: Option<Message>)
    requires
        i <= cs.len(),
    ensures
        match r {
            Some(m) => pmsg_server_welcome(cs@.skip(i as int)) == Some(m@),
            None => pmsg_server_welcome(cs@.skip(i as int)) is None,
        },
{
    proof {
        reveal(pmsg_server_welcome);
    }
    let ((id, ts), j1) = match parse_env(cs, i) {
        Some(v) => v,
        None => { return None; },
    };
    let j2 = match parse_lit(cs, j1, ",\"payload\":{\"server_name\":") {
        Some(j) => j,
        None => { return None; },
    };
    let (nm, j3) = match parse_jstr(cs, j2) {
        Some(v) => v,
        None => { return None; },
    };
    let j4 = match parse_lit(cs, j3, ",\"assigned_client_id\":") {
        Some(j) => j,
        None => { return None; },
    };
    let (cid, j5) = match parse_jstr(cs, j4) {
        Some(v) => v,
        None => { return None; },
    };
    let j6 = match parse_lit(cs, j5, "}}") {
        Some(j) => j,
        None => { return None; },
    };
    if j6 != cs.len() {
        return None;
    }
    Some(Message::ServerWelcome { id, timestamp: ts, payload: ServerWelcomePayload { server_name: nm, assigned_client_id: cid } })
}

fn parse_body_km(cs: &Vec<char>, i: usize) -> (r: Option<Message>)
    requires
        i <= cs.len(),
    ensures
        match r {
            Some(m) => pmsg_kanpe(cs@.skip(i as int)) == Some(m@),
            None => pmsg_kanpe(cs@.skip(i as int)) is None,
        },
{
    proof {
        reveal(pmsg_kanpe);
    }
    let ((id, ts), j1) = match parse_env(cs, i) {
        Some(v) => v,
        None => { return None; },
    };
    let j2 = match parse_lit(cs, j1, ",\"payload\":{\"content\":") {
        Some(j) => j,
        None => { return None; },
    };
    let (content, j3) = match parse_jstr(cs, j2) {
        Some(v) => v,
        None => { return None; },
    };
    let j4 = match parse_lit(cs, j3, ",\"target_monitor_ids\":") {
        Some(j) => j,
        None => { return None; },
    };
    let (ids, j5) = match parse_u64_list(cs, j4) {
        Some(v) => v,
        None => { return None; },
    };
    let j6 = match parse_lit(cs, j5, ",\"priority\":") {
        Some(j) => j,
        None => { return None; },
    };
    let (pri, j7) = match parse_priority(cs, j6) {
        Some(v) => v,
        None => { return None; },
    };
    let j8 = match parse_lit(cs, j7, "}}") {
        Some(j) => j,
        None => { return None; },
    };
    if j8 != cs.len() {
        return None;
    }
    Some(Message::KanpeMessage { id, timestamp: ts, payload: KanpeMessagePayload { content, target_monitor_ids: ids, priority: pri } })
}

fn parse_body_fm(cs: &Vec<char>, i: usize) -> (r: Option<Message>)
    requires
        i <= cs.len(),
    ensures
        match r {
            Some(m) => pmsg_feedback(cs@.skip(i as int)) == Some(m@),
            None => pmsg_feedback(cs@.skip(i as int)) is None,
        },
{
    proof {
        reveal(pmsg_feedback);
    }
    let ((id, ts), j1) = match parse_env(cs, i) {
        Some(v) => v,
        None => { return None; },
    };
    let j2 = match parse_lit(cs, j1, ",\"payload\":{\"content\":") {
        Some(j) => j,
        None => { return None; },
    };
    let (content, j3) = match parse_jstr(cs, j2) {
        Some(v) => v,
        None => { return None; },
    };
    let j4 = match parse_lit(cs, j3, ",\"client_name\":") {
        Some(j) => j,
        None => { return None; },
    };
    let (nm, j5) = match parse_jstr(cs, j4) {
        Some(v) => v,
        None => { return None; },
    };
    let j6 = match parse_lit(cs, j5, ",\"reply_to_message_id\":") {
        Some(j) => j,
        None => { return None; },
    };
    let (reply, j7) = match parse_jstr(cs, j6) {
        Some(v) => v,
        None => { return None; },
    };
    let j8 = match parse_lit(cs, j7, ",\"feedback_type\":") {
        Some(j) => j,
        None => { return None; },
    };
    let (ft, j9) = match parse_feedback(cs, j8) {
        Some(v) => v,
        None => { return None; },
    };
    let j10 = match parse_lit(cs, j9, "}}") {
        Some(j) => j,
        None => { return None; },
    };
    if j10 != cs.len() {
        return None;
    }
    Some(Message::FeedbackMessage { id, timestamp: ts, payload: FeedbackMessagePayload { content, client_name: nm, reply_to_message_id: reply, feedback_type: ft } })
}

fn parse_body_mls(cs: &Vec<char>, i: usize) -> (r: Option<Message>)
    requires
        i <= cs.len(),
    ensures
        match r {
            Some(m) => pmsg_monitor_list_sync(cs@.skip(i as int)) == Some(m@),
            None => pmsg_monitor_list_sync(cs@.skip(i as int)) is None,
        },
{
    proof {
        reveal(pmsg_monitor_list_sync);
    }
    let ((id, ts), j1) = match parse_env(cs, i) {
        Some(v) => v,
        None => { return None; },
    };
    let j2 = match parse_lit(cs, j1, ",\"payload\":{\"monitors\":") {
        Some(j) => j,
        None => { return None; },
    };
    let (ms, j3) = match parse_mon_list(cs, j2) {
        Some(v) => v,
        None => { return None; },
    };
    let j4 = match parse_lit(cs, j3, "}}") {
        Some(j) => j,
        None => { return None; },
    };
    if j4 != cs.len() {
        return None;
    }
    Some(Message::MonitorListSync { id, timestamp: ts, payload: MonitorListSyncPayload { monitors: ms } })
}

fn parse_body_ma(cs: &Vec<char>, i: usize) -> (r: Option<Message>)
    requires
        i <= cs.len(),
    ensures
        match r {
            Some(m) => pmsg_monitor_added(cs@.skip(i as int)) == Some(m@),
            None => pmsg_monitor_added(cs@.skip(i as int)) is None,
        },
{
    proof {
        reveal(pmsg_monitor_added);
    }
    let ((id, ts), j1) = match parse_env(cs, i) {
        Some(v) => v,
        None => { return None; },
    };
    let j2 = match parse_lit(cs, j1, ",\"payload\":{\"monitor\":") {
        Some(j) => j,
        None => { return None; },
    };
    let (mon, j3) = match parse_monitor(cs, j2) {
        Some(v) => v,
        None => { return None; },
    };
    let j4 = match parse_lit(cs, j3, "}}") {
        Some(j) => j,
        None => { return None; },
    };
    if j4 != cs.len() {
        return None;
    }
    Some(Message::MonitorAdded { id, timestamp: ts, payload: MonitorAddedPayload { monitor: mon } })
}

fn parse_body_mr(cs: &Vec<char>, i: usize) -> (r: Option<Message>)
    requires
        i <= cs.len(),
    ensures
        match r {
            Some(m) => pmsg_monitor_removed(cs@.skip(i as int)) == Some(m@),
            None => pmsg_monitor_removed(cs@.skip(i as int)) is None,
        },
{
    proof {
        reveal(pmsg_monitor_removed);
    }
    let ((id, ts), j1) = match parse_env(cs, i) {
        Some(v) => v,
        None => { return None; },
    };
    let j2 = match parse_lit(cs, j1, ",\"payload\":{\"monitor_id\":") {
        Some(j) => j,
        None => { return None; },
    };
    let (mid, j3) = match parse_u64(cs, j2) {
        Some(v) => v,
        None => { return None; },
    };
    let j4 = match parse_lit(cs, j3, "}}") {
        Some(j) => j,
        None => { return None; },
    };
    if j4 != cs.len() {
        return None;
    }
    Some(Message::MonitorRemoved { id, timestamp: ts, payload: MonitorRemovedPayload { monitor_id: mid } })
}

fn parse_body_mu(cs: &Vec<char>, i: usize) -> (r: Option<Message>)
    requires
        i <= cs.len(),
    ensures
        match r {
            Some(m) => pmsg_monitor_updated(cs@.skip(i as int)) == Some(m@),
            None => pmsg_monitor_updated(cs@.skip(i as int)) is None,
        },
{
    proof {
        reveal(pmsg_monitor_updated);
    }
    let ((id, ts), j1) = match parse_env(cs, i) {
        Some(v) => v,
        None => { return None; },
    };
    let j2 = match parse_lit(cs, j1, ",\"payload\":{\"monitor\":") {
        Some(j) => j,
        None => { return None; },
    };
    let (mon, j3) = match parse_monitor(cs, j2) {
        Some(v) => v,
        None => { return None; },
    };
    let j4 = match parse_lit(cs, j3, "}}") {
        Some(j) => j,
        None => { return None; },
    };
    if j4 != cs.len() {
        return None;
    }
    Some(Message::MonitorUpdated { id, timestamp: ts, payload: MonitorUpdatedPayload { monitor: mon } })
}

fn parse_body_fc(cs: &Vec<char>, i: usize) -> (r: Option<Message>)
    requires
        i <= cs.len(),
    ensures
        match r {
            Some(m) => pmsg_flash(cs@.skip(i as int)) == Some(m@),
            None => pmsg_flash(cs@.skip(i as int)) is None,
        },
{
    proof {
        reveal(pmsg_flash);
    }
    let ((id, ts), j1) = match parse_env(cs, i) {
        Some(v) => v,
        None => { return None; },
    };
    let j2 = match parse_lit(cs, j1, ",\"payload\":{\"target_monitor_ids\":") {
        Some(j) => j,
        None => { return None; },
    };
    let (ids, j3) = match parse_u64_list(cs, j2) {
        Some(v) => v,
        None => { return None; },
    };
    let j4 = match parse_lit(cs, j3, "}}") {
        Some(j) => j,
        None => { return None; },
    };
    if j4 != cs.len() {
        return None;
    }
    Some(Message::FlashCommand { id, timestamp: ts, payload: FlashCommandPayload { target_monitor_ids: ids } })
}

fn parse_body_cc(cs: &Vec<char>, i: usize) -> (r: Option<Message>)
    requires
        i <= cs.len(),
    ensures
        match r {
            Some(m) => pmsg_clear(cs@.skip(i as int)) == Some(m@),
            None => pmsg_clear(cs@.skip(i as int)) is None,
        },
{
    proof {
        reveal(pmsg_clear);
    }
    let ((id, ts), j1) = match parse_env(cs, i) {
        Some(v) => v,
        None => { return None; },
    };
    let j2 = match parse_lit(cs, j1, ",\"payload\":{\"target_monitor_ids\":") {
        Some(j) => j,
        None => { return None; },
    };
    let (ids, j3) = match parse_u64_list(cs, j2) {
        Some(v) => v,
        None => { return None; },
    };
    let j4 = match parse_lit(cs, j3, "}}") {
        Some(j) => j,
        None => { return None; },
    };
    if j4 != cs.len() {
        return None;
    }
    Some(Message::ClearCommand { id, timestamp: ts, payload: ClearCommandPayload { target_monitor_ids: ids } })
}

fn parse_body_ping(cs: &Vec<char>, i: usize) -> (r: Option<Message>)
    requires
        i <= cs.len(),
    ensures
        match r {
            Some(m) => pmsg_ping(cs@.skip(i as int)) == Some(m@),
            None => pmsg_ping(cs@.skip(i as int)) is None,
        },
{
    proof {
        reveal(pmsg_ping);
    }
    let ((id, ts), j1) = match parse_env(cs, i) {
        Some(v) => v,
        None => { return None; },
    };
    let j2 = match parse_lit(cs, j1, "}") {
        Some(j) => j,
        None => { return None; },
    };
    if j2 != cs.len() {
        return None;
    }
    Some(Message::Ping { id, timestamp: ts })
}

fn parse_body_pong(cs: &Vec<char>, i: usize) -> (r: Option<Message>)
    requires
        i <= cs.len(),
    ensures
        match r {
            Some(m) => pmsg_pong(cs@.skip(i as int)) == Some(m@),
            None => pmsg_pong(cs@.skip(i as int)) is None,
        },
{
    proof {
        reveal(pmsg_pong);
    }
    let ((id, ts), j1) = match parse_env(cs, i) {
        Some(v) => v,
        None => { return None; },
    };
    let j2 = match parse_lit(cs, j1, "}") {
        Some(j) => j,
        None => { return None; },
    };
    if j2 != cs.len() {
        return None;
    }
    Some(Message::Pong { id, timestamp: ts })
}

fn parse_message(cs: &Vec<char>) -> (r: Option<Message>)
    ensures
        match r {
            Some(m) => pmsg(cs@) == Some(m@),
            None => pmsg(cs@) is None,
        },
{
    proof {
        reveal(pmsg);
        assert(cs@.skip(0) == cs@);
    }
    let j0 = match parse_lit(cs, 0, "{\"type\":\"") {
        Some(j) => j,
        None => { return None; },
    };
    if let Some(j1) = parse_lit(cs, j0, "client_hello\",\"id\":") {
        parse_body_ch(cs, j1)
    } else if let Some(j1) = parse_lit(cs, j0, "server_welcome\",\"id\":") {
        parse_body_sw(cs, j1)
    } else if let Some(j1) = parse_lit(cs, j0, "kanpe_message\",\"id\":") {
        parse_body_km(cs, j1)
    } else if let Some(j1) = parse_lit(cs, j0, "feedback_message\",\"id\":") {
        parse_body_fm(cs, j1)
    } else if let Some(j1) = parse_lit(cs, j0, "ping\",\"id\":") {
        parse_body_ping(cs, j1)
    } else if let Some(j1) = parse_lit(cs, j0, "pong\",\"id\":") {
        parse_body_pong(cs, j1)
    } else if let Some(j1) = parse_lit(cs, j0, "monitor_list_sync\",\"id\":") {
        parse_body_mls(cs, j1)
    } else if let Some(j1) = parse_lit(cs, j0, "monitor_added\",\"id\":") {
        parse_body_ma(cs, j1)
    } else if let Some(j1) = parse_lit(cs, j0, "monitor_removed\",\"id\":") {
        parse_body_mr(cs, j1)
    } else if let Some(j1) = parse_lit(cs, j0, "monitor_updated\",\"id\":") {
        parse_body_mu(cs, j1)
    } else if let Some(j1) = parse_lit(cs, j0, "flash_command\",\"id\":") {
        parse_body_fc(cs, j1)
    } else if let Some(j1) = parse_lit(cs, j0, "clear_command\",\"id\":") {
        parse_body_cc(cs, j1)
    } else {
        None
    }
}

/// Decode one inbound frame.
///
/// Succeeds exactly on the canonical wire text of a message: if the input is
/// `ser_message(v)` for some message value `v`, the result is `Ok` and
/// reproduces `v`; on any other input the frame is rejected as malformed.
pub fn deserialize_message(s: &str) -> (r: Result<Message, ProtocolError>)
    ensures
        r matches Ok(m) ==> s@ == ser_message(m@),
        forall|mv: MessageView| s@ == ser_message(mv) ==> (r matches Ok(m) && m@ == mv),
        r matches Ok(m) ==> pmsg(s@) == Some(m@),
        r is Err ==> pmsg(s@) is None,
{
    let cs = str_to_chars(s);
    match parse_message(&cs) {
        Some(m) => {
            proof {
                lemma_pmsg_sound(s@);
                assert forall|mv: MessageView| s@ == ser_message(mv) implies m@ == mv by {
                    lemma_pmsg_complete(mv);
                }
            }
            Ok(m)
        },
        None => {
            proof {
                assert forall|mv: MessageView| s@ != ser_message(mv) by {
                    if s@ == ser_message(mv) {
                        lemma_pmsg_complete(mv);
                    }
                }
            }
            Err(ProtocolError::MalformedMessage)
        },
    }
}


/// The wire text of a priority on its own, as it appears inside a frame.
pub fn serialize_priority(p: &Priority) -> (s: String)
    ensures
        s@ == ser_priority(*p),
{
    let mut out = String::new();
    emit_priority(&mut out, p);
    proof {
        assert(out@ =~= ser_priority(*p));
    }
    out
}

/// The wire text of a feedback type on its own, as it appears inside a
/// frame.
pub fn serialize_feedback_type(f: &FeedbackType) -> (s: String)
    ensures
        s@ == ser_feedback(*f),
{
    let mut out = String::new();
    emit_feedback(&mut out, f);
    proof {
        assert(out@ =~= ser_feedback(*f));
    }
    out
}

} // verus!

