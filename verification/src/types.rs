//! Shared protocol value types: priorities, feedback kinds, virtual monitors,
//! and the generators for message identifiers and timestamps.

use vstd::prelude::*;

verus! {

/// Priority levels for cue messages.
#[derive(Debug, Clone, Copy, PartialEq, Eq, Structural)]
pub enum Priority {
    Normal,
    High,
    Urgent,
}

impl Default for Priority {
    fn default() -> (r: Self)
        ensures
            r == Priority::Normal,
    {
        Priority::Normal
    }
}

/// Feedback type classification.
#[derive(Debug, Clone, Copy, PartialEq, Eq, Structural)]
pub enum FeedbackType {
    Ack,
    Question,
    Issue,
    Info,
}

impl Default for FeedbackType {
    fn default() -> (r: Self)
        ensures
            r == FeedbackType::Ack,
    {
        FeedbackType::Ack
    }
}

/// A named target channel that cue messages can be addressed to.
///
/// Identifiers are allocated by the monitor registry from a counter starting
/// at 1, so an id is unique within one server run and never reused after
/// removal unless explicitly re-added.
#[derive(Debug)]
pub struct VirtualMonitor {
    pub id: u64,
    pub name: String,
    pub description: Option<String>,
    pub color: Option<String>,
}

/// Mathematical value of a [`VirtualMonitor`].
pub struct MonitorView {
    pub id: u64,
    pub name: Seq<char>,
    pub description: Option<Seq<char>>,
    pub color: Option<Seq<char>>,
}

pub open spec fn opt_string_view(s: Option<String>) -> Option<Seq<char>> {
    match s {
        Some(v) => Some(v@),
        None => None,
    }
}

impl View for VirtualMonitor {
    type V = MonitorView;

    open spec fn view(&self) -> MonitorView {
        MonitorView {
            id: self.id,
            name: self.name@,
            description: opt_string_view(self.description),
            color: opt_string_view(self.color),
        }
    }
}

impl Clone for VirtualMonitor {
    fn clone(&self) -> (r: Self)
        ensures
            r@ == self@,
    {
        VirtualMonitor {
            id: self.id,
            name: self.name.clone(),
            description: clone_opt_string(&self.description),
            color: clone_opt_string(&self.color),
        }
    }
}

pub fn clone_opt_string(s: &Option<String>) -> (r: Option<String>)
    ensures
        opt_string_view(r) == opt_string_view(*s),
{
    match s {
        Some(v) => Some(v.clone()),
        None => None,
    }
}

/// Character-for-character string comparison.
pub fn str_eq(a: &str, b: &str) -> (r: bool)
    ensures
        r == (a@ == b@),
{
    let n = a.unicode_len();
    if n != b.unicode_len() {
        return false;
    }
    for i in 0..n
        invariant
            n == a@.len(),
            n == b@.len(),
            forall|j: int| 0 <= j < i ==> a@[j] == b@[j],
    {
        if a.get_char(i) != b.get_char(i) {
            proof {
                assert(a@[i as int] != b@[i as int]);
            }
            return false;
        }
    }
    proof {
        assert(a@ =~= b@);
    }
    true
}

/// Generate a fresh message or client identifier.
///
/// Relies on `uuid::Uuid::new_v4` and its `Display` form: a random
/// version-4 UUID rendered in the 36-character hyphenated format.  The
/// result depends on fresh randomness, so nothing beyond its shape is
/// promised.
#[verifier::external_body]
pub fn new_id() -> (r: String)
    ensures
        r@.len() == 36,
{
    uuid::Uuid::new_v4().to_string()
}

/// Current Unix timestamp in milliseconds.
///
/// Relies on `chrono::Utc::now` and `DateTime::timestamp_millis`.  The result
/// depends on the wall clock, so no particular value is promised.
#[verifier::external_body]
pub fn timestamp() -> (r: i64)
{
    chrono::Utc::now().timestamp_millis()
}

} // verus!
