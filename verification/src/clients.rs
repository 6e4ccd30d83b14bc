//! The connection registry: one entry per active performer connection.
//!
//! Each entry pairs the client's identity with the handle of its outbound
//! channel.  The transport itself lives outside; the handle is an opaque
//! token the surrounding runtime maps to the real socket.  Entries are kept
//! in registration order and keyed by the client identifier.

use vstd::prelude::*;
use crate::message::clone_ids;
use crate::types::str_eq;

verus! {

/// Identity of a connected performer.
#[derive(Debug)]
pub struct ClientInfo {
    pub client_id: String,
    pub client_name: String,
    pub display_monitor_ids: Vec<u64>,
}

/// Mathematical value of a [`ClientInfo`].
pub struct ClientInfoView {
    pub client_id: Seq<char>,
    pub client_name: Seq<char>,
    pub display_monitor_ids: Seq<u64>,
}

impl View for ClientInfo {
    type V = ClientInfoView;

    open spec fn view(&self) -> ClientInfoView {
        ClientInfoView {
            client_id: self.client_id@,
            client_name: self.client_name@,
            display_monitor_ids: self.display_monitor_ids@,
        }
    }
}

impl Clone for ClientInfo {
    fn clone(&self) -> (r: Self)
        ensures
            r@ == self@,
    {
        ClientInfo {
            client_id: self.client_id.clone(),
            client_name: self.client_name.clone(),
            display_monitor_ids: clone_ids(&self.display_monitor_ids),
        }
    }
}

struct ClientEntry {
    key: String,
    info: ClientInfo,
    channel: u64,
}

/// Mathematical value of one registry entry.
pub struct ClientEntryView {
    pub key: Seq<char>,
    pub info: ClientInfoView,
    pub channel: u64,
}

/// Some entry in `s` is keyed by `key`.
pub open spec fn has_key(s: Seq<ClientEntryView>, key: Seq<char>) -> bool {
    exists|i: int| 0 <= i < s.len() && s[i].key == key
}

pub open spec fn key_index(s: Seq<ClientEntryView>, key: Seq<char>) -> int {
    choose|i: int| 0 <= i < s.len() && s[i].key == key
}

/// Insert-or-replace under a key, keeping registration order.
pub open spec fn entries_insert(s: Seq<ClientEntryView>, e: ClientEntryView) -> Seq<
    ClientEntryView,
> {
    if has_key(s, e.key) {
        s.update(key_index(s, e.key), e)
    } else {
        s.push(e)
    }
}

/// Removal under a key; the sequence is unchanged when the key is absent.
pub open spec fn entries_remove(s: Seq<ClientEntryView>, key: Seq<char>) -> Seq<ClientEntryView> {
    if has_key(s, key) {
        s.remove(key_index(s, key))
    } else {
        s
    }
}

/// Registry of connected performers, in registration order.
pub struct ClientManager {
    entries: Vec<ClientEntry>,
}

impl View for ClientManager {
    type V = Seq<ClientEntryView>;

    closed spec fn view(&self) -> Seq<ClientEntryView> {
        Seq::new(
            self.entries@.len(),
            |i: int|
                ClientEntryView {
                    key: self.entries@[i].key@,
                    info: self.entries@[i].info@,
                    channel: self.entries@[i].channel,
                },
        )
    }
}

impl ClientManager {
    /// Keys are unique: at most one entry per client identifier.
    pub open spec fn wf(&self) -> bool {
        forall|i: int, j: int|
            0 <= i < j < self@.len() ==> #[trigger] self@[i].key != #[trigger] self@[j].key
    }

    /// An empty registry.
    pub fn new() -> (r: ClientManager)
        ensures
            r.wf(),
            r@ == Seq::<ClientEntryView>::empty(),
    {
        let r = ClientManager { entries: Vec::new() };
        proof {
            assert(r@ =~= Seq::<ClientEntryView>::empty());
        }
        r
    }

    /// Register a client under its identifier; a registration under an
    /// identifier already present replaces that entry.  Registering a fresh
    /// identifier grows the count by exactly one.
    pub fn add_client(&mut self, client_id: String, info: ClientInfo, channel: u64)
        requires
            old(self).wf(),
        ensures
            final(self).wf(),
            final(self)@ == entries_insert(
                old(self)@,
                ClientEntryView { key: client_id@, info: info@, channel },
            ),
            final(self)@.len() == old(self)@.len() + (if has_key(old(self)@, client_id@) {
                0int
            } else {
                1int
            }),
            has_key(final(self)@, client_id@),
    {
        let ghost prev = self@;
        let ghost e = ClientEntryView { key: client_id@, info: info@, channel };
        let mut k: usize = 0;
        let n = self.entries.len();
        while k < n && !str_eq(self.entries[k].key.as_str(), client_id.as_str())
            invariant
                0 <= k <= n,
                n == self@.len(),
                self@ == prev,
                forall|j: int| 0 <= j < k ==> #[trigger] self@[j].key != client_id@,
            decreases n - k,
        {
            k = k + 1;
        }
        if k < n {
            proof {
                assert(prev[k as int].key == client_id@);
                assert(has_key(prev, client_id@));
                assert(key_index(prev, client_id@) == k) by {
                    let i = key_index(prev, client_id@);
                    assert(prev[i].key == client_id@);
                    if i < k {
                        assert(prev[i].key != client_id@);
                    }
                    if i > k {
                        assert(prev[i].key != prev[k as int].key);
                    }
                }
            }
            self.entries.set(k, ClientEntry { key: client_id, info, channel });
            proof {
                assert(self@ =~= prev.update(k as int, e));
                assert forall|i: int, j: int|
                    0 <= i < j < self@.len() implies #[trigger] self@[i].key
                    != #[trigger] self@[j].key by {
                    if i != k && j != k {
                        assert(self@[i].key == prev[i].key && self@[j].key == prev[j].key);
                    }
                    if i == k {
                        assert(self@[j].key == prev[j].key && prev[i].key == client_id@);
                    }
                    if j == k {
                        assert(self@[i].key == prev[i].key && prev[j].key == client_id@);
                    }
                }
                assert(self@[k as int].key == client_id@);
            }
        } else {
            proof {
                assert(!has_key(prev, client_id@)) by {
                    if has_key(prev, client_id@) {
                        let i = key_index(prev, client_id@);
                        assert(prev[i].key == client_id@);
                        assert(prev[i].key != client_id@);
                    }
                }
            }
            self.entries.push(ClientEntry { key: client_id, info, channel });
            proof {
                assert(self@ =~= prev.push(e));
                assert forall|i: int, j: int|
                    0 <= i < j < self@.len() implies #[trigger] self@[i].key
                    != #[trigger] self@[j].key by {
                    if j < prev.len() {
                        assert(self@[i].key == prev[i].key && self@[j].key == prev[j].key);
                    } else {
                        assert(self@[i].key == prev[i].key && self@[j].key == client_id@);
                        assert(prev[i].key != client_id@);
                    }
                }
                assert(self@[prev.len() as int].key == client_id@);
            }
        }
    }

    /// Unregister a client, returning its identity, or nothing when the
    /// identifier is not registered.  Removing a registered identifier
    /// shrinks the count by exactly one; removing again is a no-op.
    pub fn remove_client(&mut self, client_id: &str) -> (r: Option<ClientInfo>)
        requires
            old(self).wf(),
        ensures
            final(self).wf(),
            r is Some <==> has_key(old(self)@, client_id@),
            r matches Some(info) ==> info@ == old(self)@[key_index(old(self)@, client_id@)].info,
            final(self)@ == entries_remove(old(self)@, client_id@),
            !has_key(final(self)@, client_id@),
            final(self)@.len() == old(self)@.len() - (if has_key(old(self)@, client_id@) {
                1int
            } else {
                0int
            }),
    {
        let ghost prev = self@;
        let mut k: usize = 0;
        let n = self.entries.len();
        while k < n && !str_eq(self.entries[k].key.as_str(), client_id)
            invariant
                0 <= k <= n,
                n == self@.len(),
                self@ == prev,
                forall|j: int| 0 <= j < k ==> #[trigger] self@[j].key != client_id@,
            decreases n - k,
        {
            k = k + 1;
        }
        if k < n {
            proof {
                assert(prev[k as int].key == client_id@);
                assert(has_key(prev, client_id@));
                assert(key_index(prev, client_id@) == k) by {
                    let i = key_index(prev, client_id@);
                    assert(prev[i].key == client_id@);
                    if i < k {
                        assert(prev[i].key != client_id@);
                    }
                    if i > k {
                        assert(prev[i].key != prev[k as int].key);
                    }
                }
            }
            let entry = self.entries.remove(k);
            proof {
                assert(self@ =~= prev.remove(k as int));
                assert forall|i: int, j: int|
                    0 <= i < j < self@.len() implies #[trigger] self@[i].key
                    != #[trigger] self@[j].key by {
                    let i0: int = if i < k {
                        i
                    } else {
                        i + 1
                    };
                    let j0: int = if j < k {
                        j
                    } else {
                        j + 1
                    };
                    assert(self@[i].key == prev[i0].key && self@[j].key == prev[j0].key);
                }
                assert(!has_key(self@, client_id@)) by {
                    if has_key(self@, client_id@) {
                        let i = key_index(self@, client_id@);
                        assert(self@[i].key == client_id@);
                        let i0: int = if i < k {
                            i
                        } else {
                            i + 1
                        };
                        assert(prev[i0].key == client_id@);
                        assert(i0 != k);
                        assert(prev[i0].key != prev[k as int].key);
                    }
                }
            }
            Some(entry.info)
        } else {
            proof {
                assert(!has_key(prev, client_id@)) by {
                    if has_key(prev, client_id@) {
                        let i = key_index(prev, client_id@);
                        assert(prev[i].key == client_id@);
                        assert(prev[i].key != client_id@);
                    }
                }
            }
            None
        }
    }

    /// A snapshot of every connected client's identity, in registration
    /// order.
    pub fn get_all_clients(&self) -> (r: Vec<ClientInfo>)
        ensures
            r@.len() == self@.len(),
            forall|i: int| 0 <= i < self@.len() ==> (#[trigger] r@[i])@ == self@[i].info,
    {
        let mut r: Vec<ClientInfo> = Vec::new();
        let n = self.entries.len();
        for i in 0..n
            invariant
                n == self@.len(),
                r@.len() == i,
                forall|j: int| 0 <= j < i ==> (#[trigger] r@[j])@ == self@[j].info,
        {
            r.push(self.entries[i].info.clone());
        }
        r
    }

    /// A snapshot of every outbound channel handle, with its client
    /// identifier, in registration order.
    pub fn get_all_sinks(&self) -> (r: Vec<(String, u64)>)
        ensures
            r@.len() == self@.len(),
            forall|i: int|
                0 <= i < self@.len() ==> (#[trigger] r@[i]).0@ == self@[i].key && r@[i].1
                    == self@[i].channel,
    {
        let mut r: Vec<(String, u64)> = Vec::new();
        let n = self.entries.len();
        for i in 0..n
            invariant
                n == self@.len(),
                r@.len() == i,
                forall|j: int|
                    0 <= j < i ==> (#[trigger] r@[j]).0@ == self@[j].key && r@[j].1
                        == self@[j].channel,
        {
            r.push((self.entries[i].key.clone(), self.entries[i].channel));
        }
        r
    }

    /// Whether a client identifier is registered.
    pub fn has_client(&self, client_id: &str) -> (r: bool)
        ensures
            r == has_key(self@, client_id@),
    {
        let mut k: usize = 0;
        let n = self.entries.len();
        while k < n && !str_eq(self.entries[k].key.as_str(), client_id)
            invariant
                0 <= k <= n,
                n == self@.len(),
                forall|j: int| 0 <= j < k ==> #[trigger] self@[j].key != client_id@,
            decreases n - k,
        {
            k = k + 1;
        }
        if k < n {
            proof {
                assert(self@[k as int].key == client_id@);
            }
            true
        } else {
            proof {
                if has_key(self@, client_id@) {
                    let i = key_index(self@, client_id@);
                    assert(self@[i].key == client_id@);
                    assert(self@[i].key != client_id@);
                }
            }
            false
        }
    }
}


/// Registration and removal change the client count by exactly one entry.
///
/// Inserting under a fresh identifier grows the registry by one and
/// replaces nothing; removing a registered identifier shrinks it by one,
/// and removing an identifier that is not registered changes nothing at
/// all — so a closure reported twice removes a client only once.
pub proof fn lemma_registry_count(s: Seq<ClientEntryView>, e: ClientEntryView, key: Seq<char>)
    ensures
        !has_key(s, e.key) ==> entries_insert(s, e).len() == s.len() + 1,
        has_key(s, e.key) ==> entries_insert(s, e).len() == s.len(),
        has_key(s, key) ==> entries_remove(s, key).len() == s.len() - 1,
        !has_key(s, key) ==> entries_remove(s, key) == s,
{
    if has_key(s, key) {
        let i = key_index(s, key);
        assert(s[i].key == key);
    }
}

} // verus!
