//! The virtual-monitor registry.
//!
//! Monitors are kept ordered by identifier, so snapshots are deterministic.
//! Identifiers come from a counter that starts at 1 and never moves
//! backwards, so a generated identifier is never reused after a removal
//! within one run; `add_monitor_with_id` can still re-add an explicit
//! identifier.  The registry itself does not broadcast: the server layer
//! that calls it is responsible for announcing changes.

use vstd::prelude::*;
use crate::message::{clone_monitors, monitors_view};
use crate::types::{opt_string_view, MonitorView, VirtualMonitor};

verus! {

/// Some monitor in `s` has identifier `id`.
pub open spec fn contains_id(s: Seq<MonitorView>, id: u64) -> bool {
    exists|i: int| 0 <= i < s.len() && s[i].id == id
}

/// The index of the monitor with identifier `id`; meaningful when ids are
/// unique and `contains_id` holds.
pub open spec fn id_index(s: Seq<MonitorView>, id: u64) -> int {
    choose|i: int| 0 <= i < s.len() && s[i].id == id
}

/// The monitor with identifier `id`.
pub open spec fn monitor_of(s: Seq<MonitorView>, id: u64) -> MonitorView {
    s[id_index(s, id)]
}

/// Registry of virtual monitors, ordered by identifier.
pub struct MonitorManager {
    monitors: Vec<VirtualMonitor>,
    next_id: u64,
}

impl View for MonitorManager {
    type V = Seq<MonitorView>;

    closed spec fn view(&self) -> Seq<MonitorView> {
        monitors_view(self.monitors@)
    }
}

impl MonitorManager {
    /// The next identifier the registry would allocate.
    pub closed spec fn spec_next_id(&self) -> u64 {
        self.next_id
    }

    /// Well-formedness: strictly ordered by identifier (hence no two
    /// monitors share one), and every identifier is below the counter.
    pub closed spec fn wf(&self) -> bool {
        &&& forall|i: int, j: int|
            0 <= i < j < self@.len() ==> #[trigger] self@[i].id < #[trigger] self@[j].id
        &&& forall|i: int| 0 <= i < self@.len() ==> #[trigger] self@[i].id < self.next_id
        &&& self.next_id >= 1
    }

    /// An empty registry; the first allocated identifier will be 1.
    pub fn new() -> (r: MonitorManager)
        ensures
            r.wf(),
            r@ == Seq::<MonitorView>::empty(),
            r.spec_next_id() == 1,
    {
        let r = MonitorManager { monitors: Vec::new(), next_id: 1 };
        proof {
            assert(r@ =~= Seq::<MonitorView>::empty());
        }
        r
    }

    /// Add a monitor under a freshly allocated identifier.
    ///
    /// The new identifier was not in use, so the count grows by one and no
    /// two monitors ever share an identifier.
    pub fn add_monitor(
        &mut self,
        name: String,
        description: Option<String>,
        color: Option<String>,
    ) -> (r: VirtualMonitor)
        requires
            old(self).wf(),
            old(self).spec_next_id() < u64::MAX,
        ensures
            final(self).wf(),
            r@.id == old(self).spec_next_id(),
            r@.name == name@,
            r@.description == opt_string_view(description),
            r@.color == opt_string_view(color),
            !contains_id(old(self)@, r@.id),
            final(self)@ == old(self)@.push(r@),
            final(self).spec_next_id() == old(self).spec_next_id() + 1,
    {
        let id = self.next_id;
        let m = VirtualMonitor { id, name, description, color };
        let r = m.clone();
        let ghost prev = self@;
        self.monitors.push(m);
        self.next_id = id + 1;
        proof {
            assert(self@ =~= prev.push(r@));
        }
        r
    }

    /// Add or replace a monitor under an explicit identifier, keeping the
    /// order and moving the counter past it so later generated identifiers
    /// stay fresh.
    pub fn add_monitor_with_id(
        &mut self,
        id: u64,
        name: String,
        description: Option<String>,
        color: Option<String>,
    ) -> (r: VirtualMonitor)
        requires
            old(self).wf(),
            id < u64::MAX,
        ensures
            final(self).wf(),
            r@.id == id,
            r@.name == name@,
            r@.description == opt_string_view(description),
            r@.color == opt_string_view(color),
            forall|mid: u64|
                #[trigger] contains_id(final(self)@, mid) <==> contains_id(old(self)@, mid) || mid
                    == id,
            contains_id(final(self)@, id) && monitor_of(final(self)@, id) == r@,
            forall|mid: u64|
                mid != id && #[trigger] contains_id(old(self)@, mid) ==> contains_id(
                    final(self)@,
                    mid,
                ) && monitor_of(final(self)@, mid) == monitor_of(old(self)@, mid),
            final(self)@.len() == old(self)@.len() + (if contains_id(old(self)@, id) {
                0int
            } else {
                1int
            }),
    {
        let m = VirtualMonitor { id, name, description, color };
        let r = m.clone();
        let ghost prev = self@;
        let mut k: usize = 0;
        while k < self.monitors.len() && self.monitors[k].id < id
            invariant
                0 <= k <= self@.len(),
                self@ == prev,
                forall|j: int| 0 <= j < k ==> #[trigger] self@[j].id < id,
            decreases self.monitors.len() - k,
        {
            k = k + 1;
        }
        if k < self.monitors.len() && self.monitors[k].id == id {
            self.monitors.set(k, m);
            proof {
                let cur = self@;
                assert(cur =~= prev.update(k as int, r@));
                assert forall|mid: u64| #[trigger] contains_id(cur, mid) implies contains_id(
                    prev,
                    mid,
                ) || mid == id by {
                    let i = choose|i: int| 0 <= i < cur.len() && cur[i].id == mid;
                    if i != k {
                        assert(prev[i].id == mid);
                    }
                }
                assert forall|mid: u64| contains_id(prev, mid) || mid == id implies contains_id(
                    cur,
                    mid,
                ) by {
                    if mid == id {
                        assert(cur[k as int].id == id);
                    } else {
                        let i = choose|i: int| 0 <= i < prev.len() && prev[i].id == mid;
                        assert(prev[i].id == mid);
                        assert(i != k) by {
                            assert(prev[k as int].id == id);
                        }
                        assert(cur[i].id == mid);
                    }
                }
                assert(contains_id(prev, id)) by {
                    assert(prev[k as int].id == id);
                }
                assert(monitor_of(cur, id) == r@) by {
                    let i = id_index(cur, id);
                    assert(cur[i].id == id);
                    if i != k {
                        assert(prev[i].id == id);
                        assert(prev[k as int].id == id);
                    }
                }
                assert forall|mid: u64|
                    mid != id && #[trigger] contains_id(prev, mid) implies contains_id(cur, mid)
                    && monitor_of(cur, mid) == monitor_of(prev, mid) by {
                    let i = choose|i: int| 0 <= i < prev.len() && prev[i].id == mid;
                    assert(i != k);
                    assert(cur[i].id == mid);
                    let i2 = id_index(cur, mid);
                    assert(cur[i2].id == mid);
                    assert(i2 != k);
                    assert(prev[i2].id == mid);
                    let i3 = id_index(prev, mid);
                    assert(prev[i3].id == mid);
                    assert(i2 == i3) by {
                        if i2 < i3 {
                            assert(prev[i2].id < prev[i3].id);
                        }
                        if i3 < i2 {
                            assert(prev[i3].id < prev[i2].id);
                        }
                    }
                }
            }
            if id >= self.next_id {
                self.next_id = id + 1;
            }
            r
        } else {
            proof {
                assert(!contains_id(prev, id)) by {
                    if contains_id(prev, id) {
                        let i = choose|i: int| 0 <= i < prev.len() && prev[i].id == id;
                        if i < k {
                            assert(prev[i].id < id);
                        }
                        if i >= k {
                            if k < prev.len() {
                                assert(prev[k as int].id > id);
                                if i > k {
                                    assert(prev[k as int].id < prev[i].id);
                                }
                            }
                        }
                    }
                }
            }
            self.monitors.insert(k, m);
            proof {
                let cur = self@;
                assert(cur =~= prev.subrange(0, k as int).push(r@) + prev.subrange(
                    k as int,
                    prev.len() as int,
                ));
                assert(cur.len() == prev.len() + 1);
                assert(forall|j: int| 0 <= j < k ==> #[trigger] cur[j] == prev[j]);
                assert(cur[k as int] == r@);
                assert(forall|j: int|
                    k < j < cur.len() ==> #[trigger] cur[j] == prev[j - 1]);
                assert forall|mid: u64| #[trigger] contains_id(cur, mid) implies contains_id(
                    prev,
                    mid,
                ) || mid == id by {
                    let i = choose|i: int| 0 <= i < cur.len() && cur[i].id == mid;
                    if i < k {
                        assert(prev[i].id == mid);
                    } else if i > k {
                        assert(prev[i - 1].id == mid);
                    }
                }
                assert forall|mid: u64| contains_id(prev, mid) || mid == id implies contains_id(
                    cur,
                    mid,
                ) by {
                    if mid == id {
                        assert(cur[k as int].id == id);
                    } else {
                        let i = choose|i: int| 0 <= i < prev.len() && prev[i].id == mid;
                        if i < k {
                            assert(cur[i].id == mid);
                        } else {
                            assert(cur[i + 1].id == mid);
                        }
                    }
                }
                assert(monitor_of(cur, id) == r@) by {
                    let i = id_index(cur, id);
                    assert(cur[i].id == id);
                    if i < k {
                        assert(prev[i].id == id);
                    }
                    if i > k {
                        assert(prev[i - 1].id == id);
                    }
                }
                assert forall|mid: u64|
                    mid != id && #[trigger] contains_id(prev, mid) implies contains_id(cur, mid)
                    && monitor_of(cur, mid) == monitor_of(prev, mid) by {
                    let i3 = id_index(prev, mid);
                    assert(prev[i3].id == mid);
                    let iw: int = if i3 < k {
                        i3
                    } else {
                        i3 + 1
                    };
                    assert(cur[iw].id == mid);
                    let i2 = id_index(cur, mid);
                    assert(cur[i2].id == mid);
                    assert(i2 != k);
                    let back: int = if i2 < k {
                        i2
                    } else {
                        i2 - 1
                    };
                    assert(prev[back].id == mid);
                    assert(back == i3) by {
                        if back < i3 {
                            assert(prev[back].id < prev[i3].id);
                        }
                        if i3 < back {
                            assert(prev[i3].id < prev[back].id);
                        }
                    }
                    assert(cur[i2] == prev[i3]);
                }
                assert forall|i: int, j: int|
                    0 <= i < j < cur.len() implies #[trigger] cur[i].id < #[trigger] cur[j].id by {
                    if k < prev.len() {
                        assert(prev[k as int].id > id);
                    }
                    if k > 0 {
                        assert(prev[k - 1].id < id);
                    }
                    if i < k && j > k {
                        if k < prev.len() {
                            assert(prev[i].id < id);
                        } else {
                            assert(j == k);
                        }
                    }
                }
            }
            if id >= self.next_id {
                self.next_id = id + 1;
            }
            r
        }
    }

    /// Seed the registry with the fixed default monitors 1 to 4.
    pub fn initialize_default_monitors(&mut self)
        requires
            old(self).wf(),
        ensures
            final(self).wf(),
            forall|mid: u64|
                #[trigger] contains_id(final(self)@, mid) <==> contains_id(old(self)@, mid) || mid
                    == 1 || mid == 2 || mid == 3 || mid == 4,
            contains_id(final(self)@, 1) && monitor_of(final(self)@, 1).name == "Monitor A"@,
            contains_id(final(self)@, 2) && monitor_of(final(self)@, 2).name == "Monitor B"@,
            contains_id(final(self)@, 3) && monitor_of(final(self)@, 3).name == "Monitor C"@,
            contains_id(final(self)@, 4) && monitor_of(final(self)@, 4).name == "Monitor D"@,
    {
        self.add_monitor_with_id(
            1,
            "Monitor A".to_owned(),
            Some("Stage monitor A".to_owned()),
            Some("#3b82f6".to_owned()),
        );
        self.add_monitor_with_id(
            2,
            "Monitor B".to_owned(),
            Some("Stage monitor B".to_owned()),
            Some("#10b981".to_owned()),
        );
        self.add_monitor_with_id(
            3,
            "Monitor C".to_owned(),
            Some("Stage monitor C".to_owned()),
            Some("#f59e0b".to_owned()),
        );
        self.add_monitor_with_id(
            4,
            "Monitor D".to_owned(),
            Some("Stage monitor D".to_owned()),
            Some("#ef4444".to_owned()),
        );
    }

    /// Remove the monitor with the given identifier, returning the prior
    /// value, or nothing when it is absent.
    pub fn remove_monitor(&mut self, id: u64) -> (r: Option<VirtualMonitor>)
        requires
            old(self).wf(),
        ensures
            final(self).wf(),
            r is Some <==> contains_id(old(self)@, id),
            r matches Some(m) ==> m@ == monitor_of(old(self)@, id),
            !contains_id(final(self)@, id),
            forall|mid: u64|
                mid != id ==> (#[trigger] contains_id(final(self)@, mid) <==> contains_id(
                    old(self)@,
                    mid,
                )),
            forall|mid: u64|
                mid != id && #[trigger] contains_id(old(self)@, mid) ==> monitor_of(
                    final(self)@,
                    mid,
                ) == monitor_of(old(self)@, mid),
            final(self)@.len() == old(self)@.len() - (if contains_id(old(self)@, id) {
                1int
            } else {
                0int
            }),
            final(self).spec_next_id() == old(self).spec_next_id(),
    {
        let ghost prev = self@;
        let mut k: usize = 0;
        while k < self.monitors.len() && self.monitors[k].id != id
            invariant
                0 <= k <= self@.len(),
                self@ == prev,
                forall|j: int| 0 <= j < k ==> #[trigger] self@[j].id != id,
            decreases self.monitors.len() - k,
        {
            k = k + 1;
        }
        if k < self.monitors.len() {
            let m = self.monitors.remove(k);
            proof {
                let cur = self@;
                assert(prev[k as int].id == id);
                assert(cur =~= prev.subrange(0, k as int) + prev.subrange(
                    k + 1,
                    prev.len() as int,
                ));
                assert(forall|j: int| 0 <= j < k ==> #[trigger] cur[j] == prev[j]);
                assert(forall|j: int| k <= j < cur.len() ==> #[trigger] cur[j] == prev[j + 1]);
                assert(m@ == monitor_of(prev, id)) by {
                    let i = id_index(prev, id);
                    assert(prev[i].id == id);
                    assert(i == k) by {
                        if i < k {
                            assert(prev[i].id != id);
                        }
                        if i > k {
                            assert(prev[k as int].id < prev[i].id);
                        }
                    }
                }
                assert(!contains_id(cur, id)) by {
                    if contains_id(cur, id) {
                        let i = choose|i: int| 0 <= i < cur.len() && cur[i].id == id;
                        if i < k {
                            assert(prev[i].id != id);
                        } else {
                            assert(prev[i + 1].id == id);
                            assert(prev[k as int].id < prev[i + 1].id);
                        }
                    }
                }
                assert forall|mid: u64|
                    mid != id && #[trigger] contains_id(prev, mid) implies contains_id(cur, mid)
                    && monitor_of(cur, mid) == monitor_of(prev, mid) by {
                    let i3 = id_index(prev, mid);
                    assert(prev[i3].id == mid);
                    assert(i3 != k);
                    let iw: int = if i3 < k {
                        i3
                    } else {
                        i3 - 1
                    };
                    assert(cur[iw].id == mid);
                    let i2 = id_index(cur, mid);
                    assert(cur[i2].id == mid);
                    let back: int = if i2 < k {
                        i2
                    } else {
                        i2 + 1
                    };
                    assert(prev[back].id == mid);
                    assert(back == i3) by {
                        if back < i3 {
                            assert(prev[back].id < prev[i3].id);
                        }
                        if i3 < back {
                            assert(prev[i3].id < prev[back].id);
                        }
                    }
                }
                assert forall|mid: u64| mid != id && #[trigger] contains_id(cur, mid) implies
                    contains_id(prev, mid) by {
                    let i = choose|i: int| 0 <= i < cur.len() && cur[i].id == mid;
                    if i < k {
                        assert(prev[i].id == mid);
                    } else {
                        assert(prev[i + 1].id == mid);
                    }
                }
            }
            Some(m)
        } else {
            proof {
                assert(!contains_id(prev, id)) by {
                    if contains_id(prev, id) {
                        let i = choose|i: int| 0 <= i < prev.len() && prev[i].id == id;
                        assert(prev[i].id != id);
                    }
                }
            }
            None
        }
    }

    /// Replace the monitor with the same identifier, if one exists.
    /// Returns whether the update applied; a missing identifier is not
    /// inserted.
    pub fn update_monitor(&mut self, monitor: VirtualMonitor) -> (r: bool)
        requires
            old(self).wf(),
        ensures
            final(self).wf(),
            r == contains_id(old(self)@, monitor@.id),
            !r ==> final(self)@ == old(self)@,
            r ==> contains_id(final(self)@, monitor@.id) && monitor_of(final(self)@, monitor@.id)
                == monitor@,
            forall|mid: u64|
                #[trigger] contains_id(final(self)@, mid) <==> contains_id(old(self)@, mid),
            forall|mid: u64|
                mid != monitor@.id && #[trigger] contains_id(old(self)@, mid) ==> monitor_of(
                    final(self)@,
                    mid,
                ) == monitor_of(old(self)@, mid),
            final(self)@.len() == old(self)@.len(),
            final(self).spec_next_id() == old(self).spec_next_id(),
    {
        let ghost prev = self@;
        let id = monitor.id;
        let mut k: usize = 0;
        while k < self.monitors.len() && self.monitors[k].id != id
            invariant
                0 <= k <= self@.len(),
                self@ == prev,
                id == monitor@.id,
                forall|j: int| 0 <= j < k ==> #[trigger] self@[j].id != id,
            decreases self.monitors.len() - k,
        {
            k = k + 1;
        }
        if k < self.monitors.len() {
            self.monitors.set(k, monitor);
            proof {
                let cur = self@;
                assert(prev[k as int].id == id);
                assert(cur =~= prev.update(k as int, cur[k as int]));
                assert(cur[k as int].id == id);
                assert(contains_id(prev, id));
                assert forall|mid: u64| #[trigger] contains_id(cur, mid) <==> contains_id(
                    prev,
                    mid,
                ) by {
                    if contains_id(cur, mid) {
                        let i = choose|i: int| 0 <= i < cur.len() && cur[i].id == mid;
                        if i != k {
                            assert(prev[i].id == mid);
                        }
                    }
                    if contains_id(prev, mid) {
                        let i = choose|i: int| 0 <= i < prev.len() && prev[i].id == mid;
                        if i != k {
                            assert(cur[i].id == mid);
                        } else {
                            assert(cur[k as int].id == mid);
                        }
                    }
                }
                assert(monitor_of(cur, id) == cur[k as int]) by {
                    let i = id_index(cur, id);
                    assert(cur[i].id == id);
                    if i != k {
                        assert(prev[i].id == id);
                        assert(prev[k as int].id == id);
                        if i < k {
                            assert(prev[i].id < prev[k as int].id);
                        } else {
                            assert(prev[k as int].id < prev[i].id);
                        }
                    }
                }
                assert forall|mid: u64|
                    mid != id && #[trigger] contains_id(prev, mid) implies monitor_of(cur, mid)
                    == monitor_of(prev, mid) by {
                    let i3 = id_index(prev, mid);
                    assert(prev[i3].id == mid);
                    assert(i3 != k);
                    assert(cur[i3].id == mid);
                    let i2 = id_index(cur, mid);
                    assert(cur[i2].id == mid);
                    assert(i2 != k);
                    assert(prev[i2].id == mid);
                    assert(i2 == i3) by {
                        if i2 < i3 {
                            assert(prev[i2].id < prev[i3].id);
                        }
                        if i3 < i2 {
                            assert(prev[i3].id < prev[i2].id);
                        }
                    }
                }
            }
            true
        } else {
            proof {
                assert(!contains_id(prev, id)) by {
                    if contains_id(prev, id) {
                        let i = choose|i: int| 0 <= i < prev.len() && prev[i].id == id;
                        assert(prev[i].id != id);
                    }
                }
            }
            false
        }
    }

    /// A snapshot of all monitors, ordered by identifier.
    pub fn get_all_monitors(&self) -> (r: Vec<VirtualMonitor>)
        ensures
            monitors_view(r@) == self@,
    {
        clone_monitors(&self.monitors)
    }

    /// Look up one monitor by identifier.
    pub fn get_monitor(&self, id: u64) -> (r: Option<VirtualMonitor>)
        requires
            self.wf(),
        ensures
            r is Some <==> contains_id(self@, id),
            r matches Some(m) ==> m@ == monitor_of(self@, id),
    {
        let mut k: usize = 0;
        while k < self.monitors.len() && self.monitors[k].id != id
            invariant
                0 <= k <= self@.len(),
                forall|j: int| 0 <= j < k ==> #[trigger] self@[j].id != id,
            decreases self.monitors.len() - k,
        {
            k = k + 1;
        }
        if k < self.monitors.len() {
            proof {
                assert(self@[k as int].id == id);
                assert(monitor_of(self@, id) == self@[k as int]) by {
                    let i = id_index(self@, id);
                    assert(self@[i].id == id);
                    if i < k {
                        assert(self@[i].id != id);
                    }
                    if i > k {
                        assert(self@[k as int].id < self@[i].id);
                    }
                }
            }
            Some(self.monitors[k].clone())
        } else {
            proof {
                assert(!contains_id(self@, id)) by {
                    if contains_id(self@, id) {
                        let i = choose|i: int| 0 <= i < self@.len() && self@[i].id == id;
                        assert(self@[i].id != id);
                    }
                }
            }
            None
        }
    }
}

/// In a well-formed registry no two monitors share an identifier: the
/// registry's operations preserve well-formedness, so two `add_monitor`
/// calls, in whatever order the lock admits them, never produce a duplicate.
pub proof fn lemma_registry_ids_unique(r: MonitorManager)
    requires
        r.wf(),
    ensures
        forall|i: int, j: int|
            0 <= i < r@.len() && 0 <= j < r@.len() && i != j ==> #[trigger] r@[i].id
                != #[trigger] r@[j].id,
{
    assert forall|i: int, j: int|
        0 <= i < r@.len() && 0 <= j < r@.len() && i != j implies #[trigger] r@[i].id
        != #[trigger] r@[j].id by {
        if i < j {
            assert(r@[i].id < r@[j].id);
        } else {
            assert(r@[j].id < r@[i].id);
        }
    }
}

} // verus!
