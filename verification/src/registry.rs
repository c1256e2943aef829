//! The round-robin registry of the active workers of one service path.
use vstd::prelude::*;
use crate::policy::SupervisorPolicy;

verus! {

/// A worker of a registry, and whether it may take a request now.
#[derive(Debug, Clone, Copy, PartialEq, Eq, Structural)]
pub struct WorkerId {
    pub key: u128,
    pub available: bool,
}

/// The workers of one service path, in the order they are handed out.
pub struct ActiveWorkerRegistry {
    pub workers: Vec<WorkerId>,
    pub next: Option<usize>,
}

/// The abstract state of a registry.
pub struct RegistryView {
    pub workers: Seq<WorkerId>,
    pub next: Option<usize>,
}

impl View for ActiveWorkerRegistry {
    type V = RegistryView;

    open spec fn view(&self) -> RegistryView {
        RegistryView { workers: self.workers@, next: self.next }
    }
}

/// No worker occurs twice.
pub open spec fn keys_unique(ws: Seq<WorkerId>) -> bool {
    forall|i: int, j: int| 0 <= i < ws.len() && 0 <= j < ws.len() && i != j ==> ws[i].key != ws[j].key
}

/// The worker `key` is in `ws`.
pub open spec fn has_key(ws: Seq<WorkerId>, key: u128) -> bool {
    exists|i: int| 0 <= i < ws.len() && ws[i].key == key
}

/// The position of the worker `key` in `ws`, when it is there.
pub open spec fn key_pos(ws: Seq<WorkerId>, key: u128) -> int {
    choose|i: int| 0 <= i < ws.len() && ws[i].key == key
}

/// The first available worker of `ws`, when there is one.
pub open spec fn first_available(ws: Seq<WorkerId>) -> Option<int> {
    if exists|i: int| 0 <= i < ws.len() && ws[i].available && (forall|j: int| 0 <= j < i ==> !ws[j].available) {
        Some(choose|i: int| 0 <= i < ws.len() && ws[i].available && (forall|j: int| 0 <= j < i ==> !ws[j].available))
    } else {
        None
    }
}

/// Where the round robin looks next: `next`, or the start once it has run past the end.
pub open spec fn start_index(next: Option<usize>, len: nat) -> int {
    match next {
        Some(it) => if it + 1 > len { 0 } else { it as int },
        None => 0,
    }
}

impl RegistryView {
    /// A registry with no worker.
    pub open spec fn empty() -> RegistryView {
        RegistryView { workers: Seq::empty(), next: None }
    }

    pub open spec fn wf(self) -> bool {
        keys_unique(self.workers)
    }

    /// Hands out the worker the round robin points at, if it is available,
    /// and the registry after that: under the per-worker policy the round
    /// robin moves on; under the per-request policy the worker is marked
    /// busy and the round robin moves to the first available worker.
    pub open spec fn mark_used(self, policy: SupervisorPolicy) -> (RegistryView, Option<u128>) {
        if self.workers.len() == 0 {
            (RegistryView { workers: self.workers, next: None }, None)
        } else {
            let idx = start_index(self.next, self.workers.len());
            let w = self.workers[idx];
            if w.available {
                match policy {
                    SupervisorPolicy::PerWorker => (
                        RegistryView { workers: self.workers, next: Some((idx + 1) as usize) },
                        Some(w.key),
                    ),
                    SupervisorPolicy::PerRequest { .. } => {
                        let ws = self.workers.update(idx, WorkerId { key: w.key, available: false });
                        (
                            RegistryView {
                                workers: ws,
                                next: match first_available(ws) {
                                    Some(p) => Some(p as usize),
                                    None => None,
                                },
                            },
                            Some(w.key),
                        )
                    },
                }
            } else {
                (RegistryView { workers: self.workers, next: None }, None)
            }
        }
    }

    /// Marks the worker `key` idle again, and says whether a waiting request
    /// should be told: under the per-request policy a busy worker becomes
    /// available (an available one is left alone, and nobody is told).
    pub open spec fn mark_idle(self, key: u128, policy: SupervisorPolicy) -> (RegistryView, bool) {
        if has_key(self.workers, key) {
            let i = key_pos(self.workers, key);
            if policy is PerRequest {
                if self.workers[i].available {
                    (self, false)
                } else {
                    (
                        RegistryView {
                            workers: self.workers.update(i, WorkerId { key, available: true }),
                            next: self.next,
                        },
                        true,
                    )
                }
            } else {
                (self, true)
            }
        } else {
            (self, false)
        }
    }

    /// Adds the worker `key` at the end, unless it is there already.
    pub open spec fn insert(self, id: WorkerId) -> RegistryView {
        if has_key(self.workers, id.key) {
            self
        } else {
            RegistryView { workers: self.workers.push(id), next: self.next }
        }
    }

    /// Removes the worker `key`, if it is there.
    pub open spec fn remove(self, key: u128) -> RegistryView {
        if has_key(self.workers, key) {
            RegistryView { workers: self.workers.remove(key_pos(self.workers, key)), next: self.next }
        } else {
            self
        }
    }
}

/// The position of `key` in `ws` is the one where it stands.
pub proof fn lemma_key_pos(ws: Seq<WorkerId>, i: int)
    requires
        keys_unique(ws),
        0 <= i < ws.len(),
    ensures
        has_key(ws, ws[i].key),
        key_pos(ws, ws[i].key) == i,
{
    assert(has_key(ws, ws[i].key));
}

/// Updating a worker in place keeps the keys unique when the key stays.
pub proof fn lemma_update_same_key(ws: Seq<WorkerId>, i: int, w: WorkerId)
    requires
        keys_unique(ws),
        0 <= i < ws.len(),
        w.key == ws[i].key,
    ensures
        keys_unique(ws.update(i, w)),
        forall|k: u128| has_key(ws.update(i, w), k) == has_key(ws, k),
{
    let ws2 = ws.update(i, w);
    assert forall|k: u128| has_key(ws2, k) == has_key(ws, k) by {
        if has_key(ws, k) {
            let j = choose|j: int| 0 <= j < ws.len() && ws[j].key == k;
            assert(ws2[j].key == k);
        }
        if has_key(ws2, k) {
            let j = choose|j: int| 0 <= j < ws2.len() && ws2[j].key == k;
            assert(ws[j].key == k);
        }
    }
}

/// Removing a worker keeps the keys unique and takes exactly that key away.
pub proof fn lemma_remove_key(ws: Seq<WorkerId>, i: int)
    requires
        keys_unique(ws),
        0 <= i < ws.len(),
    ensures
        keys_unique(ws.remove(i)),
        forall|k: u128| has_key(ws.remove(i), k) == (has_key(ws, k) && k != ws[i].key),
{
    let ws2 = ws.remove(i);
    assert forall|k: u128| has_key(ws2, k) == (has_key(ws, k) && k != ws[i].key) by {
        if has_key(ws2, k) {
            let j = choose|j: int| 0 <= j < ws2.len() && ws2[j].key == k;
            if j < i {
                assert(ws[j].key == k);
            } else {
                assert(ws[j + 1].key == k);
            }
        }
        if has_key(ws, k) && k != ws[i].key {
            let j = choose|j: int| 0 <= j < ws.len() && ws[j].key == k;
            if j < i {
                assert(ws2[j].key == k);
            } else {
                assert(j != i);
                assert(ws2[j - 1].key == k);
            }
        }
    }
}

/// Pushing a new key keeps the keys unique.
pub proof fn lemma_push_key(ws: Seq<WorkerId>, w: WorkerId)
    requires
        keys_unique(ws),
        !has_key(ws, w.key),
    ensures
        keys_unique(ws.push(w)),
        forall|k: u128| has_key(ws.push(w), k) == (has_key(ws, k) || k == w.key),
{
    let ws2 = ws.push(w);
    assert forall|i: int, j: int| 0 <= i < ws2.len() && 0 <= j < ws2.len() && i != j implies ws2[i].key != ws2[j].key by {
        if i == ws.len() as int {
            assert(ws[j].key == ws2[j].key);
        } else if j == ws.len() as int {
            assert(ws[i].key == ws2[i].key);
        }
    }
    assert forall|k: u128| has_key(ws2, k) == (has_key(ws, k) || k == w.key) by {
        if has_key(ws, k) {
            let j = choose|j: int| 0 <= j < ws.len() && ws[j].key == k;
            assert(ws2[j].key == k);
        }
        if k == w.key {
            assert(ws2[ws.len() as int].key == k);
        }
        if has_key(ws2, k) && k != w.key {
            let j = choose|j: int| 0 <= j < ws2.len() && ws2[j].key == k;
            assert(ws[j].key == k);
        }
    }
}

fn find_first_available(ws: &Vec<WorkerId>) -> (r: Option<usize>)
    ensures
        match first_available(ws@) {
            Some(p) => r == Some(p as usize),
            None => r is None,
        },
{
    let mut i: usize = 0;
    while i < ws.len()
        invariant
            i <= ws.len(),
            forall|j: int| 0 <= j < i ==> !ws@[j].available,
        decreases ws.len() - i,
    {
        if ws[i].available {
            assert(ws@[i as int].available && (forall|j: int| 0 <= j < i ==> !ws@[j].available));
            let ghost p = choose|p: int| 0 <= p < ws@.len() && ws@[p].available && (forall|j: int| 0 <= j < p ==> !ws@[j].available);
            assert(p == i) by {
                if p < i {
                } else if p > i {
                    assert(!ws@[i as int].available);
                }
            }
            return Some(i);
        }
        i = i + 1;
    }
    None
}

fn find_key(ws: &Vec<WorkerId>, key: u128) -> (r: Option<usize>)
    requires
        keys_unique(ws@),
    ensures
        match r {
            Some(i) => has_key(ws@, key) && i == key_pos(ws@, key) && i < ws.len(),
            None => !has_key(ws@, key),
        },
{
    let mut i: usize = 0;
    while i < ws.len()
        invariant
            i <= ws.len(),
            forall|j: int| 0 <= j < i ==> ws@[j].key != key,
            keys_unique(ws@),
        decreases ws.len() - i,
    {
        if ws[i].key == key {
            proof { lemma_key_pos(ws@, i as int); }
            return Some(i);
        }
        i = i + 1;
    }
    None
}

impl ActiveWorkerRegistry {
    /// A registry with no worker.
    pub fn new() -> (r: Self)
        ensures
            r@ == RegistryView::empty(),
    {
        ActiveWorkerRegistry { workers: Vec::new(), next: None }
    }

    /// Whether the worker `key` is in the registry.
    pub fn contains(&self, key: u128) -> (b: bool)
        requires
            self@.wf(),
        ensures
            b == has_key(self@.workers, key),
    {
        find_key(&self.workers, key).is_some()
    }

    /// Hands out the worker the round robin points at (see `RegistryView::mark_used`).
    pub fn mark_used_and_try_advance(&mut self, policy: SupervisorPolicy) -> (r: Option<u128>)
        requires
            old(self)@.wf(),
        ensures
            (final(self)@, r) == old(self)@.mark_used(policy),
            final(self)@.wf(),
    {
        if self.workers.len() == 0 {
            self.next = None;
            return None;
        }
        let len = self.workers.len();
        let idx = match self.next {
            Some(it) => if it >= len { 0 } else { it },
            None => 0,
        };
        let w = self.workers[idx];
        if w.available {
            match policy {
                SupervisorPolicy::PerWorker => {
                    self.next = Some(idx + 1);
                    Some(w.key)
                },
                SupervisorPolicy::PerRequest { .. } => {
                    proof { lemma_update_same_key(self.workers@, idx as int, WorkerId { key: w.key, available: false }); }
                    self.workers.set(idx, WorkerId { key: w.key, available: false });
                    self.next = find_first_available(&self.workers);
                    Some(w.key)
                },
            }
        } else {
            self.next = None;
            None
        }
    }

    /// Marks the worker `key` idle (see `RegistryView::mark_idle`); the
    /// result says whether a waiting request should be told.
    pub fn mark_idle(&mut self, key: u128, policy: SupervisorPolicy) -> (notify: bool)
        requires
            old(self)@.wf(),
        ensures
            (final(self)@, notify) == old(self)@.mark_idle(key, policy),
            final(self)@.wf(),
    {
        match find_key(&self.workers, key) {
            Some(i) => {
                if policy.is_per_request() {
                    if self.workers[i].available {
                        return false;
                    }
                    proof { lemma_update_same_key(self.workers@, i as int, WorkerId { key, available: true }); }
                    self.workers.set(i, WorkerId { key, available: true });
                }
                true
            },
            None => false,
        }
    }

    /// Adds a worker at the end, unless its key is there already.
    pub fn insert(&mut self, id: WorkerId)
        requires
            old(self)@.wf(),
        ensures
            final(self)@ == old(self)@.insert(id),
            final(self)@.wf(),
            forall|k: u128| has_key(final(self)@.workers, k) == (has_key(old(self)@.workers, k) || k == id.key),
    {
        if find_key(&self.workers, id.key).is_none() {
            proof { lemma_push_key(self.workers@, id); }
            self.workers.push(id);
        }
    }

    /// Removes the worker `key`, if it is there.
    pub fn remove(&mut self, key: u128)
        requires
            old(self)@.wf(),
        ensures
            final(self)@ == old(self)@.remove(key),
            final(self)@.wf(),
            forall|k: u128| has_key(final(self)@.workers, k) == (has_key(old(self)@.workers, k) && k != key),
    {
        match find_key(&self.workers, key) {
            Some(i) => {
                proof { lemma_remove_key(self.workers@, i as int); }
                self.workers.remove(i);
            },
            None => {},
        }
    }
}

} // verus!
