//! What holds of the worker pool across its operations.
use vstd::prelude::*;
use crate::policy::SupervisorPolicy;
use crate::registry::{RegistryView, WorkerId, has_key, key_pos, start_index};
use crate::pool::{WorkerInfo, pool_wf, retire_spec, active_lookup, lemma_mark_used_shape, lemma_remove_shape, lemma_mark_idle_shape};

verus! {

/// Replacing the registry of a path by one with the same workers keeps the pool well formed.
pub proof fn lemma_pool_wf_same_keys(
    w: Map<u128, WorkerInfo>,
    r: Map<Seq<char>, RegistryView>,
    p: Seq<char>,
    reg: RegistryView,
)
    requires
        pool_wf(w, r),
        r.contains_key(p),
        reg.wf(),
        forall|k: u128| has_key(reg.workers, k) ==> has_key(r[p].workers, k),
    ensures
        pool_wf(w, r.insert(p, reg)),
{
    let r1 = r.insert(p, reg);
    assert forall|q: Seq<char>, k: u128|
        r1.contains_key(q) && #[trigger] has_key(r1[q].workers, k) implies w.contains_key(k) && w[k].service_path == q by {
        if q == p {
            assert(has_key(r[p].workers, k));
        } else {
            assert(r1[q] == r[q]);
        }
    }
}

/// The search for an active worker hands out only a live worker of the
/// service path asked for, one that stays in that path's registry; every
/// worker it retires on the way was marked retired and has left the
/// registry; and the pool stays well formed.
pub proof fn lemma_active_lookup_sound(
    w: Map<u128, WorkerInfo>,
    r: Map<Seq<char>, RegistryView>,
    p: Seq<char>,
    policy: SupervisorPolicy,
)
    requires
        pool_wf(w, r),
    ensures
        pool_wf(w, active_lookup(w, r, p, policy).0),
        active_lookup(w, r, p, policy).2 matches Some(k) ==> {
            &&& w.contains_key(k)
            &&& !w[k].retired
            &&& w[k].service_path == p
            &&& active_lookup(w, r, p, policy).0.contains_key(p)
            &&& has_key(active_lookup(w, r, p, policy).0[p].workers, k)
        },
        forall|i: int| 0 <= i < active_lookup(w, r, p, policy).1.len() ==> {
            let k = #[trigger] active_lookup(w, r, p, policy).1[i];
            &&& w.contains_key(k)
            &&& w[k].retired
            &&& w[k].service_path == p
            &&& active_lookup(w, r, p, policy).0.contains_key(p)
            &&& !has_key(active_lookup(w, r, p, policy).0[p].workers, k)
        },
    decreases (if r.contains_key(p) { r[p].workers.len() } else { 0 }),
{
    if r.contains_key(p) {
        let (reg1, pick) = r[p].mark_used(policy);
        lemma_mark_used_shape(r[p], policy);
        let r1 = r.insert(p, reg1);
        lemma_pool_wf_same_keys(w, r, p, reg1);
        match pick {
            None => {},
            Some(k) => {
                if w.contains_key(k) && !w[k].retired {
                } else if w.contains_key(k) && w[k].service_path == p && has_key(reg1.workers, k)
                    && reg1.workers.len() == r[p].workers.len() {
                    let r2 = r1.insert(p, reg1.remove(k));
                    lemma_remove_shape(reg1, k);
                    lemma_pool_wf_same_keys(w, r1, p, reg1.remove(k));
                    lemma_active_lookup_sound(w, r2, p, policy);
                    let res = active_lookup(w, r2, p, policy);
                    lemma_active_lookup_keeps_out(w, r2, p, policy, k);
                    assert forall|i: int| 0 <= i < (seq![k] + res.1).len() implies {
                        let x = #[trigger] (seq![k] + res.1)[i];
                        &&& w.contains_key(x)
                        &&& w[x].retired
                        &&& w[x].service_path == p
                        &&& res.0.contains_key(p)
                        &&& !has_key(res.0[p].workers, x)
                    } by {
                        if i > 0 {
                            assert((seq![k] + res.1)[i] == res.1[i - 1]);
                        }
                    }
                } else {
                }
            },
        }
    }
}

/// A worker absent from a path's registry stays absent through the search.
pub proof fn lemma_active_lookup_keeps_out(
    w: Map<u128, WorkerInfo>,
    r: Map<Seq<char>, RegistryView>,
    p: Seq<char>,
    policy: SupervisorPolicy,
    x: u128,
)
    requires
        pool_wf(w, r),
        r.contains_key(p),
        !has_key(r[p].workers, x),
    ensures
        active_lookup(w, r, p, policy).0.contains_key(p),
        !has_key(active_lookup(w, r, p, policy).0[p].workers, x),
    decreases r[p].workers.len(),
{
    let (reg1, pick) = r[p].mark_used(policy);
    lemma_mark_used_shape(r[p], policy);
    let r1 = r.insert(p, reg1);
    lemma_pool_wf_same_keys(w, r, p, reg1);
    match pick {
        None => {},
        Some(k) => {
            if w.contains_key(k) && !w[k].retired {
            } else if w.contains_key(k) && w[k].service_path == p && has_key(reg1.workers, k)
                && reg1.workers.len() == r[p].workers.len() {
                let r2 = r1.insert(p, reg1.remove(k));
                lemma_remove_shape(reg1, k);
                lemma_pool_wf_same_keys(w, r1, p, reg1.remove(k));
                lemma_active_lookup_keeps_out(w, r2, p, policy, x);
            } else {
            }
        },
    }
}

/// A shut-down worker is forgotten: no registry holds it any more, and the
/// pool stays well formed.
pub proof fn lemma_shutdown_forgets(
    w: Map<u128, WorkerInfo>,
    r: Map<Seq<char>, RegistryView>,
    key: u128,
)
    requires
        pool_wf(w, r),
    ensures
        pool_wf(w.remove(key), retire_spec(w, r, key)),
        forall|p: Seq<char>| #[trigger] retire_spec(w, r, key).contains_key(p)
            ==> !has_key(retire_spec(w, r, key)[p].workers, key),
{
    let r1 = retire_spec(w, r, key);
    let w1 = w.remove(key);
    if w.contains_key(key) {
        let p0 = w[key].service_path;
        lemma_remove_shape(r[p0], key);
        assert forall|q: Seq<char>, k: u128|
            r1.contains_key(q) && #[trigger] has_key(r1[q].workers, k) implies w1.contains_key(k)
                && w1[k].service_path == q by {
            if q == p0 {
                assert(has_key(r[q].workers, k));
            } else {
                assert(r1[q] == r[q]);
                assert(w[k].service_path == q);
            }
        }
        assert forall|q: Seq<char>| #[trigger] r1.contains_key(q) implies !has_key(r1[q].workers, key) by {
            if q != p0 && has_key(r1[q].workers, key) {
                assert(r1[q] == r[q]);
                assert(w[key].service_path == q);
            }
        }
    } else {
        assert(w1 =~= w);
        assert forall|q: Seq<char>| #[trigger] r1.contains_key(q) implies !has_key(r1[q].workers, key) by {
            if has_key(r1[q].workers, key) {
                assert(w.contains_key(key));
            }
        }
    }
}

/// Under the per-request policy a worker serves one request at a time: the
/// worker just handed out is marked busy, and the next call does not hand
/// it out again.
pub proof fn lemma_per_request_one_at_a_time(reg: RegistryView, oneshot: bool)
    requires
        reg.wf(),
        reg.mark_used(SupervisorPolicy::PerRequest { oneshot }).1 is Some,
    ensures
        ({
            let policy = SupervisorPolicy::PerRequest { oneshot };
            let (reg1, pick) = reg.mark_used(policy);
            let k = pick->0;
            &&& has_key(reg1.workers, k)
            &&& !reg1.workers[key_pos(reg1.workers, k)].available
            &&& reg1.mark_used(policy).1 != Some(k)
        }),
{
    let policy = SupervisorPolicy::PerRequest { oneshot };
    let (reg1, pick) = reg.mark_used(policy);
    let idx = start_index(reg.next, reg.workers.len());
    let k = pick->0;
    lemma_mark_used_shape(reg, policy);
    assert(reg1.workers[idx].key == k);
    assert(has_key(reg1.workers, k));
    let pos = key_pos(reg1.workers, k);
    assert(pos == idx);
    let idx2 = start_index(reg1.next, reg1.workers.len());
    if reg1.workers.len() > 0 && reg1.workers[idx2].available {
        assert(idx2 != idx);
    }
}

/// Under the per-request policy, a busy worker that goes idle is available
/// again and a waiting request is told.
pub proof fn lemma_per_request_idle_frees(reg: RegistryView, key: u128, oneshot: bool)
    requires
        reg.wf(),
        has_key(reg.workers, key),
        !reg.workers[key_pos(reg.workers, key)].available,
    ensures
        ({
            let (reg1, notify) = reg.mark_idle(key, SupervisorPolicy::PerRequest { oneshot });
            &&& notify
            &&& has_key(reg1.workers, key)
            &&& reg1.workers[key_pos(reg1.workers, key)].available
        }),
{
    let policy = SupervisorPolicy::PerRequest { oneshot };
    let i = key_pos(reg.workers, key);
    lemma_mark_idle_shape(reg, key, policy);
    let (reg1, notify) = reg.mark_idle(key, policy);
    assert(reg1.workers[i].key == key);
    assert(key_pos(reg1.workers, key) == i);
}

/// Under the per-worker policy, where every worker is available, the round
/// robin always hands out a worker of a non-empty registry, and two calls in
/// a row hand out two different workers when there are at least two.
pub proof fn lemma_per_worker_round_robin(reg: RegistryView)
    requires
        reg.wf(),
        0 < reg.workers.len() <= usize::MAX,
        forall|i: int| 0 <= i < reg.workers.len() ==> #[trigger] reg.workers[i].available,
    ensures
        reg.mark_used(SupervisorPolicy::PerWorker).1 is Some,
        reg.workers.len() >= 2 ==> reg.mark_used(SupervisorPolicy::PerWorker).0.mark_used(SupervisorPolicy::PerWorker).1
            != reg.mark_used(SupervisorPolicy::PerWorker).1,
{
    let policy = SupervisorPolicy::PerWorker;
    let idx = start_index(reg.next, reg.workers.len());
    assert(reg.workers[idx].available);
    let (reg1, pick) = reg.mark_used(policy);
    if reg.workers.len() >= 2 {
        let idx2 = start_index(reg1.next, reg1.workers.len());
        assert(reg1.workers == reg.workers);
        assert(reg.workers[idx2].available);
        assert(idx2 != idx);
        assert(reg.workers[idx2].key != reg.workers[idx].key);
    }
}

/// Under the per-worker policy every worker of a registry stays available:
/// workers join available, and handing out or idling a worker changes no mark.
pub proof fn lemma_per_worker_all_available(reg: RegistryView, key: u128)
    requires
        reg.wf(),
        forall|i: int| 0 <= i < reg.workers.len() ==> #[trigger] reg.workers[i].available,
    ensures
        forall|i: int| 0 <= i < reg.mark_used(SupervisorPolicy::PerWorker).0.workers.len()
            ==> #[trigger] reg.mark_used(SupervisorPolicy::PerWorker).0.workers[i].available,
        forall|i: int| 0 <= i < reg.mark_idle(key, SupervisorPolicy::PerWorker).0.workers.len()
            ==> #[trigger] reg.mark_idle(key, SupervisorPolicy::PerWorker).0.workers[i].available,
        forall|i: int| 0 <= i < reg.insert(WorkerId { key, available: true }).workers.len()
            ==> #[trigger] reg.insert(WorkerId { key, available: true }).workers[i].available,
{
}

/// Shutting down a worker undoes adding it: the pool knows the same workers
/// as before, and each registry holds the same workers in the same order,
/// the added worker's path keeping a registry (empty, if it was new).
pub proof fn lemma_add_then_shutdown(
    w: Map<u128, WorkerInfo>,
    r: Map<Seq<char>, RegistryView>,
    key: u128,
    p: Seq<char>,
    available: bool,
)
    requires
        pool_wf(w, r),
        !w.contains_key(key),
    ensures
        ({
            let base = if r.contains_key(p) { r[p] } else { RegistryView::empty() };
            let w1 = w.insert(key, WorkerInfo { service_path: p, retired: false });
            let r1 = r.insert(p, base.insert(WorkerId { key, available }));
            &&& w1.remove(key) == w
            &&& retire_spec(w1, r1, key) == r.insert(p, base)
        }),
{
    let base = if r.contains_key(p) { r[p] } else { RegistryView::empty() };
    let id = WorkerId { key, available };
    let w1 = w.insert(key, WorkerInfo { service_path: p, retired: false });
    assert(w1.remove(key) =~= w);
    assert(!has_key(base.workers, key)) by {
        if has_key(base.workers, key) {
            assert(r.contains_key(p));
        }
    }
    let pushed = base.workers.push(id);
    assert(has_key(pushed, key)) by {
        assert(pushed[base.workers.len() as int].key == key);
    }
    let i = key_pos(pushed, key);
    assert(i == base.workers.len()) by {
        if i != base.workers.len() {
            assert(pushed[i] == base.workers[i]);
            assert(has_key(base.workers, key));
        }
    }
    assert(pushed.remove(i) =~= base.workers);
    assert(base.insert(id).remove(key) == base);
}

/// The workers that `k` calls in a row hand out under the per-worker policy.
pub open spec fn round_robin_picks(reg: RegistryView, k: nat) -> Seq<Option<u128>>
    decreases k,
{
    if k == 0 {
        Seq::empty()
    } else {
        let (reg1, pick) = reg.mark_used(SupervisorPolicy::PerWorker);
        seq![pick] + round_robin_picks(reg1, (k - 1) as nat)
    }
}

/// The position `i` steps after `s` in a cycle of `n` (for `s, i < n`).
pub open spec fn cycle_pos(s: int, i: int, n: int) -> int {
    if s + i < n { s + i } else { s + i - n }
}

proof fn lemma_round_robin_positions(reg: RegistryView, k: nat)
    requires
        reg.wf(),
        0 < reg.workers.len() <= usize::MAX,
        k <= reg.workers.len(),
        forall|i: int| 0 <= i < reg.workers.len() ==> #[trigger] reg.workers[i].available,
    ensures
        round_robin_picks(reg, k).len() == k,
        forall|i: int| 0 <= i < k ==> #[trigger] round_robin_picks(reg, k)[i]
            == Some(reg.workers[cycle_pos(start_index(reg.next, reg.workers.len()), i, reg.workers.len() as int)].key),
    decreases k,
{
    if k > 0 {
        let n = reg.workers.len() as int;
        let st = start_index(reg.next, reg.workers.len());
        assert(reg.workers[st].available);
        let (reg1, pick) = reg.mark_used(SupervisorPolicy::PerWorker);
        assert(reg1.workers == reg.workers);
        lemma_round_robin_positions(reg1, (k - 1) as nat);
        let st1 = start_index(reg1.next, reg1.workers.len());
        assert(st1 == if st + 1 < n { st + 1 } else { 0 });
        let ps = round_robin_picks(reg, k);
        let rest = round_robin_picks(reg1, (k - 1) as nat);
        assert(ps == seq![pick] + rest);
        assert forall|i: int| 0 <= i < k implies #[trigger] ps[i] == Some(reg.workers[cycle_pos(st, i, n)].key) by {
            if i > 0 {
                assert(ps[i] == rest[i - 1]);
                assert(cycle_pos(st1, i - 1, n) == cycle_pos(st, i, n));
            }
        }
    }
}

/// Under the per-worker policy, where every worker is available, any `n`
/// calls in a row on a registry of `n` workers hand out every worker once,
/// in the cyclic order of the registry from where the round robin points.
pub proof fn lemma_round_robin_cycle(reg: RegistryView)
    requires
        reg.wf(),
        0 < reg.workers.len() <= usize::MAX,
        forall|i: int| 0 <= i < reg.workers.len() ==> #[trigger] reg.workers[i].available,
    ensures
        ({
            let n = reg.workers.len();
            let ps = round_robin_picks(reg, n);
            let st = start_index(reg.next, n);
            &&& ps.len() == n
            &&& forall|i: int| 0 <= i < n ==> #[trigger] ps[i] == Some(reg.workers[cycle_pos(st, i, n as int)].key)
            &&& forall|i: int, j: int| 0 <= i < n && 0 <= j < n && i != j ==> #[trigger] ps[i] != #[trigger] ps[j]
            &&& forall|m: int| #![trigger reg.workers[m]] 0 <= m < n ==> exists|i: int| 0 <= i < n && #[trigger] ps[i] == Some(reg.workers[m].key)
        }),
{
    let n = reg.workers.len();
    let ps = round_robin_picks(reg, n);
    let st = start_index(reg.next, n);
    lemma_round_robin_positions(reg, n);
    assert forall|i: int, j: int| 0 <= i < n && 0 <= j < n && i != j implies #[trigger] ps[i] != #[trigger] ps[j] by {
        let a = cycle_pos(st, i, n as int);
        let b = cycle_pos(st, j, n as int);
        assert(a != b);
        assert(reg.workers[a].key != reg.workers[b].key);
    }
    assert forall|m: int| #![trigger reg.workers[m]] 0 <= m < n implies exists|i: int| 0 <= i < n && #[trigger] ps[i] == Some(reg.workers[m].key) by {
        let i = if m >= st { m - st } else { m + n - st };
        assert(cycle_pos(st, i, n as int) == m);
        assert(ps[i] == Some(reg.workers[m].key));
    }
}

/// Some available worker of `ws` comes before any other available one.
proof fn lemma_least_available(ws: Seq<WorkerId>, i: int)
    requires
        0 <= i < ws.len(),
        ws[i].available,
    ensures
        exists|m: int| 0 <= m <= i && ws[m].available && (forall|j: int| 0 <= j < m ==> !ws[j].available),
    decreases i,
{
    if exists|j: int| 0 <= j < i && ws[j].available {
        let j = choose|j: int| 0 <= j < i && ws[j].available;
        lemma_least_available(ws, j);
    } else {
        assert(forall|j: int| 0 <= j < i ==> !ws[j].available);
    }
}

/// Per request: once a worker has been handed out, the next request goes to
/// a worker whenever one is still available, namely to the first available
/// one; no request is refused while a worker sits idle.
pub proof fn lemma_per_request_hands_out_available(reg: RegistryView, oneshot: bool)
    requires
        reg.workers.len() <= usize::MAX,
        reg.mark_used(SupervisorPolicy::PerRequest { oneshot }).1 is Some,
    ensures
        ({
            let p = SupervisorPolicy::PerRequest { oneshot };
            let reg1 = reg.mark_used(p).0;
            (exists|i: int| 0 <= i < reg1.workers.len() && reg1.workers[i].available) ==> exists|i: int|
                0 <= i < reg1.workers.len() && reg1.workers[i].available
                && (forall|j: int| 0 <= j < i ==> !reg1.workers[j].available)
                && reg1.mark_used(p).1 == Some(reg1.workers[i].key)
        }),
{
    let p = SupervisorPolicy::PerRequest { oneshot };
    let reg1 = reg.mark_used(p).0;
    let ws = reg1.workers;
    if exists|i: int| 0 <= i < ws.len() && ws[i].available {
        let i = choose|i: int| 0 <= i < ws.len() && ws[i].available;
        lemma_least_available(ws, i);
        let m = choose|m: int| 0 <= m <= i && ws[m].available && (forall|j: int| 0 <= j < m ==> !ws[j].available);
        assert(ws.len() == reg.workers.len());
        let f = choose|q: int| 0 <= q < ws.len() && ws[q].available && (forall|j: int| 0 <= j < q ==> !ws[j].available);
        assert(f == m) by {
            if f < m {
                assert(!ws[f].available);
            } else if f > m {
                assert(!ws[m].available);
            }
        }
        assert(reg1.next == Some(m as usize));
        assert(start_index(reg1.next, ws.len()) == m);
    }
}

/// Handing out a worker: an empty registry hands out none; a worker handed
/// out was available; the workers keep their keys and order, and the only
/// mark that changes is that of the worker handed out under the per-request
/// policy, which turns busy.
pub proof fn lemma_mark_used_changes_only_the_pick(reg: RegistryView, policy: SupervisorPolicy)
    ensures
        reg.workers.len() == 0 ==> reg.mark_used(policy).1 is None,
        ({
            let (reg1, pick) = reg.mark_used(policy);
            &&& reg1.workers.len() == reg.workers.len()
            &&& forall|i: int| 0 <= i < reg.workers.len() ==> #[trigger] reg1.workers[i].key == reg.workers[i].key
            &&& pick matches Some(k) ==> exists|i: int| 0 <= i < reg.workers.len() && reg.workers[i].key == k
                && reg.workers[i].available
                && (policy is PerRequest ==> !reg1.workers[i].available)
                && (forall|j: int| 0 <= j < reg.workers.len() && j != i
                    ==> #[trigger] reg1.workers[j].available == reg.workers[j].available)
            &&& pick is None ==> reg1.workers == reg.workers
            &&& policy is PerWorker ==> reg1.workers == reg.workers
        }),
{
    let (reg1, pick) = reg.mark_used(policy);
    if reg.workers.len() > 0 {
        let idx = start_index(reg.next, reg.workers.len());
        if pick is Some {
            assert(reg.workers[idx].key == pick->0);
        }
    }
}

} // verus!
