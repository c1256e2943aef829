//! The user worker pool: which workers exist, which service path each
//! serves, and which of them a request may be handed to.
use vstd::prelude::*;
use crate::assoc::{assoc, in_keys, unique_keys, lemma_assoc_index, lemma_assoc_push, lemma_assoc_update, lemma_assoc_remove};
use crate::policy::{SupervisorPolicy, WorkerPoolPolicy};
use crate::registry::{ActiveWorkerRegistry, RegistryView, WorkerId, has_key, key_pos, start_index, lemma_update_same_key, lemma_push_key, lemma_remove_key};

verus! {

/// A user worker known to the pool.
pub struct UserWorker {
    pub key: u128,
    pub service_path: String,
    /// The worker's supervisor has marked it retired: it takes no new request.
    pub retired: bool,
    /// How many requests have been handed to the worker (counting on from
    /// zero after the largest count, as the shared counter does).
    pub demand: usize,
}

/// The registry of one service path.
pub struct ServiceRegistry {
    pub service_path: String,
    pub registry: ActiveWorkerRegistry,
}

/// What the pool knows of a worker.
pub struct WorkerInfo {
    pub service_path: Seq<char>,
    pub retired: bool,
}

pub open spec fn worker_pairs(s: Seq<UserWorker>) -> Seq<(u128, WorkerInfo)> {
    s.map_values(|w: UserWorker| (w.key, WorkerInfo { service_path: w.service_path@, retired: w.retired }))
}

pub open spec fn demand_pairs(s: Seq<UserWorker>) -> Seq<(u128, usize)> {
    s.map_values(|w: UserWorker| (w.key, w.demand))
}

/// The demand after one more request is handed over.
pub open spec fn bumped(d: usize) -> usize {
    if d == usize::MAX { 0 } else { (d + 1) as usize }
}

/// The keys of the demand pairs are those of the worker pairs.
pub proof fn lemma_demand_keys(s: Seq<UserWorker>)
    ensures
        unique_keys(worker_pairs(s)) ==> unique_keys(demand_pairs(s)),
        forall|k: u128| #[trigger] assoc(demand_pairs(s)).contains_key(k) == assoc(worker_pairs(s)).contains_key(k),
{
    let wp = worker_pairs(s);
    let dp = demand_pairs(s);
    assert forall|i: int| 0 <= i < s.len() implies #[trigger] dp[i].0 == wp[i].0 by {}
    assert forall|k: u128| #[trigger] assoc(dp).contains_key(k) == assoc(wp).contains_key(k) by {
        if in_keys(dp, k) {
            let i = choose|i: int| 0 <= i < dp.len() && dp[i].0 == k;
            assert(wp[i].0 == k);
        }
        if in_keys(wp, k) {
            let i = choose|i: int| 0 <= i < wp.len() && wp[i].0 == k;
            assert(dp[i].0 == k);
        }
    }
}

pub open spec fn registry_pairs(s: Seq<ServiceRegistry>) -> Seq<(Seq<char>, RegistryView)> {
    s.map_values(|r: ServiceRegistry| (r.service_path@, r.registry@))
}

/// The invariant of the pool's abstract state: every registry is well formed,
/// every worker in a registry is a known worker of that registry's service
/// path, and every known worker's service path has a registry.
pub open spec fn pool_wf(w: Map<u128, WorkerInfo>, r: Map<Seq<char>, RegistryView>) -> bool {
    &&& forall|p: Seq<char>| #[trigger] r.contains_key(p) ==> r[p].wf()
    &&& forall|p: Seq<char>, k: u128|
        r.contains_key(p) && #[trigger] has_key(r[p].workers, k) ==> w.contains_key(k) && w[k].service_path == p
    &&& forall|k: u128| #[trigger] w.contains_key(k) ==> r.contains_key(w[k].service_path)
}

/// The registries after the worker `key` is retired: it leaves the registry
/// of its service path.
pub open spec fn retire_spec(
    w: Map<u128, WorkerInfo>,
    r: Map<Seq<char>, RegistryView>,
    key: u128,
) -> Map<Seq<char>, RegistryView> {
    if w.contains_key(key) && r.contains_key(w[key].service_path) {
        r.insert(w[key].service_path, r[w[key].service_path].remove(key))
    } else {
        r
    }
}

/// Looks for an active worker of service path `p`: takes the worker the round
/// robin hands out; a retired one is retired from the registry and the search
/// goes on. The result is the registries after the search, the workers it
/// retired, in order, and the worker found.
pub open spec fn active_lookup(
    w: Map<u128, WorkerInfo>,
    r: Map<Seq<char>, RegistryView>,
    p: Seq<char>,
    policy: SupervisorPolicy,
) -> (Map<Seq<char>, RegistryView>, Seq<u128>, Option<u128>)
    decreases (if r.contains_key(p) { r[p].workers.len() } else { 0 }),
{
    if !r.contains_key(p) {
        (r, seq![], None)
    } else {
        let (reg1, pick) = r[p].mark_used(policy);
        let r1 = r.insert(p, reg1);
        match pick {
            None => (r1, seq![], None),
            Some(k) => {
                if w.contains_key(k) && !w[k].retired {
                    (r1, seq![], Some(k))
                } else if w.contains_key(k) && w[k].service_path == p && has_key(reg1.workers, k)
                    && reg1.workers.len() == r[p].workers.len() {
                    let r2 = r1.insert(p, reg1.remove(k));
                    proof {
                        let i = key_pos(reg1.workers, k);
                        assert(0 <= i < reg1.workers.len());
                        assert(r2[p].workers.len() == reg1.workers.len() - 1);
                    }
                    let res = active_lookup(w, r2, p, policy);
                    (res.0, seq![k] + res.1, res.2)
                } else {
                    (r1, seq![], None)
                }
            },
        }
    }
}

/// What becomes of a request for a worker of a service path.
pub struct CreatePlan {
    /// An active worker to hand the request to; none means a new one is needed.
    pub reuse: Option<u128>,
    /// Workers retired on the way, whose permits and waiters the caller releases.
    pub retired: Vec<u128>,
    /// A new worker is to be created even without a free permit.
    pub force_create: bool,
}

/// The user worker pool.
pub struct WorkerPool {
    pub policy: WorkerPoolPolicy,
    pub user_workers: Vec<UserWorker>,
    pub active_workers: Vec<ServiceRegistry>,
}

/// Marking a registry used keeps its length, and what it hands out is in it.
pub proof fn lemma_mark_used_shape(reg: RegistryView, policy: SupervisorPolicy)
    requires
        reg.wf(),
    ensures
        reg.mark_used(policy).0.wf(),
        reg.mark_used(policy).0.workers.len() == reg.workers.len(),
        forall|k: u128| has_key(reg.mark_used(policy).0.workers, k) == has_key(reg.workers, k),
        reg.mark_used(policy).1 matches Some(k) ==> has_key(reg.workers, k),
{
    if reg.workers.len() > 0 {
        let idx = start_index(reg.next, reg.workers.len());
        let w = reg.workers[idx];
        assert(has_key(reg.workers, w.key));
        if w.available && policy is PerRequest {
            lemma_update_same_key(reg.workers, idx, WorkerId { key: w.key, available: false });
        }
    }
}

/// Marking a worker idle keeps the registry's workers.
pub proof fn lemma_mark_idle_shape(reg: RegistryView, key: u128, policy: SupervisorPolicy)
    requires
        reg.wf(),
    ensures
        reg.mark_idle(key, policy).0.wf(),
        forall|k: u128| has_key(reg.mark_idle(key, policy).0.workers, k) == has_key(reg.workers, k),
{
    if has_key(reg.workers, key) {
        let i = key_pos(reg.workers, key);
        lemma_update_same_key(reg.workers, i, WorkerId { key, available: true });
    }
}

/// Inserting a worker keeps the registry well formed and adds exactly its key.
pub proof fn lemma_insert_shape(reg: RegistryView, id: WorkerId)
    requires
        reg.wf(),
    ensures
        reg.insert(id).wf(),
        forall|k: u128| has_key(reg.insert(id).workers, k) == (has_key(reg.workers, k) || k == id.key),
{
    if !has_key(reg.workers, id.key) {
        lemma_push_key(reg.workers, id);
    }
}

/// Removing a worker keeps the registry well formed and takes exactly its key away.
pub proof fn lemma_remove_shape(reg: RegistryView, key: u128)
    requires
        reg.wf(),
    ensures
        reg.remove(key).wf(),
        forall|k: u128| has_key(reg.remove(key).workers, k) == (has_key(reg.workers, k) && k != key),
        has_key(reg.workers, key) ==> reg.remove(key).workers.len() == reg.workers.len() - 1,
{
    if has_key(reg.workers, key) {
        let i = key_pos(reg.workers, key);
        lemma_remove_key(reg.workers, i);
    }
}

impl WorkerPool {
    /// The known workers.
    pub open spec fn workers(&self) -> Map<u128, WorkerInfo> {
        assoc(worker_pairs(self.user_workers@))
    }

    /// How many requests have been handed to each known worker.
    pub open spec fn demands(&self) -> Map<u128, usize> {
        assoc(demand_pairs(self.user_workers@))
    }

    /// The registry of each service path.
    pub open spec fn registries(&self) -> Map<Seq<char>, RegistryView> {
        assoc(registry_pairs(self.active_workers@))
    }

    pub open spec fn wf(&self) -> bool {
        &&& unique_keys(worker_pairs(self.user_workers@))
        &&& unique_keys(registry_pairs(self.active_workers@))
        &&& pool_wf(self.workers(), self.registries())
    }

    /// An empty pool under `policy`.
    pub fn new(policy: WorkerPoolPolicy) -> (pool: Self)
        ensures
            pool.wf(),
            pool.policy == policy,
            pool.workers() == Map::<u128, WorkerInfo>::empty(),
            pool.demands() == Map::<u128, usize>::empty(),
            pool.registries() == Map::<Seq<char>, RegistryView>::empty(),
    {
        let pool = WorkerPool { policy, user_workers: Vec::new(), active_workers: Vec::new() };
        assert(pool.workers() =~= Map::<u128, WorkerInfo>::empty());
        assert(pool.demands() =~= Map::<u128, usize>::empty());
        assert(pool.registries() =~= Map::<Seq<char>, RegistryView>::empty());
        pool
    }


    /// Makes sure service path `path` has a registry, adding an empty one if
    /// it has none; gives its position.
    fn ensure_registry(&mut self, path: &String) -> (i: usize)
        requires
            old(self).wf(),
        ensures
            final(self).wf(),
            final(self).policy == old(self).policy,
            final(self).workers() == old(self).workers(),
            final(self).registries() == (if old(self).registries().contains_key(path@) {
                old(self).registries()
            } else {
                old(self).registries().insert(path@, RegistryView::empty())
            }),
            i < final(self).active_workers.len(),
            final(self).active_workers@[i as int].service_path@ == path@,
            final(self).user_workers == old(self).user_workers,
    {
        match self.find_registry(path) {
            Some(i) => i,
            None => {
                let entry = ServiceRegistry { service_path: path.clone(), registry: ActiveWorkerRegistry::new() };
                proof {
                    lemma_assoc_push(registry_pairs(self.active_workers@), path@, RegistryView::empty());
                    assert(registry_pairs(self.active_workers@.push(entry)) =~= registry_pairs(self.active_workers@).push((path@, RegistryView::empty())));
                }
                self.active_workers.push(entry);
                proof {
                    let r = self.registries();
                    assert forall|p: Seq<char>| #[trigger] r.contains_key(p) implies r[p].wf() by {
                        if p != path@ {
                        } else {
                            assert(r[p] == RegistryView::empty());
                        }
                    }
                    assert forall|p: Seq<char>, k: u128|
                        r.contains_key(p) && #[trigger] has_key(r[p].workers, k) implies self.workers().contains_key(k)
                            && self.workers()[k].service_path == p by {
                        if p == path@ {
                            assert(r[p].workers.len() == 0);
                        }
                    }
                }
                self.active_workers.len() - 1
            },
        }
    }

    /// Registers a newly created worker `key` of service path `path`: it joins
    /// that path's registry (available at once under the per-worker policy,
    /// after its first idle signal under the per-request one).
    pub fn add_user_worker(&mut self, key: u128, service_path: String)
        requires
            old(self).wf(),
            !old(self).workers().contains_key(key),
        ensures
            final(self).wf(),
            final(self).policy == old(self).policy,
            final(self).workers() == old(self).workers().insert(
                key,
                WorkerInfo { service_path: service_path@, retired: false },
            ),
            final(self).demands() == old(self).demands().insert(key, 1),
            final(self).registries() == old(self).registries().insert(
                service_path@,
                (if old(self).registries().contains_key(service_path@) {
                    old(self).registries()[service_path@]
                } else {
                    RegistryView::empty()
                }).insert(WorkerId { key, available: old(self).policy.supervisor_policy is PerWorker }),
            ),
    {
        let ghost w0 = self.workers();
        let ghost r0 = self.registries();
        let i = self.ensure_registry(&service_path);
        let ghost r1 = self.registries();
        let id = WorkerId { key, available: self.policy.supervisor_policy.is_per_worker() };
        proof {
            let ps = registry_pairs(self.active_workers@);
            lemma_assoc_index(ps, i as int);
            assert(self.active_workers@[i as int].registry@.wf());
            lemma_insert_shape(self.active_workers@[i as int].registry@, id);
        }
        let ghost aw1 = self.active_workers@;
        self.active_workers[i].registry.insert(id);
        proof {
            let ps1 = registry_pairs(aw1);
            let ps2 = registry_pairs(self.active_workers@);
            assert(self.active_workers@[i as int].service_path@ == aw1[i as int].service_path@);
            assert(ps2 =~= ps1.update(i as int, (ps1[i as int].0, self.active_workers@[i as int].registry@)));
            lemma_assoc_update(ps1, i as int, self.active_workers@[i as int].registry@);
            lemma_assoc_push(worker_pairs(self.user_workers@), key, WorkerInfo { service_path: service_path@, retired: false });
        }
        let ghost r2 = self.registries();
        let ghost sp = service_path@;
        let entry = UserWorker { key, service_path, retired: false, demand: 1 };
        proof {
            assert(worker_pairs(self.user_workers@.push(entry)) =~= worker_pairs(self.user_workers@).push((key, WorkerInfo { service_path: sp, retired: false })));
            lemma_demand_keys(self.user_workers@);
            lemma_assoc_push(demand_pairs(self.user_workers@), key, 1usize);
            assert(demand_pairs(self.user_workers@.push(entry)) =~= demand_pairs(self.user_workers@).push((key, 1usize)));
        }
        self.user_workers.push(entry);
        proof {
            let w = self.workers();
            let r = self.registries();
            assert(r == r2);
            assert forall|p: Seq<char>| #[trigger] r.contains_key(p) implies r[p].wf() by {}
            assert forall|p: Seq<char>, k: u128|
                r.contains_key(p) && #[trigger] has_key(r[p].workers, k) implies w.contains_key(k)
                    && w[k].service_path == p by {
                if p == sp {
                    if k != key {
                        assert(has_key(r1[p].workers, k));
                    }
                } else {
                    assert(r[p] == r1[p]);
                }
            }
            assert forall|k: u128| #[trigger] w.contains_key(k) implies r.contains_key(w[k].service_path) by {
                if k != key {
                    assert(w0.contains_key(k));
                }
            }
            assert(r1 == (if r0.contains_key(sp) { r0 } else { r0.insert(sp, RegistryView::empty()) }));
        }
    }


    /// Retires the worker `key`: it leaves the registry of its service path.
    /// Gives that service path, whose waiters the caller wakes and whose
    /// permit held by the worker it releases; none when the worker is unknown.
    fn retire(&mut self, key: u128) -> (r: Option<String>)
        requires
            old(self).wf(),
        ensures
            final(self).wf(),
            final(self).policy == old(self).policy,
            final(self).workers() == old(self).workers(),
            final(self).registries() == retire_spec(old(self).workers(), old(self).registries(), key),
            final(self).user_workers@ == old(self).user_workers@,
            match r {
                Some(p) => old(self).workers().contains_key(key) && p@ == old(self).workers()[key].service_path,
                None => !old(self).workers().contains_key(key),
            },
    {
        match self.find_worker(key) {
            None => None,
            Some(j) => {
                let path = self.user_workers[j].service_path.clone();
                proof {
                    lemma_assoc_index(worker_pairs(self.user_workers@), j as int);
                }
                match self.find_registry(&path) {
                    None => Some(path),
                    Some(i) => {
                        let ghost w0 = self.workers();
                        let ghost r0 = self.registries();
                        let ghost aw1 = self.active_workers@;
                        proof {
                            lemma_assoc_index(registry_pairs(aw1), i as int);
                            lemma_remove_shape(aw1[i as int].registry@, key);
                        }
                        self.active_workers[i].registry.remove(key);
                        proof {
                            let ps1 = registry_pairs(aw1);
                            let ps2 = registry_pairs(self.active_workers@);
                            assert(ps2 =~= ps1.update(i as int, (ps1[i as int].0, self.active_workers@[i as int].registry@)));
                            lemma_assoc_update(ps1, i as int, self.active_workers@[i as int].registry@);
                            let r = self.registries();
                            assert forall|p: Seq<char>| #[trigger] r.contains_key(p) implies r[p].wf() by {}
                            assert forall|p: Seq<char>, k: u128|
                                r.contains_key(p) && #[trigger] has_key(r[p].workers, k) implies w0.contains_key(k)
                                    && w0[k].service_path == p by {
                                if p == path@ {
                                    assert(has_key(r0[p].workers, k));
                                } else {
                                    assert(r[p] == r0[p]);
                                }
                            }
                        }
                        Some(path)
                    },
                }
            },
        }
    }

    /// Notes that the supervisor of worker `key` has marked it retired.
    pub fn mark_retired(&mut self, key: u128)
        requires
            old(self).wf(),
        ensures
            final(self).wf(),
            final(self).policy == old(self).policy,
            final(self).registries() == old(self).registries(),
            final(self).demands() == old(self).demands(),
            final(self).workers() == (if old(self).workers().contains_key(key) {
                old(self).workers().insert(
                    key,
                    WorkerInfo { service_path: old(self).workers()[key].service_path, retired: true },
                )
            } else {
                old(self).workers()
            }),
    {
        match self.find_worker(key) {
            None => {},
            Some(j) => {
                let ghost w0 = self.workers();
                let ghost uw1 = self.user_workers@;
                proof { lemma_assoc_index(worker_pairs(uw1), j as int); }
                self.user_workers[j].retired = true;
                proof {
                    assert(demand_pairs(self.user_workers@) =~= demand_pairs(uw1));
                    let ps1 = worker_pairs(uw1);
                    let ps2 = worker_pairs(self.user_workers@);
                    let info = WorkerInfo { service_path: w0[key].service_path, retired: true };
                    assert(ps2 =~= ps1.update(j as int, (key, info)));
                    lemma_assoc_update(ps1, j as int, info);
                    let w = self.workers();
                    let r = self.registries();
                    assert forall|p: Seq<char>, k: u128|
                        r.contains_key(p) && #[trigger] has_key(r[p].workers, k) implies w.contains_key(k)
                            && w[k].service_path == p by {
                        assert(w0.contains_key(k));
                    }
                    assert forall|k: u128| #[trigger] w.contains_key(k) implies r.contains_key(w[k].service_path) by {
                        assert(w0.contains_key(k));
                    }
                }
            },
        }
    }

    /// The worker `key` has finished a request. Gives the service path whose
    /// waiting request is to be told that the worker is free, if any.
    pub fn idle(&mut self, key: u128) -> (r: Option<String>)
        requires
            old(self).wf(),
        ensures
            final(self).wf(),
            final(self).policy == old(self).policy,
            final(self).workers() == old(self).workers(),
            final(self).demands() == old(self).demands(),
            ({
                let w = old(self).workers();
                let rs = old(self).registries();
                if w.contains_key(key) && rs.contains_key(w[key].service_path) {
                    let p = w[key].service_path;
                    let (reg, notify) = rs[p].mark_idle(key, old(self).policy.supervisor_policy);
                    &&& final(self).registries() == rs.insert(p, reg)
                    &&& (r is Some <==> notify)
                    &&& (r matches Some(s) ==> s@ == p)
                } else {
                    &&& final(self).registries() == rs
                    &&& r is None
                }
            }),
    {
        match self.find_worker(key) {
            None => None,
            Some(j) => {
                let path = self.user_workers[j].service_path.clone();
                proof { lemma_assoc_index(worker_pairs(self.user_workers@), j as int); }
                match self.find_registry(&path) {
                    None => None,
                    Some(i) => {
                        let ghost w0 = self.workers();
                        let ghost r0 = self.registries();
                        let ghost aw1 = self.active_workers@;
                        let policy = self.policy.supervisor_policy;
                        proof {
                            lemma_assoc_index(registry_pairs(aw1), i as int);
                            lemma_mark_idle_shape(aw1[i as int].registry@, key, policy);
                        }
                        let notify = self.active_workers[i].registry.mark_idle(key, policy);
                        proof {
                            let ps1 = registry_pairs(aw1);
                            let ps2 = registry_pairs(self.active_workers@);
                            assert(ps2 =~= ps1.update(i as int, (ps1[i as int].0, self.active_workers@[i as int].registry@)));
                            lemma_assoc_update(ps1, i as int, self.active_workers@[i as int].registry@);
                            let r = self.registries();
                            assert forall|p: Seq<char>| #[trigger] r.contains_key(p) implies r[p].wf() by {}
                            assert forall|p: Seq<char>, k: u128|
                                r.contains_key(p) && #[trigger] has_key(r[p].workers, k) implies w0.contains_key(k)
                                    && w0[k].service_path == p by {
                                if p == path@ {
                                    assert(has_key(r0[p].workers, k));
                                } else {
                                    assert(r[p] == r0[p]);
                                }
                            }
                        }
                        if notify { Some(path) } else { None }
                    },
                }
            },
        }
    }

    /// The worker `key` has shut down: it is retired and forgotten. Gives its
    /// service path, whose waiters the caller wakes; none when it was unknown.
    pub fn shutdown(&mut self, key: u128) -> (r: Option<String>)
        requires
            old(self).wf(),
        ensures
            final(self).wf(),
            final(self).policy == old(self).policy,
            final(self).workers() == old(self).workers().remove(key),
            final(self).demands() == old(self).demands().remove(key),
            final(self).registries() == retire_spec(old(self).workers(), old(self).registries(), key),
            match r {
                Some(p) => old(self).workers().contains_key(key) && p@ == old(self).workers()[key].service_path,
                None => !old(self).workers().contains_key(key),
            },
    {
        let ghost w0 = self.workers();
        let ghost r0 = self.registries();
        let r = self.retire(key);
        match self.find_worker(key) {
            None => {
                assert(w0.remove(key) =~= w0);
                proof {
                    lemma_demand_keys(self.user_workers@);
                }
                assert(self.demands().remove(key) =~= self.demands());
            },
            Some(j) => {
                let ghost uw1 = self.user_workers@;
                proof {
                    lemma_assoc_index(worker_pairs(uw1), j as int);
                    let ps1 = worker_pairs(uw1);
                    assert(worker_pairs(uw1.remove(j as int)) =~= ps1.remove(j as int));
                    lemma_assoc_remove(ps1, j as int);
                    lemma_demand_keys(uw1);
                    let ds1 = demand_pairs(uw1);
                    assert(ds1[j as int].0 == key);
                    assert(demand_pairs(uw1.remove(j as int)) =~= ds1.remove(j as int));
                    lemma_assoc_remove(ds1, j as int);
                }
                self.user_workers.remove(j);
                proof {
                    let w = self.workers();
                    let r1 = self.registries();
                    let p0 = w0[key].service_path;
                    assert forall|p: Seq<char>, k: u128|
                        r1.contains_key(p) && #[trigger] has_key(r1[p].workers, k) implies w.contains_key(k)
                            && w[k].service_path == p by {
                        if p == p0 {
                            lemma_remove_shape(r0[p0], key);
                            assert(has_key(r0[p].workers, k));
                        } else {
                            assert(r1[p] == r0[p]);
                            assert(w0.contains_key(k) && w0[k].service_path == p);
                        }
                    }
                    assert forall|k: u128| #[trigger] w.contains_key(k) implies r1.contains_key(w[k].service_path) by {
                        assert(w0.contains_key(k));
                    }
                }
            },
        }
        r
    }


    /// Looks for an active worker of service path `path` (see `active_lookup`),
    /// unless a new worker is to be forced. Gives the worker found, whose
    /// demand grows by the request it is handed, and the workers retired on
    /// the way, in order.
    pub fn maybe_active_worker(&mut self, path: &String, force_create: bool) -> (r: (Option<u128>, Vec<u128>))
        requires
            old(self).wf(),
        ensures
            final(self).wf(),
            final(self).policy == old(self).policy,
            final(self).workers() == old(self).workers(),
            final(self).demands() == (match r.0 {
                Some(k) => old(self).demands().insert(k, bumped(old(self).demands()[k])),
                None => old(self).demands(),
            }),
            force_create ==> final(self).registries() == old(self).registries() && r.0 is None && r.1@ == Seq::<u128>::empty(),
            !force_create ==> ({
                let res = active_lookup(old(self).workers(), old(self).registries(), path@, old(self).policy.supervisor_policy);
                &&& final(self).registries() == res.0
                &&& r.1@ == res.1
                &&& r.0 == res.2
            }),
    {
        let mut retired: Vec<u128> = Vec::new();
        if force_create {
            return (None, retired);
        }
        let ghost w0 = self.workers();
        let ghost r0 = self.registries();
        let policy = self.policy.supervisor_policy;
        loop
            invariant
                self.wf(),
                self.policy == old(self).policy,
                policy == self.policy.supervisor_policy,
                self.workers() == w0,
                w0 == old(self).workers(),
                self.demands() == old(self).demands(),
                r0 == old(self).registries(),
                !force_create,
                active_lookup(w0, r0, path@, policy) == ({
                    let res = active_lookup(w0, self.registries(), path@, policy);
                    (res.0, retired@ + res.1, res.2)
                }),
            decreases (if self.registries().contains_key(path@) { self.registries()[path@].workers.len() } else { 0 }),
        {
            let i = match self.find_registry(path) {
                None => {
                    assert(retired@ + Seq::<u128>::empty() =~= retired@);
                    return (None, retired);
                },
                Some(i) => i,
            };
            let ghost rc = self.registries();
            let ghost aw1 = self.active_workers@;
            proof {
                lemma_assoc_index(registry_pairs(aw1), i as int);
                lemma_mark_used_shape(aw1[i as int].registry@, policy);
            }
            let pick = self.active_workers[i].registry.mark_used_and_try_advance(policy);
            proof {
                let ps1 = registry_pairs(aw1);
                let ps2 = registry_pairs(self.active_workers@);
                assert(ps2 =~= ps1.update(i as int, (ps1[i as int].0, self.active_workers@[i as int].registry@)));
                lemma_assoc_update(ps1, i as int, self.active_workers@[i as int].registry@);
                let r = self.registries();
                assert forall|p: Seq<char>| #[trigger] r.contains_key(p) implies r[p].wf() by {}
                assert forall|p: Seq<char>, k: u128|
                    r.contains_key(p) && #[trigger] has_key(r[p].workers, k) implies w0.contains_key(k)
                        && w0[k].service_path == p by {
                    if p == path@ {
                        assert(has_key(rc[p].workers, k));
                    } else {
                        assert(r[p] == rc[p]);
                    }
                }
            }
            match pick {
                None => {
                    assert(retired@ + Seq::<u128>::empty() =~= retired@);
                    return (None, retired);
                },
                Some(k) => {
                    match self.find_worker(k) {
                        None => {
                            assert(retired@ + Seq::<u128>::empty() =~= retired@);
                            return (None, retired);
                        },
                        Some(j) => {
                            proof { lemma_assoc_index(worker_pairs(self.user_workers@), j as int); }
                            if !self.user_workers[j].retired {
                                assert(retired@ + Seq::<u128>::empty() =~= retired@);
                                let ghost uw1 = self.user_workers@;
                                let d = self.user_workers[j].demand;
                                let nd = if d == usize::MAX { 0 } else { d + 1 };
                                self.user_workers[j].demand = nd;
                                proof {
                                    assert(worker_pairs(self.user_workers@) =~= worker_pairs(uw1));
                                    let ds1 = demand_pairs(uw1);
                                    lemma_demand_keys(uw1);
                                    assert(ds1[j as int] == (k, d));
                                    assert(demand_pairs(self.user_workers@) =~= ds1.update(j as int, (k, nd)));
                                    lemma_assoc_index(ds1, j as int);
                                    lemma_assoc_update(ds1, j as int, nd);
                                }
                                return (Some(k), retired);
                            }
                            let ghost rm = self.registries();
                            proof {
                                assert(has_key(rm[path@].workers, k));
                                assert(w0[k].service_path == path@);
                                lemma_remove_shape(rm[path@], k);
                            }
                            let _ = self.retire(k);
                            proof {
                                let res2 = active_lookup(w0, self.registries(), path@, policy);
                                assert(self.registries() == rm.insert(path@, rm[path@].remove(k)));
                                assert(retired@.push(k) + res2.1 =~= retired@ + (seq![k] + res2.1));
                            }
                            retired.push(k);
                        },
                    }
                },
            }
        }
    }

    /// Decides what to do with a request for a worker of service path `path`:
    /// reuse an active worker, or have a new one made. A new worker is forced
    /// when the caller asks for it, unless the pool is under the `oneshot`
    /// policy. When no worker is reused, the path is sure to have a registry.
    pub fn create_user_worker(&mut self, path: &String, force_create_requested: bool) -> (plan: CreatePlan)
        requires
            old(self).wf(),
        ensures
            final(self).wf(),
            final(self).policy == old(self).policy,
            final(self).workers() == old(self).workers(),
            final(self).demands() == (match plan.reuse {
                Some(k) => old(self).demands().insert(k, bumped(old(self).demands()[k])),
                None => old(self).demands(),
            }),
            plan.force_create == (force_create_requested
                && old(self).policy.supervisor_policy != (SupervisorPolicy::PerRequest { oneshot: true })),
            plan.force_create ==> plan.reuse is None && plan.retired@ == Seq::<u128>::empty()
                && final(self).registries() == (if old(self).registries().contains_key(path@) {
                    old(self).registries()
                } else {
                    old(self).registries().insert(path@, RegistryView::empty())
                }),
            !plan.force_create ==> ({
                let res = active_lookup(old(self).workers(), old(self).registries(), path@, old(self).policy.supervisor_policy);
                &&& plan.retired@ == res.1
                &&& plan.reuse == res.2
                &&& final(self).registries() == (if res.2 is Some || res.0.contains_key(path@) {
                    res.0
                } else {
                    res.0.insert(path@, RegistryView::empty())
                })
            }),
    {
        let is_oneshot = self.policy.supervisor_policy.is_oneshot();
        let force_create = force_create_requested && !is_oneshot;
        let (reuse, retired) = self.maybe_active_worker(path, force_create);
        if reuse.is_none() {
            let _ = self.ensure_registry(path);
        }
        CreatePlan { reuse, retired, force_create }
    }

    /// Whether a request can go to worker `key`, and if so whether it must
    /// first wait at the fence of a per-request supervisor. None: the worker
    /// is not available.
    pub fn send_request(&self, key: u128) -> (r: Option<bool>)
        requires
            self.wf(),
        ensures
            r == (if self.workers().contains_key(key) {
                Some(!(self.policy.supervisor_policy is PerWorker))
            } else {
                None::<bool>
            }),
    {
        match self.find_worker(key) {
            Some(_) => Some(!self.policy.supervisor_policy.is_per_worker()),
            None => None,
        }
    }

    /// How many requests have been handed to the worker `key`, which its
    /// supervisor weighs against the requests answered; none when unknown.
    pub fn demand(&self, key: u128) -> (d: Option<usize>)
        requires
            self.wf(),
        ensures
            d == (if self.demands().contains_key(key) { Some(self.demands()[key]) } else { None::<usize> }),
    {
        proof {
            lemma_demand_keys(self.user_workers@);
        }
        match self.find_worker(key) {
            Some(j) => {
                proof {
                    lemma_assoc_index(demand_pairs(self.user_workers@), j as int);
                }
                Some(self.user_workers[j].demand)
            },
            None => None,
        }
    }

    /// Whether the pool has no worker left.
    pub fn is_empty(&self) -> (b: bool)
        requires
            self.wf(),
        ensures
            b == (self.workers().dom() =~= Set::<u128>::empty()),
    {
        if self.user_workers.len() == 0 {
            proof {
                assert(self.workers().dom() =~= Set::<u128>::empty());
            }
            true
        } else {
            proof {
                lemma_assoc_index(worker_pairs(self.user_workers@), 0);
                assert(self.workers().dom().contains(self.user_workers@[0].key));
            }
            false
        }
    }


    /// The pool has been asked to terminate: whether it stops at once (and
    /// says so to whoever waits on it), which it does when no worker is left.
    pub fn on_termination_requested(&self) -> (stop: bool)
        requires
            self.wf(),
        ensures
            stop == (self.workers().dom() =~= Set::<u128>::empty()),
    {
        self.is_empty()
    }

    /// A worker has shut down: whether the pool now stops, which it does
    /// when termination was requested and no worker is left.
    pub fn stop_after_shutdown(&self, termination_requested: bool) -> (stop: bool)
        requires
            self.wf(),
        ensures
            stop == (termination_requested && self.workers().dom() =~= Set::<u128>::empty()),
    {
        termination_requested && self.is_empty()
    }

    fn find_worker(&self, key: u128) -> (r: Option<usize>)
        requires
            self.wf(),
        ensures
            match r {
                Some(i) => i < self.user_workers.len() && self.user_workers@[i as int].key == key
                    && self.workers().contains_key(key),
                None => !self.workers().contains_key(key),
            },
    {
        let mut i: usize = 0;
        while i < self.user_workers.len()
            invariant
                i <= self.user_workers.len(),
                forall|j: int| 0 <= j < i ==> self.user_workers@[j].key != key,
            decreases self.user_workers.len() - i,
        {
            if self.user_workers[i].key == key {
                proof {
                    let ps = worker_pairs(self.user_workers@);
                    assert(ps[i as int].0 == key);
                    assert(in_keys(ps, key));
                }
                return Some(i);
            }
            i = i + 1;
        }
        proof {
            let ps = worker_pairs(self.user_workers@);
            assert(!in_keys(ps, key)) by {
                if in_keys(ps, key) {
                    let j = choose|j: int| 0 <= j < ps.len() && ps[j].0 == key;
                    assert(self.user_workers@[j].key == key);
                }
            }
        }
        None
    }

    fn find_registry(&self, path: &String) -> (r: Option<usize>)
        requires
            self.wf(),
        ensures
            match r {
                Some(i) => i < self.active_workers.len() && self.active_workers@[i as int].service_path@ == path@
                    && self.registries().contains_key(path@),
                None => !self.registries().contains_key(path@),
            },
    {
        let mut i: usize = 0;
        while i < self.active_workers.len()
            invariant
                i <= self.active_workers.len(),
                forall|j: int| 0 <= j < i ==> self.active_workers@[j].service_path@ != path@,
            decreases self.active_workers.len() - i,
        {
            if self.active_workers[i].service_path == *path {
                proof {
                    let ps = registry_pairs(self.active_workers@);
                    assert(ps[i as int].0 == path@);
                    assert(in_keys(ps, path@));
                }
                return Some(i);
            }
            i = i + 1;
        }
        proof {
            let ps = registry_pairs(self.active_workers@);
            assert(!in_keys(ps, path@)) by {
                if in_keys(ps, path@) {
                    let j = choose|j: int| 0 <= j < ps.len() && ps[j].0 == path@;
                    assert(self.active_workers@[j].service_path@ == path@);
                }
            }
        }
        None
    }
}


/// What trying to take a permit of a service path's semaphore gave.
#[derive(Debug, Clone, Copy, PartialEq, Eq, Structural)]
pub enum AcquireResult {
    Acquired,
    NoPermits,
    Closed,
}

/// What a request waiting for a worker of its service path hears.
#[derive(Debug, Clone, Copy, PartialEq, Eq, Structural)]
pub enum FenceEvent {
    /// A worker of the path became idle.
    WorkerIdle,
    /// A worker of the path was retired or shut down; a permit was tried again.
    WorkerGone { acquire: AcquireResult },
    /// The path's notification channel is gone.
    Disconnected,
    /// The request waited longer than the pool's request wait timeout.
    TimedOut,
}

/// Why a waiting request fails.
#[derive(Debug, Clone, Copy, PartialEq, Eq, Structural)]
pub enum FenceError {
    /// "worker channel is no longer valid"
    ChannelInvalid,
    /// "worker did not respond in time"
    NotInTime,
}

/// What becomes of a request that waits at the fence of its service path.
#[derive(Debug, Clone, Copy, PartialEq, Eq, Structural)]
pub enum FenceStep {
    /// Keep waiting.
    Wait,
    /// Create a new worker, holding a permit or (when forced) without one.
    Create { with_permit: bool },
    /// Send the request to the pool again: a worker may be free now.
    Resend,
    /// Answer the request with an error.
    Fail(FenceError),
}

/// The first decision at the fence: a permit at hand creates a worker; with no
/// permit left a forced creation goes ahead without one; otherwise wait.
pub fn fence_start(acquire: AcquireResult, force_create: bool) -> (step: FenceStep)
    ensures
        step == (match acquire {
            AcquireResult::Acquired => FenceStep::Create { with_permit: true },
            AcquireResult::NoPermits => if force_create {
                FenceStep::Create { with_permit: false }
            } else {
                FenceStep::Wait
            },
            AcquireResult::Closed => FenceStep::Wait,
        }),
{
    match acquire {
        AcquireResult::Acquired => FenceStep::Create { with_permit: true },
        AcquireResult::NoPermits => if force_create {
            FenceStep::Create { with_permit: false }
        } else {
            FenceStep::Wait
        },
        AcquireResult::Closed => FenceStep::Wait,
    }
}

/// A later decision at the fence, on what the waiting request hears.
pub fn fence_step(event: FenceEvent) -> (step: FenceStep)
    ensures
        step == (match event {
            FenceEvent::WorkerIdle => FenceStep::Resend,
            FenceEvent::WorkerGone { acquire } => if acquire == AcquireResult::Acquired {
                FenceStep::Create { with_permit: true }
            } else {
                FenceStep::Wait
            },
            FenceEvent::Disconnected => FenceStep::Fail(FenceError::ChannelInvalid),
            FenceEvent::TimedOut => FenceStep::Fail(FenceError::NotInTime),
        }),
{
    match event {
        FenceEvent::WorkerIdle => FenceStep::Resend,
        FenceEvent::WorkerGone { acquire } => match acquire {
            AcquireResult::Acquired => FenceStep::Create { with_permit: true },
            _ => FenceStep::Wait,
        },
        FenceEvent::Disconnected => FenceStep::Fail(FenceError::ChannelInvalid),
        FenceEvent::TimedOut => FenceStep::Fail(FenceError::NotInTime),
    }
}

} // verus!
