use vstd::prelude::*;
use std::collections::HashMap;
use dashmap::DashMap;
use crate::config::RegistryConfig;
use crate::pool::{ConnectionPool, ManagedConnection, holds_pid};
use crate::retry::{FontCommandRun, KittyConnectionStatus, RunPhase};

verus! {

broadcast use vstd::std_specs::hash::group_hash_axioms;

#[verifier::external_type_specification]
#[verifier::external_body]
#[verifier::reject_recursive_types(K)]
#[verifier::reject_recursive_types(V)]
#[verifier::reject_recursive_types(S)]
pub struct ExDashMap<K, V, S>(dashmap::DashMap<K, V, S>);

/// Maps a shell process to its terminal process.
pub type PidCache = DashMap<i32, i32>;

/// What a pid cache maps.
pub uninterp spec fn pid_cache_contents(m: PidCache) -> Map<i32, i32>;

/// Relies on `DashMap::new`: a new map holds nothing.
#[verifier::external_body]
fn new_pid_cache() -> (r: PidCache)
    ensures
        pid_cache_contents(r) =~= Map::empty(),
{
    DashMap::new()
}

/// Relies on `DashMap::get`: the value stored under the key, if any.
#[verifier::external_body]
fn pid_cache_get(m: &PidCache, key: i32) -> (r: Option<i32>)
    ensures
        pid_cache_contents(*m).contains_key(key) ==> r == Some(pid_cache_contents(*m)[key]),
        !pid_cache_contents(*m).contains_key(key) ==> r is None,
{
    m.get(&key).map(|v| *v)
}

/// Relies on `DashMap::insert`: the key maps to the value afterwards, and
/// nothing else changes.
#[verifier::external_body]
fn pid_cache_insert(m: &mut PidCache, key: i32, value: i32)
    ensures
        pid_cache_contents(*final(m)) == pid_cache_contents(*old(m)).insert(key, value),
{
    m.insert(key, value);
}

/// The connection registry: the session pool, the status of each process,
/// and the cache that maps a shell process to its terminal process. It
/// decides; the caller does the I/O that the decisions call for and
/// reports back.
pub struct KittyRegistry<S> {
    connections: ConnectionPool<S>,
    statuses: HashMap<i32, KittyConnectionStatus>,
    pid_cache: PidCache,
    config: RegistryConfig,
}

/// `m` without a status other than ready for `pid`: a process that has
/// just been given a session is no longer failed.
pub open spec fn without_stale(m: Map<i32, KittyConnectionStatus>, pid: i32) -> Map<i32, KittyConnectionStatus> {
    if m.contains_key(pid) && m[pid] != KittyConnectionStatus::Ready {
        m.remove(pid)
    } else {
        m
    }
}

/// `m` without the keys of the given entries.
pub open spec fn without_pids<S>(m: Map<i32, KittyConnectionStatus>, gone: Seq<ManagedConnection<S>>) -> Map<
    i32,
    KittyConnectionStatus,
> {
    m.remove_keys(gone.map_values(|e: ManagedConnection<S>| e.pid).to_set())
}

impl<S> KittyRegistry<S> {
    pub closed spec fn pool(&self) -> ConnectionPool<S> {
        self.connections
    }

    pub closed spec fn statuses_spec(&self) -> Map<i32, KittyConnectionStatus> {
        self.statuses@
    }

    pub closed spec fn pid_cache_spec(&self) -> Map<i32, i32> {
        pid_cache_contents(self.pid_cache)
    }

    pub closed spec fn config_spec(&self) -> RegistryConfig {
        self.config
    }

    /// The pool is well formed and sized by the settings, and no process
    /// whose status is other than ready holds a pooled session.
    pub open spec fn well_formed(&self) -> bool {
        &&& self.pool().well_formed()
        &&& self.pool().max_spec() == self.config_spec().max_connections
        &&& forall|p: i32|
            #![trigger self.statuses_spec().contains_key(p)]
            self.statuses_spec().contains_key(p) && self.statuses_spec()[p] != KittyConnectionStatus::Ready
                ==> !holds_pid(self.pool()@, p)
    }

    pub fn new(config: RegistryConfig) -> (r: Self)
        requires
            config.max_connections >= 1,
        ensures
            r.well_formed(),
            r.config_spec() == config,
            r.pool()@ == Seq::<ManagedConnection<S>>::empty(),
            r.statuses_spec() == Map::<i32, KittyConnectionStatus>::empty(),
            r.pid_cache_spec() == Map::<i32, i32>::empty(),
    {
        KittyRegistry {
            connections: ConnectionPool::new(config.max_connections),
            statuses: HashMap::new(),
            pid_cache: new_pid_cache(),
            config,
        }
    }

    pub fn with_defaults() -> (r: Self)
        ensures
            r.well_formed(),
            r.config_spec().max_connections == 30,
            r.config_spec().max_retries == 3,
            r.pool()@ == Seq::<ManagedConnection<S>>::empty(),
            r.statuses_spec() == Map::<i32, KittyConnectionStatus>::empty(),
    {
        Self::new(RegistryConfig::default())
    }

    pub fn config(&self) -> (r: &RegistryConfig)
        ensures
            *r == self.config_spec(),
    {
        &self.config
    }

    pub fn verbose(&self) -> (r: bool)
        ensures
            r == self.config_spec().verbose,
    {
        self.config.verbose
    }

    pub fn connection_count(&self) -> (r: usize)
        ensures
            r == self.pool()@.len(),
    {
        self.connections.len()
    }

    pub fn connected_pids(&self) -> (r: Vec<i32>)
        ensures
            r@ == self.pool()@.map_values(|e: ManagedConnection<S>| e.pid),
    {
        self.connections.pids()
    }

    pub fn get_status(&self, pid: i32) -> (r: Option<KittyConnectionStatus>)
        ensures
            self.statuses_spec().contains_key(pid) ==> r == Some(self.statuses_spec()[pid]),
            !self.statuses_spec().contains_key(pid) ==> r is None,
    {
        match self.statuses.get(&pid) {
            Some(s) => Some(*s),
            None => None,
        }
    }

    /// Records the status of `pid`. A status other than ready means the
    /// process has no usable session: its pooled session, if any, is
    /// removed and returned to be closed.
    pub fn set_status(&mut self, pid: i32, status: KittyConnectionStatus) -> (r: Option<ManagedConnection<S>>)
        requires
            old(self).well_formed(),
        ensures
            final(self).well_formed(),
            final(self).statuses_spec() == old(self).statuses_spec().insert(pid, status),
            final(self).config_spec() == old(self).config_spec(),
            final(self).pid_cache_spec() == old(self).pid_cache_spec(),
            final(self).pool().max_spec() == old(self).pool().max_spec(),
            status == KittyConnectionStatus::Ready ==> r is None && final(self).pool()@ == old(self).pool()@,
            status != KittyConnectionStatus::Ready ==> !holds_pid(final(self).pool()@, pid) && (r is Some
                <==> holds_pid(old(self).pool()@, pid)) && (forall|p: i32|
                holds_pid(final(self).pool()@, p) <==> (holds_pid(old(self).pool()@, p) && p != pid)),
            r matches Some(e) ==> e.pid == pid && exists|i: int|
                0 <= i < old(self).pool()@.len() && old(self).pool()@[i] == e && final(self).pool()@
                    == old(self).pool()@.remove(i),
    {
        let removed = match status {
            KittyConnectionStatus::Ready => None,
            _ => self.connections.remove(pid),
        };
        self.statuses.insert(pid, status);
        removed
    }

    fn forget_statuses(&mut self, gone: &Vec<ManagedConnection<S>>)
        ensures
            final(self).statuses_spec() == without_pids(old(self).statuses_spec(), gone@),
            final(self).pool() == old(self).pool(),
            final(self).config_spec() == old(self).config_spec(),
            final(self).pid_cache_spec() == old(self).pid_cache_spec(),
    {
        let mut i: usize = 0;
        while i < gone.len()
            invariant
                i <= gone@.len(),
                self.statuses@ == without_pids(old(self).statuses_spec(), gone@.take(i as int)),
                self.connections == old(self).pool(),
                self.config == old(self).config_spec(),
                pid_cache_contents(self.pid_cache) == old(self).pid_cache_spec(),
            decreases gone@.len() - i,
        {
            let pid = gone[i].pid;
            self.statuses.remove(&pid);
            proof {
                let before = gone@.take(i as int).map_values(|e: ManagedConnection<S>| e.pid);
                let after = gone@.take(i as int + 1).map_values(|e: ManagedConnection<S>| e.pid);
                assert(after =~= before.push(pid));
                assert(after.to_set() =~= before.to_set().insert(pid)) by {
                    before.lemma_push_to_set_commute(pid);
                }
                assert(without_pids(old(self).statuses_spec(), gone@.take(i as int + 1))
                    =~= without_pids(old(self).statuses_spec(), gone@.take(i as int)).remove(pid));
            }
            i = i + 1;
        }
        assert(gone@.take(i as int) =~= gone@);
    }

    /// The terminal process cached for a shell process.
    pub fn cached_master_pid(&self, origin_pid: i32) -> (r: Option<i32>)
        ensures
            self.pid_cache_spec().contains_key(origin_pid) ==> r == Some(self.pid_cache_spec()[origin_pid]),
            !self.pid_cache_spec().contains_key(origin_pid) ==> r is None,
    {
        pid_cache_get(&self.pid_cache, origin_pid)
    }

    /// Records the terminal process found for a shell process.
    pub fn remember_master_pid(&mut self, origin_pid: i32, kitty_pid: i32)
        ensures
            final(self).pid_cache_spec() == old(self).pid_cache_spec().insert(origin_pid, kitty_pid),
            final(self).pool() == old(self).pool(),
            final(self).statuses_spec() == old(self).statuses_spec(),
            final(self).config_spec() == old(self).config_spec(),
    {
        pid_cache_insert(&mut self.pid_cache, origin_pid, kitty_pid);
    }

    /// The pooled session for `pid`, marked as used at `now`.
    pub fn reuse_session(&mut self, pid: i32, now: u64) -> (r: Option<&S>)
        requires
            old(self).well_formed(),
        ensures
            final(self).well_formed(),
            final(self).pool()@ == crate::pool::refreshed(old(self).pool()@, pid, now),
            final(self).pool().max_spec() == old(self).pool().max_spec(),
            final(self).statuses_spec() == old(self).statuses_spec(),
            final(self).config_spec() == old(self).config_spec(),
            final(self).pid_cache_spec() == old(self).pid_cache_spec(),
            r is Some <==> holds_pid(old(self).pool()@, pid),
            r matches Some(s) ==> exists|i: int|
                0 <= i < old(self).pool()@.len() && old(self).pool()@[i].pid == pid
                    && old(self).pool()@[i].session == *s,
    {
        let ghost before = self.connections@;
        if self.connections.touch(pid, now) {
            proof {
                let i = choose|i: int| 0 <= i < before.len() && before[i].pid == pid;
                assert(self.connections@[i].pid == pid);
                assert(forall|j: int| 0 <= j < before.len() ==> self.connections@[j].session == before[j].session
                    && self.connections@[j].pid == before[j].pid);
            }
            self.connections.session(pid)
        } else {
            None
        }
    }

    /// Before a new session is opened: at the limit, the session used least
    /// recently is evicted and its status dropped. The evicted entry is
    /// returned to be closed.
    pub fn make_room(&mut self) -> (r: Option<ManagedConnection<S>>)
        requires
            old(self).well_formed(),
        ensures
            final(self).well_formed(),
            final(self).config_spec() == old(self).config_spec(),
            final(self).pid_cache_spec() == old(self).pid_cache_spec(),
            final(self).pool()@.len() < final(self).config_spec().max_connections,
            old(self).pool()@.len() < old(self).config_spec().max_connections ==> r is None
                && final(self).pool()@ == old(self).pool()@ && final(self).statuses_spec()
                == old(self).statuses_spec(),
            old(self).pool()@.len() >= old(self).config_spec().max_connections ==> match r {
                Some(e) => (exists|i: int|
                    crate::pool::is_oldest(old(self).pool()@, i) && e == old(self).pool()@[i]
                        && final(self).pool()@ == old(self).pool()@.remove(i))
                    && final(self).statuses_spec() == old(self).statuses_spec().remove(e.pid),
                None => old(self).pool()@.len() == 0 && final(self).pool()@ == old(self).pool()@
                    && final(self).statuses_spec() == old(self).statuses_spec(),
            },
    {
        let evicted = self.connections.make_room();
        if let Some(e) = &evicted {
            self.statuses.remove(&e.pid);
        }
        evicted
    }

    /// Stores a session just opened for `pid`, used at `now`, evicting the
    /// oldest first if the limit was reached meanwhile. An evicted entry has
    /// its status dropped; the displaced entry is returned to be closed.
    pub fn add_session(&mut self, pid: i32, session: S, now: u64) -> (r: Option<ManagedConnection<S>>)
        requires
            old(self).well_formed(),
        ensures
            final(self).well_formed(),
            final(self).config_spec() == old(self).config_spec(),
            final(self).pid_cache_spec() == old(self).pid_cache_spec(),
            holds_pid(final(self).pool()@, pid),
            holds_pid(old(self).pool()@, pid) ==> exists|i: int|
                0 <= i < old(self).pool()@.len() && old(self).pool()@[i].pid == pid && r == Some(
                    old(self).pool()@[i],
                ) && final(self).pool()@ == old(self).pool()@.update(
                    i,
                    ManagedConnection { pid, session, last_used: now },
                ),
            final(self).statuses_spec() == without_stale(
                match r {
                    Some(e) => if e.pid != pid {
                        old(self).statuses_spec().remove(e.pid)
                    } else {
                        old(self).statuses_spec()
                    },
                    None => old(self).statuses_spec(),
                },
                pid,
            ),
            !holds_pid(old(self).pool()@, pid) && old(self).pool()@.len() < old(self).config_spec().max_connections
                ==> r is None && final(self).pool()@ == old(self).pool()@.push(
                ManagedConnection { pid, session, last_used: now },
            ),
            !holds_pid(old(self).pool()@, pid) && old(self).pool()@.len() >= old(self).config_spec().max_connections
                && old(self).pool()@.len() > 0 ==> (r matches Some(e) && exists|i: int|
                crate::pool::is_oldest(old(self).pool()@, i) && e == old(self).pool()@[i]
                    && final(self).pool()@ == old(self).pool()@.remove(i).push(
                    ManagedConnection { pid, session, last_used: now },
                )),
    {
        let ghost before = self.connections@;
        let displaced = self.connections.insert(pid, session, now);
        proof {
            let after = self.connections@;
            if holds_pid(before, pid) {
                let i = choose|i: int|
                    0 <= i < before.len() && before[i].pid == pid && displaced == Some(before[i])
                        && after == before.update(i, ManagedConnection { pid, session, last_used: now });
                assert(after[i].pid == pid);
            } else if before.len() < self.config.max_connections {
                assert(after[after.len() - 1].pid == pid);
            } else {
                assert(after[after.len() - 1].pid == pid);
            }
        }
        if let Some(e) = &displaced {
            if e.pid != pid {
                self.statuses.remove(&e.pid);
            }
        }
        let stale = match self.statuses.get(&pid) {
            Some(st) => match st {
                KittyConnectionStatus::Ready => false,
                _ => true,
            },
            None => false,
        };
        if stale {
            self.statuses.remove(&pid);
        }
        displaced
    }

    /// Marks the session for `pid` as used at `now`.
    pub fn update_last_used(&mut self, pid: i32, now: u64)
        requires
            old(self).well_formed(),
        ensures
            final(self).well_formed(),
            final(self).pool()@ == crate::pool::refreshed(old(self).pool()@, pid, now),
            final(self).statuses_spec() == old(self).statuses_spec(),
            final(self).config_spec() == old(self).config_spec(),
            final(self).pid_cache_spec() == old(self).pid_cache_spec(),
    {
        self.connections.touch(pid, now);
    }

    /// Records what a finished run came to. On success the session is
    /// marked as used at `now`. The run's status is stored for the shell
    /// process; a status other than ready also removes the sessions of the
    /// shell and the terminal process, which are returned to be closed.
    pub fn record_outcome(&mut self, run: &FontCommandRun, now: u64) -> (r: Vec<ManagedConnection<S>>)
        requires
            old(self).well_formed(),
            run.well_formed(),
            run.phase_spec() == RunPhase::Finished,
        ensures
            final(self).well_formed(),
            final(self).config_spec() == old(self).config_spec(),
            final(self).pid_cache_spec() == old(self).pid_cache_spec(),
            run.status_spec() == Some(KittyConnectionStatus::Ready) ==> final(self).pool()@
                == crate::pool::refreshed(old(self).pool()@, run.kitty_pid_spec(), now) && r@.len() == 0,
            run.status_spec() matches Some(s) && s != KittyConnectionStatus::Ready ==> !holds_pid(
                final(self).pool()@,
                run.kitty_pid_spec(),
            ) && !holds_pid(final(self).pool()@, run.origin_pid_spec()) && (forall|p: i32|
                holds_pid(final(self).pool()@, p) <==> (holds_pid(old(self).pool()@, p) && p
                    != run.kitty_pid_spec() && p != run.origin_pid_spec())),
            run.status_spec() is None ==> final(self).pool()@ == old(self).pool()@ && r@.len() == 0,
            run.status_spec() matches Some(s) ==> final(self).statuses_spec() == old(self).statuses_spec().insert(
                run.origin_pid_spec(),
                s,
            ),
            run.status_spec() is None ==> final(self).statuses_spec() == old(self).statuses_spec(),
    {
        let mut closed: Vec<ManagedConnection<S>> = Vec::new();
        match run.status() {
            Some(KittyConnectionStatus::Ready) => {
                self.connections.touch(run.kitty_pid(), now);
                self.set_status(run.origin_pid(), KittyConnectionStatus::Ready);
            },
            Some(s) => {
                if let Some(e) = self.set_status(run.origin_pid(), s) {
                    closed.push(e);
                }
                let ghost mid = self.connections@;
                if let Some(e) = self.connections.remove(run.kitty_pid()) {
                    closed.push(e);
                }
                proof {
                    assert forall|p: i32| self.statuses_spec().contains_key(p) && self.statuses_spec()[p]
                        != KittyConnectionStatus::Ready implies !holds_pid(self.pool()@, p) by {
                        assert(!holds_pid(mid, p) ==> !holds_pid(self.connections@, p));
                    }
                }
            },
            None => {},
        }
        closed
    }

    /// One sweep of the reaper: removes the sessions whose process is listed
    /// in `dead` or that have been idle at `now` for longer than the idle
    /// timeout, with their statuses. The removed entries are returned to be
    /// closed.
    pub fn reap(&mut self, now: u64, dead: &Vec<i32>) -> (r: Vec<ManagedConnection<S>>)
        requires
            old(self).well_formed(),
        ensures
            final(self).well_formed(),
            final(self).config_spec() == old(self).config_spec(),
            final(self).pid_cache_spec() == old(self).pid_cache_spec(),
            final(self).pool()@ == old(self).pool()@.filter(
                crate::pool::kept_pred(now, Some(old(self).config_spec().idle_timeout_ms), dead@),
            ),
            r@ == old(self).pool()@.filter(
                crate::pool::reaped_pred(now, Some(old(self).config_spec().idle_timeout_ms), dead@),
            ),
            final(self).statuses_spec() == without_pids(old(self).statuses_spec(), r@),
    {
        let removed = self.connections.reap(now, Some(self.config.idle_timeout_ms), dead);
        self.forget_statuses(&removed);
        removed
    }

    /// Removes the sessions whose process is listed in `dead`, with their
    /// statuses, and returns them to be closed.
    pub fn cleanup_dead_connections(&mut self, dead: &Vec<i32>) -> (r: Vec<ManagedConnection<S>>)
        requires
            old(self).well_formed(),
        ensures
            final(self).well_formed(),
            final(self).config_spec() == old(self).config_spec(),
            final(self).pid_cache_spec() == old(self).pid_cache_spec(),
            final(self).pool()@ == old(self).pool()@.filter(crate::pool::kept_pred(0, None, dead@)),
            r@ == old(self).pool()@.filter(crate::pool::reaped_pred(0, None, dead@)),
            final(self).statuses_spec() == without_pids(old(self).statuses_spec(), r@),
    {
        let removed = self.connections.reap(0, None, dead);
        self.forget_statuses(&removed);
        removed
    }

    /// Removes every session and every status; the sessions are returned to
    /// be closed.
    pub fn shutdown(&mut self) -> (r: Vec<ManagedConnection<S>>)
        requires
            old(self).well_formed(),
        ensures
            final(self).well_formed(),
            r@ == old(self).pool()@,
            final(self).pool()@ == Seq::<ManagedConnection<S>>::empty(),
            final(self).statuses_spec() == Map::<i32, KittyConnectionStatus>::empty(),
            final(self).config_spec() == old(self).config_spec(),
            final(self).pid_cache_spec() == old(self).pid_cache_spec(),
    {
        let all = self.connections.drain_all();
        self.statuses.clear();
        all
    }
}

} // verus!
