use vstd::prelude::*;

verus! {

/// A live session to one terminal process, with the time it was last used
/// (milliseconds on the caller's clock).
pub struct ManagedConnection<S> {
    pub pid: i32,
    pub session: S,
    pub last_used: u64,
}

pub open spec fn holds_pid<S>(s: Seq<ManagedConnection<S>>, pid: i32) -> bool {
    exists|i: int| 0 <= i < s.len() && s[i].pid == pid
}

pub open spec fn pids_unique<S>(s: Seq<ManagedConnection<S>>) -> bool {
    forall|i: int, j: int| 0 <= i < s.len() && 0 <= j < s.len() && i != j ==> s[i].pid != s[j].pid
}

/// Entry `i` was used no later than any other entry.
pub open spec fn is_oldest<S>(s: Seq<ManagedConnection<S>>, i: int) -> bool {
    &&& 0 <= i < s.len()
    &&& forall|j: int| 0 <= j < s.len() ==> s[i].last_used <= s[j].last_used
}

/// Idle means strictly more than `idle_timeout` has passed since the last use.
pub open spec fn is_idle<S>(e: ManagedConnection<S>, now: u64, idle_timeout: u64) -> bool {
    now as int - e.last_used as int > idle_timeout as int
}

/// An entry is reaped when its process is dead, or, where an idle timeout is
/// given, when it has been idle for longer than that.
pub open spec fn is_reaped<S>(
    e: ManagedConnection<S>,
    now: u64,
    idle_timeout: Option<u64>,
    dead: Seq<i32>,
) -> bool {
    dead.contains(e.pid) || match idle_timeout {
        Some(t) => is_idle(e, now, t),
        None => false,
    }
}

pub open spec fn reaped_pred<S>(now: u64, idle_timeout: Option<u64>, dead: Seq<i32>) -> spec_fn(
    ManagedConnection<S>,
) -> bool {
    |e: ManagedConnection<S>| is_reaped(e, now, idle_timeout, dead)
}

pub open spec fn kept_pred<S>(now: u64, idle_timeout: Option<u64>, dead: Seq<i32>) -> spec_fn(
    ManagedConnection<S>,
) -> bool {
    |e: ManagedConnection<S>| !is_reaped(e, now, idle_timeout, dead)
}

/// `s` with the entry for `pid`, if any, marked as used at `now`.
pub open spec fn refreshed<S>(s: Seq<ManagedConnection<S>>, pid: i32, now: u64) -> Seq<
    ManagedConnection<S>,
> {
    s.map_values(
        |e: ManagedConnection<S>|
            if e.pid == pid {
                ManagedConnection { pid: e.pid, session: e.session, last_used: now }
            } else {
                e
            },
    )
}

/// A bounded pool of sessions keyed by process id. When full, the session
/// used least recently makes room for a new one.
pub struct ConnectionPool<S> {
    entries: Vec<ManagedConnection<S>>,
    max_connections: usize,
}

impl<S> View for ConnectionPool<S> {
    type V = Seq<ManagedConnection<S>>;

    closed spec fn view(&self) -> Seq<ManagedConnection<S>> {
        self.entries@
    }
}

impl<S> ConnectionPool<S> {
    pub closed spec fn max_spec(&self) -> usize {
        self.max_connections
    }

    pub open spec fn well_formed(&self) -> bool {
        &&& pids_unique(self@)
        &&& self.max_spec() >= 1
        &&& self@.len() <= self.max_spec()
    }

    pub fn new(max_connections: usize) -> (r: Self)
        requires
            max_connections >= 1,
        ensures
            r@ == Seq::<ManagedConnection<S>>::empty(),
            r.max_spec() == max_connections,
            r.well_formed(),
    {
        ConnectionPool { entries: Vec::new(), max_connections }
    }

    pub fn len(&self) -> (r: usize)
        ensures
            r == self@.len(),
    {
        self.entries.len()
    }

    pub fn max_connections(&self) -> (r: usize)
        ensures
            r == self.max_spec(),
    {
        self.max_connections
    }

    fn index_of(&self, pid: i32) -> (r: Option<usize>)
        ensures
            match r {
                Some(i) => i < self@.len() && self@[i as int].pid == pid,
                None => !holds_pid(self@, pid),
            },
    {
        let mut i: usize = 0;
        while i < self.entries.len()
            invariant
                i <= self.entries@.len(),
                forall|j: int| 0 <= j < i ==> self.entries@[j].pid != pid,
            decreases self.entries@.len() - i,
        {
            if self.entries[i].pid == pid {
                return Some(i);
            }
            i = i + 1;
        }
        None
    }

    pub fn contains(&self, pid: i32) -> (r: bool)
        ensures
            r == holds_pid(self@, pid),
    {
        self.index_of(pid).is_some()
    }

    /// The session for `pid`, if the pool holds one.
    pub fn session(&self, pid: i32) -> (r: Option<&S>)
        ensures
            match r {
                Some(s) => exists|i: int|
                    0 <= i < self@.len() && self@[i].pid == pid && self@[i].session == *s,
                None => !holds_pid(self@, pid),
            },
    {
        match self.index_of(pid) {
            Some(i) => Some(&self.entries[i].session),
            None => None,
        }
    }

    /// Marks the session for `pid` as used at `now`; tells whether there was one.
    pub fn touch(&mut self, pid: i32, now: u64) -> (r: bool)
        requires
            old(self).well_formed(),
        ensures
            r == holds_pid(old(self)@, pid),
            final(self)@ == refreshed(old(self)@, pid, now),
            forall|p: i32| holds_pid(final(self)@, p) <==> holds_pid(old(self)@, p),
            final(self).max_spec() == old(self).max_spec(),
            final(self).well_formed(),
    {
        match self.index_of(pid) {
            Some(i) => {
                let ghost before = self.entries@;
                let e = self.entries.remove(i);
                let fresh = ManagedConnection { pid: e.pid, session: e.session, last_used: now };
                self.entries.insert(i, fresh);
                assert(self.entries@ =~= refreshed(before, pid, now));
                proof {
                    lemma_refreshed_holds(before, pid, now);
                }
                true
            },
            None => {
                assert(self.entries@ =~= refreshed(self.entries@, pid, now));
                proof {
                    lemma_refreshed_holds(self.entries@, pid, now);
                }
                false
            },
        }
    }

    /// The position of an entry used no later than any other.
    fn oldest_index(&self) -> (r: usize)
        requires
            self@.len() > 0,
        ensures
            is_oldest(self@, r as int),
    {
        let mut best: usize = 0;
        let mut i: usize = 1;
        while i < self.entries.len()
            invariant
                0 < i <= self.entries@.len(),
                best < i,
                forall|j: int| 0 <= j < i ==> self.entries@[best as int].last_used <= self.entries@[j].last_used,
            decreases self.entries@.len() - i,
        {
            if self.entries[i].last_used < self.entries[best].last_used {
                best = i;
            }
            i = i + 1;
        }
        best
    }

    /// Removes and returns an entry used no later than any other.
    pub fn evict_oldest(&mut self) -> (r: Option<ManagedConnection<S>>)
        requires
            old(self).well_formed(),
        ensures
            forall|p: i32| holds_pid(final(self)@, p) ==> holds_pid(old(self)@, p),
            final(self).max_spec() == old(self).max_spec(),
            final(self).well_formed(),
            match r {
                Some(e) => exists|i: int|
                    is_oldest(old(self)@, i) && e == old(self)@[i] && final(self)@ == old(self)@.remove(i),
                None => old(self)@.len() == 0 && final(self)@ == old(self)@,
            },
    {
        if self.entries.len() == 0 {
            return None;
        }
        let i = self.oldest_index();
        let ghost before = self.entries@;
        let e = self.entries.remove(i);
        assert forall|a: int, b: int|
            0 <= a < self.entries@.len() && 0 <= b < self.entries@.len() && a != b implies
            self.entries@[a].pid != self.entries@[b].pid by {
            let a0 = if a < i { a } else { a + 1 };
            let b0 = if b < i { b } else { b + 1 };
            assert(self.entries@[a] == before[a0]);
            assert(self.entries@[b] == before[b0]);
        }
        proof {
            lemma_remove_holds(before, i as int);
        }
        Some(e)
    }

    /// Removes and returns the session for `pid`, if the pool holds one.
    pub fn remove(&mut self, pid: i32) -> (r: Option<ManagedConnection<S>>)
        requires
            old(self).well_formed(),
        ensures
            final(self).max_spec() == old(self).max_spec(),
            final(self).well_formed(),
            !holds_pid(final(self)@, pid),
            forall|p: i32| holds_pid(final(self)@, p) <==> (holds_pid(old(self)@, p) && p != pid),
            r is Some <==> holds_pid(old(self)@, pid),
            r matches Some(e) ==> e.pid == pid && exists|i: int|
                0 <= i < old(self)@.len() && old(self)@[i] == e && final(self)@ == old(self)@.remove(i),
            r is None ==> final(self)@ == old(self)@,
    {
        match self.index_of(pid) {
            None => None,
            Some(i) => {
                let ghost before = self.entries@;
                let e = self.entries.remove(i);
                proof {
                    let after = self.entries@;
                    assert forall|k: int| 0 <= k < after.len() implies after[k] == before[if k < i { k } else { k + 1 }] by {}
                    assert forall|a: int, b: int|
                        0 <= a < after.len() && 0 <= b < after.len() && a != b implies after[a].pid != after[b].pid by {
                        let a0 = if a < i { a } else { a + 1 };
                        let b0 = if b < i { b } else { b + 1 };
                        assert(after[a] == before[a0]);
                        assert(after[b] == before[b0]);
                    }
                    assert forall|p: i32| holds_pid(after, p) <==> (holds_pid(before, p) && p != pid) by {
                        if holds_pid(after, p) {
                            let k = choose|k: int| 0 <= k < after.len() && after[k].pid == p;
                            let k0 = if k < i { k } else { k + 1 };
                            assert(before[k0].pid == p);
                            assert(k0 != i);
                        }
                        if holds_pid(before, p) && p != pid {
                            let k = choose|k: int| 0 <= k < before.len() && before[k].pid == p;
                            assert(k != i);
                            let k1 = if k < i { k } else { k - 1 };
                            assert(after[k1].pid == p);
                        }
                    }
                }
                Some(e)
            },
        }
    }

    /// Evicts the oldest entry when the pool is at its limit, so that one more
    /// session fits.
    pub fn make_room(&mut self) -> (r: Option<ManagedConnection<S>>)
        requires
            old(self).well_formed(),
        ensures
            final(self).max_spec() == old(self).max_spec(),
            final(self).well_formed(),
            final(self)@.len() < final(self).max_spec(),
            forall|p: i32| holds_pid(final(self)@, p) ==> holds_pid(old(self)@, p),
            old(self)@.len() < old(self).max_spec() ==> r is None && final(self)@ == old(self)@,
            old(self)@.len() >= old(self).max_spec() ==> match r {
                Some(e) => exists|i: int|
                    is_oldest(old(self)@, i) && e == old(self)@[i] && final(self)@ == old(self)@.remove(i),
                None => old(self)@.len() == 0 && final(self)@ == old(self)@,
            },
    {
        if self.entries.len() >= self.max_connections {
            self.evict_oldest()
        } else {
            None
        }
    }

    /// Stores a new session for `pid`, used at `now`. A session already held
    /// for `pid` is replaced; otherwise, at the limit, the oldest entry is
    /// evicted first. The displaced entry, if any, is returned to be closed.
    pub fn insert(&mut self, pid: i32, session: S, now: u64) -> (r: Option<ManagedConnection<S>>)
        requires
            old(self).well_formed(),
        ensures
            holds_pid(final(self)@, pid),
            forall|p: i32| holds_pid(final(self)@, p) ==> holds_pid(old(self)@, p) || p == pid,
            final(self).max_spec() == old(self).max_spec(),
            final(self).well_formed(),
            holds_pid(old(self)@, pid) ==> exists|i: int|
                0 <= i < old(self)@.len() && old(self)@[i].pid == pid && r == Some(old(self)@[i])
                    && final(self)@ == old(self)@.update(
                    i,
                    ManagedConnection { pid, session, last_used: now },
                ),
            !holds_pid(old(self)@, pid) && old(self)@.len() < old(self).max_spec() ==> r is None
                && final(self)@ == old(self)@.push(ManagedConnection { pid, session, last_used: now }),
            !holds_pid(old(self)@, pid) && old(self)@.len() >= old(self).max_spec() ==> match r {
                Some(e) => exists|i: int|
                    is_oldest(old(self)@, i) && e == old(self)@[i] && final(self)@ == old(self)@.remove(
                        i,
                    ).push(ManagedConnection { pid, session, last_used: now }),
                None => old(self)@.len() == 0 && final(self)@ == seq![
                    ManagedConnection { pid, session, last_used: now },
                ],
            },
    {
        let fresh = ManagedConnection { pid, session, last_used: now };
        match self.index_of(pid) {
            Some(i) => {
                let ghost before = self.entries@;
                let old_entry = self.entries.remove(i);
                self.entries.insert(i, fresh);
                assert(self.entries@ =~= before.update(i as int, ManagedConnection { pid, session, last_used: now }));
                proof {
                    lemma_update_holds(before, i as int, ManagedConnection { pid, session, last_used: now });
                    assert(self.entries@[i as int].pid == pid);
                }
                Some(old_entry)
            },
            None => {
                let ghost before = self.entries@;
                let evicted = self.make_room();
                let ghost mid = self.entries@;
                assert forall|k: int| 0 <= k < mid.len() implies mid[k].pid != pid by {
                    if evicted is Some {
                        let i = choose|i: int|
                            is_oldest(before, i) && evicted == Some(before[i]) && mid == before.remove(i);
                        let k0 = if k < i { k } else { k + 1 };
                        assert(mid[k] == before[k0]);
                    }
                }
                self.entries.push(fresh);
                proof {
                    lemma_push_holds(mid, ManagedConnection { pid, session, last_used: now });
                }
                evicted
            },
        }
    }

    /// Removes every entry whose process is listed in `dead`, or that has been
    /// idle at `now` for longer than `idle_timeout` where one is given. The
    /// kept and the removed entries stay in their order.
    pub fn reap(&mut self, now: u64, idle_timeout: Option<u64>, dead: &Vec<i32>) -> (r: Vec<
        ManagedConnection<S>,
    >)
        requires
            old(self).well_formed(),
        ensures
            final(self).max_spec() == old(self).max_spec(),
            final(self).well_formed(),
            final(self)@ == old(self)@.filter(kept_pred(now, idle_timeout, dead@)),
            forall|p: i32| holds_pid(final(self)@, p) ==> holds_pid(old(self)@, p),
            r@ == old(self)@.filter(reaped_pred(now, idle_timeout, dead@)),
    {
        let ghost orig = self.entries@;
        let mut rest: Vec<ManagedConnection<S>> = Vec::new();
        std::mem::swap(&mut self.entries, &mut rest);
        let mut removed: Vec<ManagedConnection<S>> = Vec::new();
        let n = rest.len();
        let mut i: usize = 0;
        while i < n
            invariant
                n == orig.len(),
                i <= n,
                rest@ == orig.subrange(i as int, n as int),
                self.entries@ == orig.take(i as int).filter(kept_pred(now, idle_timeout, dead@)),
                removed@ == orig.take(i as int).filter(reaped_pred(now, idle_timeout, dead@)),
                self.max_connections == old(self).max_connections,
            decreases n - i,
        {
            let e = rest.remove(0);
            proof {
                reveal(Seq::filter);
            }
            assert(orig.take(i as int + 1).drop_last() =~= orig.take(i as int));
            assert(orig.take(i as int + 1).last() == orig[i as int]);
            if self.is_reaped_exec(&e, now, idle_timeout, dead) {
                removed.push(e);
            } else {
                self.entries.push(e);
            }
            assert(rest@ =~= orig.subrange(i as int + 1, n as int));
            i = i + 1;
        }
        assert(orig.take(n as int) =~= orig);
        proof {
            let p = kept_pred::<S>(now, idle_timeout, dead@);
            lemma_filter_holds(orig, p);
            orig.lemma_filter_len(p);
            assert forall|a: int, b: int|
                0 <= a < self.entries@.len() && 0 <= b < self.entries@.len() && a != b implies
                self.entries@[a].pid != self.entries@[b].pid by {
                lemma_filter_keeps_unique(orig, p);
            }
        }
        removed
    }

    fn is_reaped_exec(&self, e: &ManagedConnection<S>, now: u64, idle_timeout: Option<u64>, dead: &Vec<i32>) -> (r: bool)
        ensures
            r == is_reaped(*e, now, idle_timeout, dead@),
    {
        let mut j: usize = 0;
        while j < dead.len()
            invariant
                j <= dead@.len(),
                forall|k: int| 0 <= k < j ==> dead@[k] != e.pid,
            decreases dead@.len() - j,
        {
            if dead[j] == e.pid {
                assert(dead@.contains(e.pid)) by { assert(dead@[j as int] == e.pid); }
                return true;
            }
            j = j + 1;
        }
        match idle_timeout {
            Some(t) => now > e.last_used && now - e.last_used > t,
            None => false,
        }
    }

    /// Removes and returns every entry.
    pub fn drain_all(&mut self) -> (r: Vec<ManagedConnection<S>>)
        requires
            old(self).well_formed(),
        ensures
            r@ == old(self)@,
            final(self)@ == Seq::<ManagedConnection<S>>::empty(),
            final(self).max_spec() == old(self).max_spec(),
            final(self).well_formed(),
    {
        let mut taken: Vec<ManagedConnection<S>> = Vec::new();
        std::mem::swap(&mut self.entries, &mut taken);
        taken
    }

    /// The process ids held, in pool order.
    pub fn pids(&self) -> (r: Vec<i32>)
        ensures
            r@ == self@.map_values(|e: ManagedConnection<S>| e.pid),
    {
        let mut out: Vec<i32> = Vec::new();
        let mut i: usize = 0;
        while i < self.entries.len()
            invariant
                i <= self.entries@.len(),
                out@ == self.entries@.take(i as int).map_values(|e: ManagedConnection<S>| e.pid),
            decreases self.entries@.len() - i,
        {
            out.push(self.entries[i].pid);
            i = i + 1;
            assert(out@ =~= self.entries@.take(i as int).map_values(|e: ManagedConnection<S>| e.pid));
        }
        assert(self.entries@.take(i as int) =~= self.entries@);
        out
    }
}

proof fn lemma_refreshed_holds<S>(s: Seq<ManagedConnection<S>>, pid: i32, now: u64)
    ensures
        forall|p: i32| holds_pid(refreshed(s, pid, now), p) <==> holds_pid(s, p),
{
    let t = refreshed(s, pid, now);
    assert forall|p: i32| holds_pid(t, p) <==> holds_pid(s, p) by {
        if holds_pid(t, p) {
            let k = choose|k: int| 0 <= k < t.len() && t[k].pid == p;
            assert(s[k].pid == p);
        }
        if holds_pid(s, p) {
            let k = choose|k: int| 0 <= k < s.len() && s[k].pid == p;
            assert(t[k].pid == p);
        }
    }
}

proof fn lemma_remove_holds<S>(s: Seq<ManagedConnection<S>>, i: int)
    requires
        0 <= i < s.len(),
    ensures
        forall|p: i32| holds_pid(s.remove(i), p) ==> holds_pid(s, p),
{
    assert forall|p: i32| holds_pid(s.remove(i), p) implies holds_pid(s, p) by {
        let k = choose|k: int| 0 <= k < s.remove(i).len() && s.remove(i)[k].pid == p;
        let k0 = if k < i { k } else { k + 1 };
        assert(s[k0].pid == p);
    }
}

proof fn lemma_push_holds<S>(s: Seq<ManagedConnection<S>>, e: ManagedConnection<S>)
    ensures
        holds_pid(s.push(e), e.pid),
        forall|p: i32| holds_pid(s.push(e), p) ==> holds_pid(s, p) || p == e.pid,
{
    assert(s.push(e)[s.len() as int] == e);
    assert forall|p: i32| holds_pid(s.push(e), p) implies holds_pid(s, p) || p == e.pid by {
        let k = choose|k: int| 0 <= k < s.push(e).len() && s.push(e)[k].pid == p;
        if k < s.len() {
            assert(s[k].pid == p);
        }
    }
}

proof fn lemma_update_holds<S>(s: Seq<ManagedConnection<S>>, i: int, e: ManagedConnection<S>)
    requires
        0 <= i < s.len(),
        s[i].pid == e.pid,
    ensures
        forall|p: i32| holds_pid(s.update(i, e), p) <==> holds_pid(s, p),
{
    assert forall|p: i32| holds_pid(s.update(i, e), p) <==> holds_pid(s, p) by {
        if holds_pid(s.update(i, e), p) {
            let k = choose|k: int| 0 <= k < s.len() && s.update(i, e)[k].pid == p;
            assert(s[k].pid == p);
        }
        if holds_pid(s, p) {
            let k = choose|k: int| 0 <= k < s.len() && s[k].pid == p;
            assert(s.update(i, e)[k].pid == p);
        }
    }
}

proof fn lemma_filter_holds<S>(s: Seq<ManagedConnection<S>>, f: spec_fn(ManagedConnection<S>) -> bool)
    ensures
        forall|p: i32| holds_pid(s.filter(f), p) ==> holds_pid(s, p),
{
    assert forall|p: i32| holds_pid(s.filter(f), p) implies holds_pid(s, p) by {
        let k = choose|k: int| 0 <= k < s.filter(f).len() && s.filter(f)[k].pid == p;
        assert(s.filter(f).contains(s.filter(f)[k]));
        s.lemma_filter_contains_rev(f, s.filter(f)[k]);
    }
}

/// However requests interleave, a well-formed pool holds no more sessions
/// than its limit: every operation that changes the pool keeps it well
/// formed.
pub proof fn lemma_pool_within_limit<S>(pool: ConnectionPool<S>)
    requires
        pool.well_formed(),
    ensures
        pool@.len() <= pool.max_spec(),
{
}

/// Filtering keeps distinct keys distinct.
proof fn lemma_filter_keeps_unique<S>(s: Seq<ManagedConnection<S>>, p: spec_fn(ManagedConnection<S>) -> bool)
    requires
        pids_unique(s),
    ensures
        pids_unique(s.filter(p)),
    decreases s.len(),
{
    reveal(Seq::filter);
    if s.len() > 0 {
        let init = s.drop_last();
        assert(pids_unique(init));
        lemma_filter_keeps_unique(init, p);
        if p(s.last()) {
            let f = init.filter(p);
            assert forall|k: int| 0 <= k < f.len() implies f[k].pid != s.last().pid by {
                assert(f.contains(f[k]));
                init.lemma_filter_contains_rev(p, f[k]);
                let m = choose|m: int| 0 <= m < init.len() && init[m] == f[k];
                assert(s[m] == init[m]);
            }
            assert(s.filter(p) == f.push(s.last()));
        }
    }
}

} // verus!
