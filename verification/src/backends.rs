//! The backends of a load-balanced TCP group: registration, removal,
//! round-robin choice, and ejection of a backend for a while after a
//! failed connection.
use vstd::prelude::*;
use crate::text::{str_eq, string_from};

verus! {

/// How long a backend is left out after a failed connection, in ms.
pub const BACKEND_EJECT_MS: u64 = 5000;

/// How many failures in a row eject a backend.
pub const BACKEND_FAIL_THRESHOLD: u32 = 1;

/// A backend of a group: the registration behind it and how its work
/// connections are secured.
pub struct GroupedBackend {
    pub backend_id: String,
    pub proxy_name: String,
    pub stcp: bool,
    pub secret: String,
}

/// What the group knows of one backend.
pub struct BackendState {
    snapshot: GroupedBackend,
    failures: u32,
    ejected_until: Option<u64>,
}

/// A backend as plain values: its id, proxy name, mode, secret, the
/// failures counted since its last success, and the time (ms) until which
/// it is left out.
pub struct BackendModel {
    pub id: Seq<char>,
    pub proxy_name: Seq<char>,
    pub stcp: bool,
    pub secret: Seq<char>,
    pub failures: u32,
    pub ejected_until: Option<u64>,
}

pub closed spec fn backend_model(s: BackendState) -> BackendModel {
    BackendModel {
        id: s.snapshot.backend_id@,
        proxy_name: s.snapshot.proxy_name@,
        stcp: s.snapshot.stcp,
        secret: s.snapshot.secret@,
        failures: s.failures,
        ejected_until: s.ejected_until,
    }
}

/// The backend `b` as the group first records it.
pub open spec fn fresh_model(b: GroupedBackend) -> BackendModel {
    BackendModel {
        id: b.backend_id@,
        proxy_name: b.proxy_name@,
        stcp: b.stcp,
        secret: b.secret@,
        failures: 0,
        ejected_until: None,
    }
}

/// The backend `b` describes the model `m` (its id, name, mode, secret).
pub open spec fn describes(b: GroupedBackend, m: BackendModel) -> bool {
    b.backend_id@ == m.id && b.proxy_name@ == m.proxy_name && b.stcp == m.stcp && b.secret@ == m.secret
}

/// A backend may be picked at time `now`: it is not left out until later.
pub open spec fn available(m: BackendModel, now: u64) -> bool {
    match m.ejected_until {
        Some(deadline) => !(deadline > now),
        None => true,
    }
}

/// Some backend of `v` has the id `id`.
pub open spec fn has_id(v: Seq<BackendModel>, id: Seq<char>) -> bool {
    exists|i: int| 0 <= i < v.len() && v[i].id == id
}

/// No two backends share an id.
pub open spec fn ids_distinct(v: Seq<BackendModel>) -> bool {
    forall|i: int, j: int| 0 <= i < j < v.len() ==> v[i].id != v[j].id
}

/// The index of the first backend of `v` available at `now`, looking from
/// position `start + k` on, round the list.
pub open spec fn scan_from(v: Seq<BackendModel>, start: int, now: u64, k: nat) -> Option<int>
    decreases v.len() - k,
{
    if k >= v.len() {
        None
    } else if available(v[(start + k) % (v.len() as int)], now) {
        Some((start + k) % (v.len() as int))
    } else {
        scan_from(v, start, now, k + 1)
    }
}

/// The index of the backend a pick chooses with counter `rr` at `now`:
/// the first available one from position `rr % len` on, round the list.
pub open spec fn pick_index(v: Seq<BackendModel>, rr: u32, now: u64) -> Option<int> {
    if v.len() == 0 {
        None
    } else {
        scan_from(v, (rr as int) % (v.len() as int), now, 0)
    }
}

/// The counter after a pick: one more, wrapping at the top of `u32`.
pub open spec fn next_rr(rr: u32) -> u32 {
    if rr == u32::MAX {
        0
    } else {
        (rr + 1) as u32
    }
}

/// The backends after the one with id `id` succeeded.
pub open spec fn after_success(v: Seq<BackendModel>, id: Seq<char>) -> Seq<BackendModel> {
    v.map_values(
        |m: BackendModel|
            if m.id == id {
                BackendModel { failures: 0, ejected_until: None, ..m }
            } else {
                m
            },
    )
}

/// The failure count after one more failure (wrapping as `u32` does).
pub open spec fn one_more(f: u32) -> u32 {
    if f == u32::MAX {
        0
    } else {
        (f + 1) as u32
    }
}

/// The backends after the one with id `id` failed at `now`: one more
/// failure counted, and left out for `BACKEND_EJECT_MS` once the count
/// reaches the threshold.
pub open spec fn after_failure(v: Seq<BackendModel>, id: Seq<char>, now: u64) -> Seq<BackendModel> {
    v.map_values(
        |m: BackendModel|
            if m.id == id {
                BackendModel {
                    failures: one_more(m.failures),
                    ejected_until: if one_more(m.failures) >= BACKEND_FAIL_THRESHOLD {
                        Some((now + BACKEND_EJECT_MS) as u64)
                    } else {
                        m.ejected_until
                    },
                    ..m
                }
            } else {
                m
            },
    )
}

/// The backends after `b` is added: unchanged when a backend with its id
/// is there already.
pub open spec fn added(v: Seq<BackendModel>, b: GroupedBackend) -> Seq<BackendModel> {
    if has_id(v, b.backend_id@) {
        v
    } else {
        v.push(fresh_model(b))
    }
}

/// The backend at `i` with its ejection lifted, as a pick leaves it.
pub open spec fn picked(v: Seq<BackendModel>, i: int) -> Seq<BackendModel> {
    v.update(i, BackendModel { ejected_until: None, ..v[i] })
}

fn copy_backend(b: &GroupedBackend) -> (out: GroupedBackend)
    ensures
        out.backend_id@ == b.backend_id@,
        out.proxy_name@ == b.proxy_name@,
        out.stcp == b.stcp,
        out.secret@ == b.secret@,
{
    GroupedBackend {
        backend_id: string_from(b.backend_id.as_str()),
        proxy_name: string_from(b.proxy_name.as_str()),
        stcp: b.stcp,
        secret: string_from(b.secret.as_str()),
    }
}

proof fn lemma_scan_skip(v: Seq<BackendModel>, start: int, now: u64, k: nat)
    requires
        k < v.len(),
        !available(v[(start + k) % (v.len() as int)], now),
    ensures
        scan_from(v, start, now, k) == scan_from(v, start, now, k + 1),
{
}

/// A pick only ever chooses a backend available at the time of the pick.
pub proof fn lemma_scan_available(v: Seq<BackendModel>, start: int, now: u64, k: nat)
    requires
        v.len() > 0,
    ensures
        scan_from(v, start, now, k) matches Some(i) ==> 0 <= i < v.len() && available(v[i], now),
    decreases v.len() - k,
{
    if k < v.len() && !available(v[(start + k) % (v.len() as int)], now) {
        lemma_scan_available(v, start, now, k + 1);
    }
}

/// The backends of a load-balanced TCP group with its round-robin counter.
pub struct BackendPool {
    backends: Vec<BackendState>,
    rr: u32,
}

impl BackendPool {
    /// The backends, in the order they were added.
    pub closed spec fn view(&self) -> Seq<BackendModel> {
        self.backends@.map_values(|s: BackendState| backend_model(s))
    }

    /// The round-robin counter.
    pub closed spec fn counter(&self) -> u32 {
        self.rr
    }

    /// No backend is recorded twice.
    pub open spec fn wf(&self) -> bool {
        ids_distinct(self.view())
    }

    pub fn new() -> (p: Self)
        ensures
            p.wf(),
            p.view() == Seq::<BackendModel>::empty(),
            p.counter() == 0,
    {
        let p = BackendPool { backends: Vec::new(), rr: 0 };
        assert(p.view() =~= Seq::<BackendModel>::empty());
        p
    }

    pub fn len(&self) -> (n: usize)
        ensures
            n == self.view().len(),
    {
        self.backends.len()
    }

    /// Adds a backend, unless one with its id is there already.
    pub fn add_backend(&mut self, backend: GroupedBackend)
        requires
            old(self).wf(),
        ensures
            final(self).wf(),
            final(self).view() == added(old(self).view(), backend),
            final(self).counter() == old(self).counter(),
    {
        let ghost v0 = self.view();
        match self.find(backend.backend_id.as_str()) {
            Some(_) => {},
            None => {
                let ghost b = backend;
                self.backends.push(BackendState { snapshot: backend, failures: 0, ejected_until: None });
                assert(self.view() =~= v0.push(fresh_model(b)));
                assert forall|i: int, j: int| 0 <= i < j < self.view().len() implies self.view()[i].id
                    != self.view()[j].id by {
                    if j == v0.len() {
                        assert(self.view()[i] == v0[i]);
                    } else {
                        assert(self.view()[i] == v0[i] && self.view()[j] == v0[j]);
                    }
                }
            },
        }
    }

    /// Removes the backend with id `id`, if there is one; says whether the
    /// group is left empty.
    pub fn remove_backend(&mut self, id: &str) -> (empty: bool)
        requires
            old(self).wf(),
        ensures
            final(self).wf(),
            final(self).counter() == old(self).counter(),
            !has_id(old(self).view(), id@) ==> final(self).view() == old(self).view(),
            has_id(old(self).view(), id@) ==> exists|i: int|
                0 <= i < old(self).view().len() && old(self).view()[i].id == id@ && final(self).view()
                    == old(self).view().remove(i),
            empty == (final(self).view().len() == 0),
    {
        let ghost v0 = self.view();
        match self.find(id) {
            Some(i) => {
                self.backends.remove(i);
                assert(self.view() =~= v0.remove(i as int));
                assert forall|a: int, b: int| 0 <= a < b < self.view().len() implies self.view()[a].id
                    != self.view()[b].id by {
                    if a < i {
                        assert(self.view()[a] == v0[a]);
                    } else {
                        assert(self.view()[a] == v0[a + 1]);
                    }
                    if b < i {
                        assert(self.view()[b] == v0[b]);
                    } else {
                        assert(self.view()[b] == v0[b + 1]);
                    }
                }
            },
            None => {},
        }
        self.backends.len() == 0
    }

    /// Picks the backend for a new client at time `now`: from the position
    /// of the round-robin counter on, the first one that is not left out;
    /// its ejection is lifted. The counter advances on every pick from a
    /// non-empty group.
    pub fn pick_backend(&mut self, now: u64) -> (r: Option<GroupedBackend>)
        requires
            old(self).wf(),
        ensures
            final(self).wf(),
            old(self).view().len() == 0 ==> r is None && final(self).view() == old(self).view()
                && final(self).counter() == old(self).counter(),
            old(self).view().len() > 0 ==> final(self).counter() == next_rr(old(self).counter()),
            match pick_index(old(self).view(), old(self).counter(), now) {
                Some(i) => r matches Some(b) && describes(b, old(self).view()[i]) && final(self).view()
                    == picked(old(self).view(), i),
                None => r is None && final(self).view() == old(self).view(),
            },
    {
        let len = self.backends.len();
        if len == 0 {
            return None;
        }
        let ghost v0 = self.view();
        let ghost s0 = self.backends@;
        let start = (self.rr as usize) % len;
        self.rr = if self.rr == u32::MAX { 0 } else { self.rr + 1 };
        assert(start as int == (old(self).counter() as int) % (v0.len() as int));
        let mut k: usize = 0;
        while k < len
            invariant
                len == v0.len(),
                len > 0,
                start < len,
                k <= len,
                self.view() == v0,
                self.backends@ == s0,
                v0 == old(self).view(),
                s0 == old(self).backends@,
                start as int == (old(self).counter() as int) % (len as int),
                self.rr == next_rr(old(self).counter()),
                ids_distinct(v0),
                scan_from(v0, start as int, now, 0) == scan_from(v0, start as int, now, k as nat),
            decreases len - k,
        {
            let idx = if k < len - start { start + k } else { k - (len - start) };
            assert(idx as int == (start as int + k as int) % (len as int)) by (nonlinear_arith)
                requires
                    idx == (if k < len - start { start + k } else { k - (len - start) }),
                    start < len,
                    k < len,
            ;
            let open = match self.backends[idx].ejected_until {
                Some(deadline) => !(deadline > now),
                None => true,
            };
            assert(open == available(v0[idx as int], now));
            if open {
                let ghost s_old = self.backends@[idx as int];
                self.backends[idx].ejected_until = None;
                let b = copy_backend(&self.backends[idx].snapshot);
                assert(self.view() =~= picked(v0, idx as int)) by {
                    assert forall|j: int| 0 <= j < self.view().len() implies self.view()[j] == picked(v0, idx as int)[j] by {
                        if j != idx {
                            assert(self.backends@[j] == s0[j]);
                        }
                    }
                }
                assert forall|a: int, c: int| 0 <= a < c < self.view().len() implies self.view()[a].id
                    != self.view()[c].id by {
                    assert(self.view()[a].id == v0[a].id);
                    assert(self.view()[c].id == v0[c].id);
                }
                assert(scan_from(v0, start as int, now, k as nat) == Some(idx as int));
                return Some(b);
            }
            proof {
                lemma_scan_skip(v0, start as int, now, k as nat);
            }
            k = k + 1;
        }
        None
    }

    /// Records a successful connection through the backend `id`: its
    /// failure count is cleared and any ejection lifted.
    pub fn mark_backend_success(&mut self, id: &str)
        requires
            old(self).wf(),
        ensures
            final(self).wf(),
            final(self).view() == after_success(old(self).view(), id@),
            final(self).counter() == old(self).counter(),
    {
        let ghost v0 = self.view();
        match self.find(id) {
            Some(i) => {
                self.backends[i].failures = 0;
                self.backends[i].ejected_until = None;
                assert forall|j: int| 0 <= j < v0.len() && j != i implies #[trigger] v0[j].id != id@ by {
                    assert(v0[i as int].id == id@);
                }
                assert(self.view() =~= after_success(v0, id@)) by {
                    assert forall|j: int| 0 <= j < self.view().len() implies self.view()[j] == after_success(v0, id@)[j] by {
                        if j != i {
                            assert(self.backends@[j] == old(self).backends@[j]);
                            assert(v0[j].id != id@);
                        }
                    }
                }
            },
            None => {
                assert(self.view() =~= after_success(v0, id@)) by {
                    assert forall|j: int| 0 <= j < v0.len() implies v0[j] == after_success(v0, id@)[j] by {
                        assert(v0[j].id != id@);
                    }
                }
            },
        }
    }

    /// Records a failed connection through the backend `id` at time `now`:
    /// one more failure is counted, and once the count reaches the
    /// threshold the backend is left out until `BACKEND_EJECT_MS` later.
    pub fn mark_backend_failure(&mut self, id: &str, now: u64)
        requires
            old(self).wf(),
            now <= u64::MAX - BACKEND_EJECT_MS,
        ensures
            final(self).wf(),
            final(self).view() == after_failure(old(self).view(), id@, now),
            final(self).counter() == old(self).counter(),
    {
        let ghost v0 = self.view();
        match self.find(id) {
            Some(i) => {
                let f = self.backends[i].failures;
                let f1 = if f == u32::MAX { 0 } else { f + 1 };
                self.backends[i].failures = f1;
                if f1 >= BACKEND_FAIL_THRESHOLD {
                    self.backends[i].ejected_until = Some(now + BACKEND_EJECT_MS);
                }
                assert(self.view() =~= after_failure(v0, id@, now)) by {
                    assert forall|j: int| 0 <= j < self.view().len() implies self.view()[j] == after_failure(v0, id@, now)[j] by {
                        if j != i {
                            assert(self.backends@[j] == old(self).backends@[j]);
                            assert(v0[j].id != id@);
                        }
                    }
                }
            },
            None => {
                assert(self.view() =~= after_failure(v0, id@, now)) by {
                    assert forall|j: int| 0 <= j < v0.len() implies v0[j] == after_failure(v0, id@, now)[j] by {
                        assert(v0[j].id != id@);
                    }
                }
            },
        }
    }

    fn find(&self, id: &str) -> (r: Option<usize>)
        ensures
            r matches Some(i) ==> i < self.view().len() && self.view()[i as int].id == id@,
            r is None ==> !has_id(self.view(), id@),
    {
        let mut i: usize = 0;
        while i < self.backends.len()
            invariant
                i <= self.backends@.len(),
                forall|j: int| 0 <= j < i ==> self.view()[j].id != id@,
            decreases self.backends@.len() - i,
        {
            if str_eq(self.backends[i].snapshot.backend_id.as_str(), id) {
                return Some(i);
            }
            i = i + 1;
        }
        None
    }
}


/// A backend that has just failed is not picked again before its
/// ejection ends (unless its failure count wrapped round to zero).
pub proof fn law_failed_backend_left_out(v: Seq<BackendModel>, id: Seq<char>, now: u64, t: u64, rr: u32)
    requires
        now <= u64::MAX - BACKEND_EJECT_MS,
        now <= t < now + BACKEND_EJECT_MS,
        forall|i: int| 0 <= i < v.len() && v[i].id == id ==> v[i].failures < u32::MAX,
    ensures
        pick_index(after_failure(v, id, now), rr, t) matches Some(i) ==> after_failure(v, id, now)[i].id != id,
{
    let w = after_failure(v, id, now);
    if w.len() > 0 {
        lemma_scan_available(w, (rr as int) % (w.len() as int), t, 0);
        if let Some(i) = pick_index(w, rr, t) {
            if w[i].id == id {
                assert(v[i].id == id);
                assert(w[i].ejected_until == Some((now + BACKEND_EJECT_MS) as u64));
            }
        }
    }
}

/// After a success, the backend is available again at any time.
pub proof fn law_success_restores(v: Seq<BackendModel>, id: Seq<char>, now: u64, i: int)
    requires
        0 <= i < v.len(),
        v[i].id == id,
    ensures
        available(after_success(v, id)[i], now),
        after_success(v, id)[i].failures == 0,
{
}

/// When every backend is available, picks go strictly round-robin: the
/// backend at the counter's position is chosen.
pub proof fn law_round_robin_when_all_available(v: Seq<BackendModel>, rr: u32, now: u64)
    requires
        v.len() > 0,
        forall|i: int| 0 <= i < v.len() ==> available(#[trigger] v[i], now),
    ensures
        pick_index(v, rr, now) == Some((rr as int) % (v.len() as int)),
{
    let n = v.len() as int;
    assert(((rr as int) % n + 0) % n == (rr as int) % n) by (nonlinear_arith)
        requires n > 0, rr >= 0;
    assert(available(v[((rr as int) % n + 0) % n], now));
}

/// Adding the same backend twice is adding it once.
pub proof fn law_add_idempotent(v: Seq<BackendModel>, b: GroupedBackend)
    ensures
        added(added(v, b), b) == added(v, b),
{
    if !has_id(v, b.backend_id@) {
        assert(v.push(fresh_model(b))[v.len() as int].id == b.backend_id@);
    }
}

/// Once the backend with an id is removed, no backend with that id is
/// left.
pub proof fn law_removed_backend_gone(v: Seq<BackendModel>, i: int)
    requires
        ids_distinct(v),
        0 <= i < v.len(),
    ensures
        !has_id(v.remove(i), v[i].id),
{
    if has_id(v.remove(i), v[i].id) {
        let j = choose|j: int| 0 <= j < v.remove(i).len() && v.remove(i)[j].id == v[i].id;
        if j < i {
            assert(v.remove(i)[j] == v[j]);
        } else {
            assert(v.remove(i)[j] == v[j + 1]);
        }
    }
}

} // verus!
