//! The index store's semantics, an in-memory store that keeps them, and the
//! reconciliation of stale entries.
use crate::model::{reversed, IndexDates, Repository, ServerInfo};
use std::collections::HashMap;
use vstd::prelude::*;

verus! {

broadcast use vstd::std_specs::hash::group_hash_axioms;

/// The records of a store after `recs` were upserted in order: each record
/// replaces whatever was held under its id, and of two records with one id
/// the later wins.
pub open spec fn upsert_all(m: Map<u32, Repository>, recs: Seq<Repository>) -> Map<u32, Repository>
    decreases recs.len(),
{
    if recs.len() == 0 {
        m
    } else {
        upsert_all(m, recs.drop_last()).insert(recs.last().id, recs.last())
    }
}

/// The ids of a sequence of records.
pub open spec fn ids_of(recs: Seq<Repository>) -> Set<u32> {
    Set::new(|id: u32| exists|i: int| 0 <= i < recs.len() && recs[i].id == id)
}

/// The ids of a sequence of records, in order.
pub open spec fn ids_seq(recs: Seq<Repository>) -> Seq<u32> {
    recs.map_values(|r: Repository| r.id)
}

proof fn lemma_ids_seq_contains(recs: Seq<Repository>)
    ensures
        forall|id: u32| #[trigger] ids_seq(recs).contains(id) <==> ids_of(recs).contains(id),
{
    assert forall|id: u32| #[trigger] ids_seq(recs).contains(id) <==> ids_of(recs).contains(id) by {
        if ids_seq(recs).contains(id) {
            let i = choose|i: int| 0 <= i < ids_seq(recs).len() && ids_seq(recs)[i] == id;
            assert(recs[i].id == id);
        }
        if ids_of(recs).contains(id) {
            let i = choose|i: int| 0 <= i < recs.len() && recs[i].id == id;
            assert(ids_seq(recs)[i] == id);
        }
    }
}

/// Upserting `a` and then `b` is upserting `a + b`: how the records of a
/// pass are split into batches does not change what the store ends up
/// holding.
pub proof fn lemma_upsert_concat(m: Map<u32, Repository>, a: Seq<Repository>, b: Seq<Repository>)
    ensures
        upsert_all(upsert_all(m, a), b) == upsert_all(m, a + b),
    decreases b.len(),
{
    if b.len() == 0 {
        assert(a + b =~= a);
    } else {
        lemma_upsert_concat(m, a, b.drop_last());
        assert((a + b).drop_last() =~= a + b.drop_last());
        assert((a + b).last() == b.last());
    }
}

/// After an upsert, the ids held are those held before and those upserted.
pub proof fn lemma_upsert_dom(m: Map<u32, Repository>, recs: Seq<Repository>)
    ensures
        upsert_all(m, recs).dom() == m.dom() + ids_of(recs),
    decreases recs.len(),
{
    if recs.len() == 0 {
        assert(m.dom() + ids_of(recs) =~= m.dom());
    } else {
        lemma_upsert_dom(m, recs.drop_last());
        let front = recs.drop_last();
        assert forall|id: u32| #[trigger] ids_of(recs).contains(id) <==> (ids_of(front).contains(id) || id == recs.last().id) by {
            if ids_of(recs).contains(id) {
                let i = choose|i: int| 0 <= i < recs.len() && recs[i].id == id;
                if i < recs.len() - 1 {
                    assert(front[i].id == id);
                }
            }
            if ids_of(front).contains(id) {
                let i = choose|i: int| 0 <= i < front.len() && front[i].id == id;
                assert(recs[i].id == id);
            }
            if id == recs.last().id {
                assert(recs[recs.len() - 1].id == id);
            }
        }
        assert(upsert_all(m, recs).dom() =~= m.dom() + ids_of(recs));
    }
}

/// The ids of `stored` that `fetched` lacks, each once, in the order of their
/// first appearance in `stored`.
pub open spec fn stale_of(stored: Seq<u32>, fetched: Seq<u32>) -> Seq<u32>
    decreases stored.len(),
{
    if stored.len() == 0 {
        seq![]
    } else {
        let front = stale_of(stored.drop_last(), fetched);
        let id = stored.last();
        if fetched.contains(id) || front.contains(id) {
            front
        } else {
            front.push(id)
        }
    }
}

/// An id is stale exactly when `stored` lists it and `fetched` does not.
pub proof fn lemma_stale_of_members(stored: Seq<u32>, fetched: Seq<u32>)
    ensures
        forall|id: u32| #[trigger] stale_of(stored, fetched).contains(id) <==> (stored.contains(id) && !fetched.contains(id)),
    decreases stored.len(),
{
    if stored.len() > 0 {
        let front = stored.drop_last();
        lemma_stale_of_members(front, fetched);
        let last = stored.last();
        assert forall|id: u32| #[trigger] stored.contains(id) <==> (front.contains(id) || id == last) by {
            if stored.contains(id) && id != last {
                let w = choose|w: int| 0 <= w < stored.len() && stored[w] == id;
                assert(front[w] == id);
            }
            if front.contains(id) {
                let w = choose|w: int| 0 <= w < front.len() && front[w] == id;
                assert(stored[w] == id);
            }
            if id == last {
                assert(stored[stored.len() - 1] == id);
            }
        }
        let f = stale_of(front, fetched);
        assert forall|id: u32| #[trigger] f.push(last).contains(id) <==> (f.contains(id) || id == last) by {
            if f.push(last).contains(id) && id != last {
                let w = choose|w: int| 0 <= w < f.push(last).len() && f.push(last)[w] == id;
                assert(f[w] == id);
            }
            if f.contains(id) {
                let w = choose|w: int| 0 <= w < f.len() && f[w] == id;
                assert(f.push(last)[w] == id);
            }
            if id == last {
                assert(f.push(last)[f.len() as int] == id);
            }
        }
    }
}

/// Outside the upserted ids a store keeps what it held; under them it holds
/// what upserting into an empty store gives.
pub proof fn lemma_upsert_values(m: Map<u32, Repository>, recs: Seq<Repository>)
    ensures
        forall|id: u32| ids_of(recs).contains(id) ==> #[trigger] upsert_all(m, recs)[id] == upsert_all(Map::empty(), recs)[id],
        forall|id: u32| !ids_of(recs).contains(id) ==> (#[trigger] upsert_all(m, recs).contains_key(id) <==> m.contains_key(id)),
        forall|id: u32| !ids_of(recs).contains(id) && m.contains_key(id) ==> #[trigger] upsert_all(m, recs)[id] == m[id],
    decreases recs.len(),
{
    if recs.len() > 0 {
        let front = recs.drop_last();
        let last = recs.last();
        lemma_upsert_values(m, front);
        lemma_upsert_dom(m, front);
        lemma_upsert_dom(Map::empty(), front);
        let u = upsert_all(m, recs);
        let e = upsert_all(Map::empty(), recs);
        assert(u == upsert_all(m, front).insert(last.id, last));
        assert(e == upsert_all(Map::empty(), front).insert(last.id, last));
        assert forall|id: u32| #[trigger] ids_of(recs).contains(id) <==> (ids_of(front).contains(id) || id == last.id) by {
            if ids_of(recs).contains(id) {
                let i = choose|i: int| 0 <= i < recs.len() && recs[i].id == id;
                if i < recs.len() - 1 {
                    assert(front[i].id == id);
                }
            }
            if ids_of(front).contains(id) {
                let i = choose|i: int| 0 <= i < front.len() && front[i].id == id;
                assert(recs[i].id == id);
            }
            if id == last.id {
                assert(recs[recs.len() - 1].id == id);
            }
        }
        assert forall|id: u32| ids_of(recs).contains(id) implies #[trigger] u[id] == e[id] by {
            if id != last.id {
                assert(ids_of(front).contains(id));
                assert(upsert_all(m, front)[id] == upsert_all(Map::empty(), front)[id]);
            }
        }
        assert forall|id: u32| !ids_of(recs).contains(id) implies (#[trigger] u.contains_key(id) <==> m.contains_key(id)) by {
            assert(!ids_of(front).contains(id));
            assert(upsert_all(m, front).contains_key(id) <==> m.contains_key(id));
        }
        assert forall|id: u32| !ids_of(recs).contains(id) && m.contains_key(id) implies #[trigger] u[id] == m[id] by {
            assert(!ids_of(front).contains(id));
            assert(upsert_all(m, front)[id] == m[id]);
        }
    }
}

/// Reconciliation is exact: once a full pass has upserted `recs` into a
/// store, whatever it held before, and removed the stale ids among those the
/// store then lists (`stored`), the store holds exactly the ids of `recs`.
pub proof fn lemma_reconcile_exact(m: Map<u32, Repository>, recs: Seq<Repository>, stored: Seq<u32>)
    requires
        forall|id: u32| stored.contains(id) <==> upsert_all(m, recs).contains_key(id),
    ensures
        upsert_all(m, recs).remove_keys(stale_of(stored, ids_seq(recs)).to_set()).dom() == ids_of(recs),
{
    lemma_upsert_dom(m, recs);
    lemma_stale_of_members(stored, ids_seq(recs));
    lemma_ids_seq_contains(recs);
    let u = upsert_all(m, recs);
    assert forall|id: u32| #[trigger] u.remove_keys(stale_of(stored, ids_seq(recs)).to_set()).dom().contains(id) <==> ids_of(recs).contains(id) by {
        if ids_of(recs).contains(id) {
            assert(u.dom().contains(id));
            assert(!stale_of(stored, ids_seq(recs)).contains(id));
        }
    }
    assert(u.remove_keys(stale_of(stored, ids_seq(recs)).to_set()).dom() =~= ids_of(recs));
}

/// What a full pass leaves depends on the upserted records alone: the store
/// ends up as if `recs` had been upserted into an empty one.
pub proof fn lemma_full_pass_result(m: Map<u32, Repository>, recs: Seq<Repository>, stored: Seq<u32>)
    requires
        forall|id: u32| stored.contains(id) <==> upsert_all(m, recs).contains_key(id),
    ensures
        upsert_all(m, recs).remove_keys(stale_of(stored, ids_seq(recs)).to_set()) == upsert_all(Map::empty(), recs),
{
    lemma_reconcile_exact(m, recs, stored);
    lemma_upsert_values(m, recs);
    lemma_upsert_dom(Map::empty(), recs);
    assert(Map::<u32, Repository>::empty().dom() + ids_of(recs) =~= ids_of(recs));
    let r = upsert_all(m, recs).remove_keys(stale_of(stored, ids_seq(recs)).to_set());
    assert(r.dom() =~= upsert_all(Map::empty(), recs).dom());
    assert(r =~= upsert_all(Map::empty(), recs));
}

/// Full passes are idempotent: a second full pass over an unchanged
/// collection leaves the records of the first exactly as they were.
pub proof fn lemma_full_pass_idempotent(
    m: Map<u32, Repository>,
    recs: Seq<Repository>,
    stored1: Seq<u32>,
    stored2: Seq<u32>,
)
    requires
        forall|id: u32| stored1.contains(id) <==> upsert_all(m, recs).contains_key(id),
        forall|id: u32| stored2.contains(id) <==> upsert_all(
            upsert_all(m, recs).remove_keys(stale_of(stored1, ids_seq(recs)).to_set()),
            recs,
        ).contains_key(id),
    ensures
        ({
            let first = upsert_all(m, recs).remove_keys(stale_of(stored1, ids_seq(recs)).to_set());
            upsert_all(first, recs).remove_keys(stale_of(stored2, ids_seq(recs)).to_set()) == first
        }),
{
    lemma_full_pass_result(m, recs, stored1);
    let first = upsert_all(m, recs).remove_keys(stale_of(stored1, ids_seq(recs)).to_set());
    lemma_full_pass_result(first, recs, stored2);
}

/// Upserting records none of which is disabled into a store that holds no
/// disabled record leaves it holding none.
pub proof fn lemma_upsert_keeps_enabled(m: Map<u32, Repository>, recs: Seq<Repository>)
    requires
        forall|id: u32| m.contains_key(id) ==> !(#[trigger] m[id]).disabled,
        forall|k: int| 0 <= k < recs.len() ==> !(#[trigger] recs[k]).disabled,
    ensures
        forall|id: u32| upsert_all(m, recs).contains_key(id) ==> !(#[trigger] upsert_all(m, recs)[id]).disabled,
    decreases recs.len(),
{
    if recs.len() > 0 {
        let front = recs.drop_last();
        assert forall|k: int| 0 <= k < front.len() implies !(#[trigger] front[k]).disabled by {
            assert(front[k] == recs[k]);
        }
        lemma_upsert_keeps_enabled(m, front);
        assert(!recs[recs.len() - 1].disabled);
    }
}

proof fn lemma_take_one_more(s: Seq<u32>, j: int, x: u32)
    requires
        0 <= j < s.len(),
    ensures
        s.take(j + 1).contains(x) <==> (s.take(j).contains(x) || s[j] == x),
{
    let a = s.take(j);
    let b = s.take(j + 1);
    assert(b[j] == s[j]);
    if a.contains(x) {
        let w = choose|w: int| 0 <= w < a.len() && a[w] == x;
        assert(b[w] == x);
    }
    if b.contains(x) && s[j] != x {
        let w = choose|w: int| 0 <= w < b.len() && b[w] == x;
        assert(a[w] == x);
    }
}

/// The ids of `stored` that `fetched` lacks, each once, in the order of
/// `stored`.
pub fn stale_ids(stored: &Vec<u32>, fetched: &Vec<u32>) -> (r: Vec<u32>)
    ensures
        r@ == stale_of(stored@, fetched@),
        forall|id: u32| r@.contains(id) <==> (stored@.contains(id) && !fetched@.contains(id)),
        r@.no_duplicates(),
{
    let mut r: Vec<u32> = Vec::new();
    let mut i: usize = 0;
    while i < stored.len()
        invariant
            i <= stored@.len(),
            r@ == stale_of(stored@.take(i as int), fetched@),
            forall|id: u32| r@.contains(id) <==> (stored@.take(i as int).contains(id) && !fetched@.contains(id)),
            r@.no_duplicates(),
        decreases stored@.len() - i,
    {
        let id = stored[i];
        let mut in_fetched = false;
        let mut in_r = false;
        let mut j: usize = 0;
        while j < fetched.len()
            invariant
                j <= fetched@.len(),
                in_fetched <==> fetched@.take(j as int).contains(id),
            decreases fetched@.len() - j,
        {
            if fetched[j] == id {
                in_fetched = true;
            }
            proof {
                lemma_take_one_more(fetched@, j as int, id);
            }
            j = j + 1;
        }
        assert(fetched@.take(j as int) =~= fetched@);
        let mut k: usize = 0;
        while k < r.len()
            invariant
                k <= r@.len(),
                in_r <==> r@.take(k as int).contains(id),
            decreases r@.len() - k,
        {
            if r[k] == id {
                in_r = true;
            }
            proof {
                lemma_take_one_more(r@, k as int, id);
            }
            k = k + 1;
        }
        assert(r@.take(k as int) =~= r@);
        let ghost before = r@;
        if !in_fetched && !in_r {
            r.push(id);
            proof {
                assert forall|a: int, b: int| 0 <= a < r@.len() && 0 <= b < r@.len() && a != b implies r@[a] != r@[b] by {
                    if a == r@.len() - 1 {
                        assert(before.contains(r@[b]));
                    } else if b == r@.len() - 1 {
                        assert(before.contains(r@[a]));
                    }
                }
            }
        }
        proof {
            let prev = stored@.take(i as int);
            let next = stored@.take(i + 1);
            assert(next =~= prev.push(id));
            assert(next.drop_last() =~= prev);
            assert forall|x: u32| r@.contains(x) <==> (next.contains(x) && !fetched@.contains(x)) by {
                if r@.contains(x) && x != id {
                    let w = choose|w: int| 0 <= w < r@.len() && r@[w] == x;
                    assert(before[w] == x);
                }
                if before.contains(x) {
                    let w = choose|w: int| 0 <= w < before.len() && before[w] == x;
                    assert(r@[w] == x);
                }
                if prev.contains(x) {
                    let w = choose|w: int| 0 <= w < prev.len() && prev[w] == x;
                    assert(next[w] == x);
                }
                if next.contains(x) && x != id {
                    let w = choose|w: int| 0 <= w < next.len() && next[w] == x;
                    assert(prev[w] == x);
                }
                if x == id && !fetched@.contains(x) {
                    assert(next[i as int] == x);
                    if !in_r {
                        assert(r@[r@.len() - 1] == x);
                    }
                }
            }
        }
        i = i + 1;
    }
    assert(stored@.take(i as int) =~= stored@);
    r
}

/// An index store held in memory: the records by id, the order in which
/// their ids first arrived, and the dates document.
pub struct MemoryIndex {
    records: HashMap<u32, Repository>,
    order: Vec<u32>,
    dates: IndexDates,
}

impl View for MemoryIndex {
    type V = Map<u32, Repository>;

    closed spec fn view(&self) -> Map<u32, Repository> {
        self.records@
    }
}

impl MemoryIndex {
    /// The ids held and the order kept agree.
    pub closed spec fn wf(&self) -> bool {
        &&& self.order@.no_duplicates()
        &&& forall|k: int| 0 <= k < self.order@.len() ==> self.records@.contains_key(#[trigger] self.order@[k])
        &&& forall|id: u32| self.records@.contains_key(id) ==> self.order@.contains(id)
    }

    /// The dates document held.
    pub closed spec fn dates_spec(&self) -> IndexDates {
        self.dates
    }

    /// An empty store, on which no pass has completed.
    pub fn new() -> (r: MemoryIndex)
        ensures
            r.wf(),
            r@ == Map::<u32, Repository>::empty(),
            r.dates_spec().last_fast_index is None,
            r.dates_spec().last_full_index is None,
    {
        MemoryIndex { records: HashMap::new(), order: Vec::new(), dates: IndexDates::never() }
    }

    /// The record held under `id`.
    pub fn get(&self, id: u32) -> (r: Option<&Repository>)
        requires
            self.wf(),
        ensures
            match r {
                Some(rec) => self@.contains_key(id) && *rec == self@[id],
                None => !self@.contains_key(id),
            },
    {
        self.records.get(&id)
    }

    /// Whether a record is held under `id`.
    pub fn contains(&self, id: u32) -> (r: bool)
        requires
            self.wf(),
        ensures
            r == self@.contains_key(id),
    {
        self.records.contains_key(&id)
    }

    /// How many records are held.
    pub fn count(&self) -> (r: usize)
        requires
            self.wf(),
        ensures
            r == self@.len(),
    {
        self.records.len()
    }

    /// Every id held, each once.
    pub fn list_ids(&self) -> (r: Vec<u32>)
        requires
            self.wf(),
        ensures
            forall|id: u32| r@.contains(id) <==> self@.contains_key(id),
            r@.no_duplicates(),
    {
        let mut r: Vec<u32> = Vec::new();
        let mut i: usize = 0;
        while i < self.order.len()
            invariant
                self.wf(),
                i <= self.order@.len(),
                r@ == self.order@.take(i as int),
            decreases self.order@.len() - i,
        {
            r.push(self.order[i]);
            assert(self.order@.take(i + 1) =~= self.order@.take(i as int).push(self.order@[i as int]));
            i = i + 1;
        }
        assert(self.order@.take(i as int) =~= self.order@);
        assert forall|id: u32| r@.contains(id) implies self@.contains_key(id) by {
            let w = choose|w: int| 0 <= w < r@.len() && r@[w] == id;
            assert(self.records@.contains_key(self.order@[w]));
        }
        r
    }

    fn upsert_one(&mut self, rec: Repository)
        requires
            old(self).wf(),
        ensures
            final(self).wf(),
            final(self)@ == old(self)@.insert(rec.id, rec),
            final(self).dates_spec() == old(self).dates_spec(),
    {
        let id = rec.id;
        let ghost old_records = self.records@;
        let prior = self.records.insert(id, rec);
        if prior.is_none() {
            let ghost before = self.order@;
            assert(!before.contains(id));
            self.order.push(id);
            assert forall|a: int, b: int| 0 <= a < self.order@.len() && 0 <= b < self.order@.len() && a != b implies self.order@[a] != self.order@[b] by {
                if a == before.len() {
                    assert(before.contains(self.order@[b]));
                } else if b == before.len() {
                    assert(before.contains(self.order@[a]));
                }
            }
            assert forall|x: u32| self.records@.contains_key(x) implies self.order@.contains(x) by {
                if x == id {
                    assert(self.order@[before.len() as int] == x);
                } else {
                    assert(old_records.contains_key(x));
                    assert(old(self).records@.contains_key(x));
                    assert(before == old(self).order@);
                    assert(before.contains(x));
                    let w = choose|w: int| 0 <= w < before.len() && before[w] == x;
                    assert(self.order@[w] == x);
                }
            }
        }
    }

    /// Upserts a batch: each record replaces whatever was held under its id.
    pub fn upsert_batch(&mut self, recs: Vec<Repository>)
        requires
            old(self).wf(),
        ensures
            final(self).wf(),
            final(self)@ == upsert_all(old(self)@, recs@),
            final(self).dates_spec() == old(self).dates_spec(),
    {
        let ghost all = recs@;
        let ghost start = self@;
        let mut rest = reversed(recs);
        proof {
            assert(rest@.reverse() =~= all) by {
                assert forall|k: int| 0 <= k < all.len() implies rest@.reverse()[k] == all[k] by {}
            }
        }
        while rest.len() > 0
            invariant
                self.wf(),
                self.dates_spec() == old(self).dates_spec(),
                all.len() >= rest@.len(),
                all =~= all.take(all.len() - rest@.len()) + rest@.reverse(),
                self@ == upsert_all(start, all.take(all.len() - rest@.len())),
            decreases rest@.len(),
        {
            let ghost done = all.take(all.len() - rest@.len());
            let ghost rest0 = rest@;
            let rec = rest.pop().unwrap();
            let ghost next = all.take(all.len() - rest@.len());
            proof {
                assert(rest0 =~= rest@.push(rec));
                assert(rest0.reverse() =~= seq![rec] + rest@.reverse()) by {
                    assert forall|k: int| 0 <= k < rest0.len() implies rest0.reverse()[k] == (seq![rec] + rest@.reverse())[k] by {}
                }
                assert(next =~= done.push(rec)) by {
                    assert(all[done.len() as int] == rec);
                }
                assert(next.drop_last() =~= done);
                assert(all =~= next + rest@.reverse());
            }
            self.upsert_one(rec);
        }
        assert(all.take(all.len() as int) =~= all);
    }

    /// Removes every record whose id is in `ids`; ids not held are ignored.
    pub fn remove(&mut self, ids: &Vec<u32>)
        requires
            old(self).wf(),
        ensures
            final(self).wf(),
            final(self)@ == old(self)@.remove_keys(ids@.to_set()),
            final(self).dates_spec() == old(self).dates_spec(),
    {
        let mut i: usize = 0;
        while i < ids.len()
            invariant
                i <= ids@.len(),
                self.order == old(self).order,
                self.dates == old(self).dates,
                self.records@ == old(self).records@.remove_keys(ids@.take(i as int).to_set()),
            decreases ids@.len() - i,
        {
            let id = ids[i];
            self.records.remove(&id);
            proof {
                lemma_take_one_more(ids@, i as int, id);
                assert forall|x: u32| #[trigger] ids@.take(i + 1).to_set().contains(x) <==> (ids@.take(i as int).to_set().contains(x) || x == id) by {
                    lemma_take_one_more(ids@, i as int, x);
                }
                assert(self.records@ =~= old(self).records@.remove_keys(ids@.take(i + 1).to_set()));
            }
            i = i + 1;
        }
        assert(ids@.take(i as int) =~= ids@);
        let mut kept: Vec<u32> = Vec::new();
        let mut k: usize = 0;
        while k < self.order.len()
            invariant
                k <= self.order@.len(),
                old(self).wf(),
                self.order == old(self).order,
                self.dates == old(self).dates,
                self.records@ == old(self).records@.remove_keys(ids@.to_set()),
                kept@.no_duplicates(),
                forall|j: int| 0 <= j < kept@.len() ==> self.records@.contains_key(#[trigger] kept@[j]),
                forall|x: u32| kept@.contains(x) ==> self.order@.take(k as int).contains(x),
                forall|x: u32| self.records@.contains_key(x) && self.order@.take(k as int).contains(x) ==> kept@.contains(x),
            decreases self.order@.len() - k,
        {
            let id = self.order[k];
            let ghost kept0 = kept@;
            proof {
                assert forall|x: u32| #[trigger] self.order@.take(k + 1).contains(x) <==> (self.order@.take(k as int).contains(x) || x == id) by {
                    lemma_take_one_more(self.order@, k as int, x);
                }
            }
            if self.records.contains_key(&id) {
                proof {
                    if kept0.contains(id) {
                        assert(self.order@.take(k as int).contains(id));
                        let w = choose|w: int| 0 <= w < k && self.order@.take(k as int)[w] == id;
                        assert(self.order@[w] == self.order@[k as int]);
                        assert(old(self).order@.no_duplicates());
                    }
                    assert(!kept0.contains(id));
                }
                kept.push(id);
                proof {
                    assert forall|a: int, b: int| 0 <= a < kept@.len() && 0 <= b < kept@.len() && a != b implies kept@[a] != kept@[b] by {
                        if a == kept0.len() {
                            assert(kept0.contains(kept@[b]));
                        } else if b == kept0.len() {
                            assert(kept0.contains(kept@[a]));
                        }
                    }
                    assert forall|x: u32| kept@.contains(x) implies self.order@.take(k + 1).contains(x) by {
                        if x != id {
                            let w = choose|w: int| 0 <= w < kept@.len() && kept@[w] == x;
                            assert(kept0[w] == x);
                            assert(kept0.contains(x));
                        }
                    }
                    assert forall|x: u32| self.records@.contains_key(x) && self.order@.take(k + 1).contains(x) implies kept@.contains(x) by {
                        if x == id {
                            assert(kept@[kept0.len() as int] == x);
                        } else {
                            assert(self.order@.take(k as int).contains(x));
                            assert(kept0.contains(x));
                            let w = choose|w: int| 0 <= w < kept0.len() && kept0[w] == x;
                            assert(kept@[w] == x);
                        }
                    }
                }
            }
            k = k + 1;
        }
        assert(self.order@.take(k as int) =~= self.order@);
        assert forall|x: u32| self.records@.contains_key(x) implies self.order@.contains(x) by {
            assert(old(self).records@.contains_key(x));
        }
        self.order = kept;
    }

    /// The dates document; on a store where none was written yet, both dates
    /// are absent.
    pub fn get_metadata(&self) -> (r: IndexDates)
        ensures
            r == self.dates_spec(),
    {
        self.dates
    }

    /// Overwrites the dates document.
    pub fn set_metadata(&mut self, dates: IndexDates)
        requires
            old(self).wf(),
        ensures
            final(self).wf(),
            final(self)@ == old(self)@,
            final(self).dates_spec() == dates,
    {
        self.dates = dates;
    }

    /// The dates document together with the number of records held.
    pub fn info(&self) -> (r: ServerInfo)
        requires
            self.wf(),
        ensures
            r.index_dates == self.dates_spec(),
            r.index_count == self@.len(),
    {
        ServerInfo::new(self.dates, self.records.len())
    }
}

} // verus!
