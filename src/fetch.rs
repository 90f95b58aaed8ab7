//! Paginated fetching of the starred collection, with the early stop of a
//! fast pass.
use crate::model::{Repository, ScrapeMode};
use vstd::prelude::*;

verus! {

/// Past this many accumulated records pagination stops, whatever comes next.
pub const REPO_LIMIT: usize = 10_000;

/// What the driver of a [`StarredFetch`] does next.
#[derive(Debug, Clone, Copy, PartialEq, Eq, Structural)]
pub enum FetchAction {
    /// Fetch this page (numbered from 1) and hand it to `on_page`.
    FetchPage(u32),
    /// Ask the index whether it holds this id and hand the answer to
    /// `on_indexed`.
    CheckIndexed(u32),
    /// Pagination is over: take the records with `into_records`.
    Finished,
}

/// The abstract state of a [`StarredFetch`].
pub ghost struct FetchState {
    pub mode: ScrapeMode,
    /// The page asked for next (numbered from 1).
    pub page: nat,
    /// The records kept so far, in the order of the collection.
    pub fetched: Seq<Repository>,
    /// A fast pass's current page, whose records are checked one by one.
    pub pending: Seq<Repository>,
    /// How many records of `pending` were found not to be indexed yet.
    pub pos: nat,
    pub done: bool,
}

impl FetchState {
    pub open spec fn initial(mode: ScrapeMode) -> FetchState {
        FetchState { mode, page: 1, fetched: seq![], pending: seq![], pos: 0, done: false }
    }

    /// What the driver is asked to do in this state.
    pub open spec fn action(self) -> FetchAction {
        if self.done {
            FetchAction::Finished
        } else if self.pos < self.pending.len() {
            FetchAction::CheckIndexed(self.pending[self.pos as int].id)
        } else {
            FetchAction::FetchPage(self.page as u32)
        }
    }

    /// A whole page is kept: stop past the ceiling, else go on to the next page.
    pub open spec fn commit(self, page: Seq<Repository>) -> FetchState {
        let fetched = self.fetched + page;
        FetchState {
            fetched,
            pending: seq![],
            pos: 0,
            page: if fetched.len() > REPO_LIMIT { self.page } else { self.page + 1 },
            done: fetched.len() > REPO_LIMIT,
            ..self
        }
    }

    /// The state after the page asked for has come back.
    pub open spec fn after_page(self, page: Seq<Repository>) -> FetchState {
        if page.len() == 0 {
            FetchState { done: true, ..self }
        } else if self.mode == ScrapeMode::Full {
            self.commit(page)
        } else {
            FetchState { pending: page, pos: 0, ..self }
        }
    }

    /// The state after the index said whether it holds the record under check.
    /// The first record found ends pagination: only those before it are kept.
    pub open spec fn after_indexed(self, found: bool) -> FetchState {
        if found {
            FetchState {
                fetched: self.fetched + self.pending.take(self.pos as int),
                pending: seq![],
                pos: 0,
                done: true,
                ..self
            }
        } else if self.pos + 1 == self.pending.len() {
            self.commit(self.pending)
        } else {
            FetchState { pos: self.pos + 1, ..self }
        }
    }

    /// The bounds that keep page numbers and positions meaningful.
    pub open spec fn inv(self) -> bool {
        &&& self.page >= 1
        &&& self.pos <= self.pending.len()
        &&& self.pending.len() > 0 ==> self.pos < self.pending.len()
        &&& self.pending.len() > 0 ==> self.mode == ScrapeMode::Fast
        &&& !self.done ==> self.fetched.len() <= REPO_LIMIT
        &&& !self.done ==> self.page <= self.fetched.len() + 1
        &&& self.done ==> self.pending.len() == 0
    }
}

/// Page `n` (numbered from 1) of a collection split into `pages`; empty past
/// the end.
pub open spec fn page_at(pages: Seq<Seq<Repository>>, n: nat) -> Seq<Repository> {
    if 1 <= n <= pages.len() {
        pages[n - 1]
    } else {
        seq![]
    }
}

/// The state reached from `s` after at most `fuel` requests, each answered
/// from the collection `pages` and from the ids `indexed` holds.
pub open spec fn run(s: FetchState, pages: Seq<Seq<Repository>>, indexed: Set<u32>, fuel: nat) -> FetchState
    decreases fuel,
{
    if fuel == 0 || s.done {
        s
    } else if s.pos < s.pending.len() {
        run(s.after_indexed(indexed.contains(s.pending[s.pos as int].id)), pages, indexed, (fuel - 1) as nat)
    } else {
        run(s.after_page(page_at(pages, s.page)), pages, indexed, (fuel - 1) as nat)
    }
}

/// Requests taken to walk the first `q` pages of `pages` whole.
pub open spec fn steps(pages: Seq<Seq<Repository>>, q: nat) -> nat
    decreases q,
{
    if q == 0 {
        0
    } else {
        steps(pages, (q - 1) as nat) + pages[q - 1].len() + 1
    }
}

/// The state of a fast pass between pages: `q` pages walked, none stopped.
pub open spec fn between_pages(pages: Seq<Seq<Repository>>, q: nat) -> FetchState {
    FetchState {
        mode: ScrapeMode::Fast,
        page: q + 1,
        fetched: pages.take(q as int).flatten_alt(),
        pending: seq![],
        pos: 0,
        done: false,
    }
}

proof fn lemma_run_done(s: FetchState, pages: Seq<Seq<Repository>>, indexed: Set<u32>, fuel: nat)
    requires
        s.done,
    ensures
        run(s, pages, indexed, fuel) == s,
{
}

/// Checking a page's records from `s.pos` up to `k`, the first indexed one,
/// stops pagination with the records before `k` kept.
proof fn lemma_scan_to_hit(s: FetchState, pages: Seq<Seq<Repository>>, indexed: Set<u32>, k: int, fuel: nat)
    requires
        !s.done,
        s.mode == ScrapeMode::Fast,
        s.pos <= k < s.pending.len(),
        indexed.contains(s.pending[k].id),
        forall|j: int| s.pos <= j < k ==> !indexed.contains(#[trigger] s.pending[j].id),
    ensures
        run(s, pages, indexed, (fuel + (k - s.pos) + 1) as nat) == (FetchState {
            fetched: s.fetched + s.pending.take(k),
            pending: seq![],
            pos: 0,
            done: true,
            ..s
        }),
    decreases k - s.pos,
{
    let n = (fuel + (k - s.pos) + 1) as nat;
    if s.pos == k {
        lemma_run_done(s.after_indexed(true), pages, indexed, (n - 1) as nat);
    } else {
        let t = s.after_indexed(false);
        assert(t == FetchState { pos: s.pos + 1, ..s });
        lemma_scan_to_hit(t, pages, indexed, k, fuel);
    }
}

/// Checking the rest of a page none of whose records is indexed keeps the
/// whole page.
proof fn lemma_scan_to_end(s: FetchState, pages: Seq<Seq<Repository>>, indexed: Set<u32>, fuel: nat)
    requires
        !s.done,
        s.mode == ScrapeMode::Fast,
        s.pos < s.pending.len(),
        forall|j: int| s.pos <= j < s.pending.len() ==> !indexed.contains(#[trigger] s.pending[j].id),
    ensures
        run(s, pages, indexed, (fuel + (s.pending.len() - s.pos)) as nat) == run(s.commit(s.pending), pages, indexed, fuel),
    decreases s.pending.len() - s.pos,
{
    let t = s.after_indexed(false);
    if s.pos + 1 == s.pending.len() {
        assert(t == s.commit(s.pending));
    } else {
        assert(t == FetchState { pos: s.pos + 1, ..s });
        lemma_scan_to_end(t, pages, indexed, fuel);
    }
}

/// A fast pass walks whole pages while none of their records is indexed.
proof fn lemma_walk_pages(pages: Seq<Seq<Repository>>, indexed: Set<u32>, q: nat, fuel: nat)
    requires
        q <= pages.len(),
        forall|i: int| 0 <= i < q ==> (#[trigger] pages[i]).len() > 0,
        forall|i: int, j: int| 0 <= i < q && 0 <= j < pages[i].len() ==> !indexed.contains(#[trigger] pages[i][j].id),
        pages.take(q as int).flatten_alt().len() <= REPO_LIMIT,
    ensures
        run(FetchState::initial(ScrapeMode::Fast), pages, indexed, fuel + steps(pages, q)) == run(between_pages(pages, q), pages, indexed, fuel),
    decreases q,
{
    if q == 0 {
        assert(pages.take(0).flatten_alt() =~= seq![]);
        assert(FetchState::initial(ScrapeMode::Fast) == between_pages(pages, 0));
    } else {
        let p = (q - 1) as nat;
        let pg = pages[p as int];
        assert(pages.take(q as int).drop_last() =~= pages.take(p as int));
        assert(pages.take(q as int).flatten_alt() == pages.take(p as int).flatten_alt() + pg);
        assert forall|i: int| 0 <= i < p implies (#[trigger] pages[i]).len() > 0 by {}
        lemma_walk_pages(pages, indexed, p, fuel + pg.len() + 1);
        let s = between_pages(pages, p);
        assert(page_at(pages, s.page) == pg);
        let t = s.after_page(pg);
        assert(t == FetchState { pending: pg, pos: 0, ..s });
        assert forall|j: int| t.pos <= j < t.pending.len() implies !indexed.contains(#[trigger] t.pending[j].id) by {
            assert(!indexed.contains(pages[p as int][j].id));
        }
        lemma_scan_to_end(t, pages, indexed, fuel);
        assert(t.commit(t.pending) == between_pages(pages, q));
        assert(fuel + steps(pages, q) == (fuel + pg.len() + 1) + steps(pages, p));
        assert(run(s, pages, indexed, fuel + pg.len() + 1) == run(t, pages, indexed, fuel + pg.len()));
    }
}

/// Early stop of a fast pass: when the first record that the index already
/// holds is record `k` of page `p` (both counted from 0) of a collection whose
/// pages are all non-empty, the pass fetches exactly pages 1 to `p + 1`
/// (counted from 1) and keeps every record before that one, in order. The
/// ceiling on accumulated records must not have been passed before page `p`.
pub proof fn lemma_fast_early_stop(pages: Seq<Seq<Repository>>, indexed: Set<u32>, p: int, k: int)
    requires
        0 <= p < pages.len(),
        forall|i: int| 0 <= i < pages.len() ==> (#[trigger] pages[i]).len() > 0,
        0 <= k < pages[p].len(),
        indexed.contains(pages[p][k].id),
        forall|i: int, j: int| 0 <= i < p && 0 <= j < pages[i].len() ==> !indexed.contains(#[trigger] pages[i][j].id),
        forall|j: int| 0 <= j < k ==> !indexed.contains(#[trigger] pages[p][j].id),
        pages.take(p).flatten_alt().len() <= REPO_LIMIT,
    ensures
        run(FetchState::initial(ScrapeMode::Fast), pages, indexed, steps(pages, p as nat) + k as nat + 2) == (FetchState {
            mode: ScrapeMode::Fast,
            page: (p + 1) as nat,
            fetched: pages.take(p).flatten_alt() + pages[p].take(k),
            pending: seq![],
            pos: 0,
            done: true,
        }),
{
    lemma_walk_pages(pages, indexed, p as nat, k as nat + 2);
    let s = between_pages(pages, p as nat);
    let pg = pages[p];
    assert(page_at(pages, s.page) == pg);
    let t = s.after_page(pg);
    assert(t == FetchState { pending: pg, pos: 0, ..s });
    lemma_scan_to_hit(t, pages, indexed, k, 0);
}

/// Walks the pages of the starred collection. In a `Full` pass every page is
/// kept until an empty one; in a `Fast` pass each record is checked against
/// the index first, and the first one found there ends pagination.
pub struct StarredFetch {
    mode: ScrapeMode,
    page: u32,
    fetched: Vec<Repository>,
    pending: Vec<Repository>,
    pos: usize,
    done: bool,
}

impl View for StarredFetch {
    type V = FetchState;

    closed spec fn view(&self) -> FetchState {
        FetchState {
            mode: self.mode,
            page: self.page as nat,
            fetched: self.fetched@,
            pending: self.pending@,
            pos: self.pos as nat,
            done: self.done,
        }
    }
}

impl StarredFetch {
    pub open spec fn wf(&self) -> bool {
        self@.inv()
    }

    /// Starts at page 1 with nothing fetched.
    pub fn new(mode: ScrapeMode) -> (r: StarredFetch)
        ensures
            r@ == FetchState::initial(mode),
            r.wf(),
    {
        StarredFetch {
            mode,
            page: 1,
            fetched: Vec::new(),
            pending: Vec::new(),
            pos: 0,
            done: false,
        }
    }

    /// What to do next.
    pub fn next_action(&self) -> (r: FetchAction)
        requires
            self.wf(),
        ensures
            r == self@.action(),
    {
        if self.done {
            FetchAction::Finished
        } else if self.pos < self.pending.len() {
            FetchAction::CheckIndexed(self.pending[self.pos].id)
        } else {
            FetchAction::FetchPage(self.page)
        }
    }

    fn commit(&mut self, mut page: Vec<Repository>)
        requires
            old(self).wf(),
            !old(self)@.done,
            page@.len() > 0,
            old(self)@.pending.len() == 0 || page@ == old(self)@.pending,
        ensures
            final(self)@ == old(self)@.commit(page@),
            final(self).wf(),
    {
        self.fetched.append(&mut page);
        self.pending = Vec::new();
        self.pos = 0;
        if self.fetched.len() > REPO_LIMIT {
            self.done = true;
        } else {
            self.page = self.page + 1;
        }
    }

    /// Takes the page that `FetchPage` asked for.
    pub fn on_page(&mut self, page: Vec<Repository>)
        requires
            old(self).wf(),
            old(self)@.action() is FetchPage,
        ensures
            final(self)@ == old(self)@.after_page(page@),
            final(self).wf(),
    {
        if page.len() == 0 {
            self.done = true;
        } else if self.mode == ScrapeMode::Full {
            self.commit(page);
        } else {
            self.pending = page;
            self.pos = 0;
        }
    }

    /// Takes the index's answer to `CheckIndexed`.
    pub fn on_indexed(&mut self, found: bool)
        requires
            old(self).wf(),
            old(self)@.action() is CheckIndexed,
        ensures
            final(self)@ == old(self)@.after_indexed(found),
            final(self).wf(),
    {
        let n = self.pending.len();
        if found {
            self.pending.truncate(self.pos);
            self.fetched.append(&mut self.pending);
            self.pending = Vec::new();
            self.pos = 0;
            self.done = true;
        } else if self.pos + 1 == n {
            let mut page: Vec<Repository> = Vec::new();
            std::mem::swap(&mut page, &mut self.pending);
            self.pos = 0;
            self.commit(page);
        } else {
            self.pos = self.pos + 1;
        }
    }

    /// Once pagination is over, hands out the records kept, in the order of
    /// the collection, and keeps none.
    pub fn take_records(&mut self) -> (r: Vec<Repository>)
        requires
            old(self).wf(),
            old(self)@.done,
        ensures
            r@ == old(self)@.fetched,
            final(self)@ == (FetchState { fetched: seq![], ..old(self)@ }),
            final(self).wf(),
    {
        let mut r: Vec<Repository> = Vec::new();
        std::mem::swap(&mut r, &mut self.fetched);
        r
    }

    /// The records kept, in the order of the collection.
    pub fn into_records(self) -> (r: Vec<Repository>)
        ensures
            r@ == self@.fetched,
    {
        self.fetched
    }
}

} // verus!
