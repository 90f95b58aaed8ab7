//! One synchronization pass: fetch, enrich, upsert, reconcile (full passes
//! only) and record the pass's date, as a machine that asks its driver for
//! each outside request and takes the answers back.
use crate::clock::now_millis;
use crate::fetch::{FetchAction, FetchState, StarredFetch};
use crate::index::{ids_of, ids_seq, lemma_reconcile_exact, stale_ids, stale_of, upsert_all};
use crate::model::{reversed, ContentEntry, IndexDates, Repository, ScrapeMode};
use crate::readme::{default_readme_url_of, ReadmeLookup, ReadmeRequest};
use vstd::prelude::*;

verus! {

/// The records of `recs` that are not disabled, in order.
pub open spec fn enabled(recs: Seq<Repository>) -> Seq<Repository> {
    recs.filter(|r: Repository| !r.disabled)
}

/// No record that `enabled` keeps is disabled.
pub proof fn lemma_enabled_only(recs: Seq<Repository>)
    ensures
        forall|k: int| 0 <= k < enabled(recs).len() ==> !(#[trigger] enabled(recs)[k]).disabled,
    decreases recs.len(),
{
    if recs.len() > 0 {
        lemma_enabled_only(recs.drop_last());
    }
}

/// A record with its readme set to `content`.
pub open spec fn with_readme(rec: Repository, content: Option<String>) -> Repository {
    Repository { readme_content: content, ..rec }
}

/// Where a pass stands.
#[derive(Debug, Clone, Copy, PartialEq, Eq, Structural)]
pub enum PassStage {
    Fetching,
    Enriching,
    Upserting,
    Reconciling,
    Removing,
    Dating,
    Writing,
    Finished,
}

/// What the driver of a [`SyncPass`] does next, and which method takes the
/// answer.
#[derive(Debug)]
pub enum PassRequest {
    /// Fetch this page of the starred collection: `on_page`.
    FetchPage(u32),
    /// Ask the index whether it holds this id: `on_indexed`.
    CheckIndexed(u32),
    /// Fetch the body at this address, absent on a non-success status:
    /// `on_text`, or `on_enrich_failed` on a transport error.
    FetchText(String),
    /// List the top-level contents of `owner/repo`: `on_contents`, or
    /// `on_enrich_failed` on a transport error.
    ListContents(String, String),
    /// Upsert this batch into the index: `on_upserted`.
    Upsert(Vec<Repository>),
    /// Read every id the index holds: `on_ids`.
    ListIds,
    /// Remove these ids from the index: `on_removed`.
    Remove(Vec<u32>),
    /// Read the dates document: `on_dates`.
    ReadDates,
    /// Write this dates document: `on_written`.
    WriteDates(IndexDates),
    /// The pass is complete.
    Done,
}

/// The abstract state of a [`SyncPass`].
pub ghost struct PassState {
    pub mode: ScrapeMode,
    pub batch_size: nat,
    pub stage: PassStage,
    pub fetch: FetchState,
    /// While enriching: the enabled records, readmes resolved before `next`.
    /// While upserting: the records not handed out yet.
    pub records: Seq<Repository>,
    pub next: nat,
    pub lookup: ReadmeLookup,
    /// The batch handed out last.
    pub batch: Seq<Repository>,
    /// The records handed out in earlier batches.
    pub sent: Seq<Repository>,
    /// The ids of every record that the pass upserts.
    pub fetched_ids: Seq<u32>,
    pub stale: Seq<u32>,
    pub dates: IndexDates,
}

impl PassState {
    pub open spec fn initial(mode: ScrapeMode, batch_size: nat) -> PassState {
        PassState {
            mode,
            batch_size,
            stage: PassStage::Fetching,
            fetch: FetchState::initial(mode),
            records: seq![],
            next: 0,
            lookup: ReadmeLookup::Direct,
            batch: seq![],
            sent: seq![],
            fetched_ids: seq![],
            stale: seq![],
            dates: IndexDates { last_fast_index: None, last_full_index: None },
        }
    }

    /// Once every batch is upserted: reconcile after a full pass, else go on to
    /// the dates.
    pub open spec fn after_upserts(self) -> PassState {
        PassState {
            stage: if self.mode == ScrapeMode::Full { PassStage::Reconciling } else { PassStage::Dating },
            batch: seq![],
            ..self
        }
    }

    /// Hands out the next batch of at most `batch_size` records, if any is left.
    pub open spec fn next_batch(self) -> PassState {
        if self.records.len() == 0 {
            self.after_upserts()
        } else {
            let n = if self.records.len() < self.batch_size { self.records.len() } else { self.batch_size };
            PassState {
                stage: PassStage::Upserting,
                batch: self.records.take(n as int),
                records: self.records.skip(n as int),
                ..self
            }
        }
    }

    /// Enriches the record at `next`, or starts upserting once all are done.
    pub open spec fn enrich_next(self) -> PassState {
        if self.next < self.records.len() {
            PassState { stage: PassStage::Enriching, lookup: ReadmeLookup::Direct, ..self }
        } else {
            PassState { fetched_ids: ids_seq(self.records), sent: seq![], ..self }.next_batch()
        }
    }

    /// Once pagination is over, the enabled records go on to enrichment.
    pub open spec fn after_fetch(self) -> PassState {
        if self.fetch.done {
            PassState {
                records: enabled(self.fetch.fetched),
                next: 0,
                fetch: FetchState { fetched: seq![], ..self.fetch },
                ..self
            }.enrich_next()
        } else {
            self
        }
    }

    pub open spec fn on_page(self, page: Seq<Repository>) -> PassState {
        PassState { fetch: self.fetch.after_page(page), ..self }.after_fetch()
    }

    pub open spec fn on_indexed(self, found: bool) -> PassState {
        PassState { fetch: self.fetch.after_indexed(found), ..self }.after_fetch()
    }

    /// The record at `next` gets `content` as its readme; on to the next one.
    pub open spec fn finish_record(self, content: Option<String>) -> PassState {
        PassState {
            records: self.records.update(self.next as int, with_readme(self.records[self.next as int], content)),
            next: self.next + 1,
            lookup: ReadmeLookup::Direct,
            ..self
        }.enrich_next()
    }

    pub open spec fn with_lookup(self, lookup: ReadmeLookup) -> PassState {
        match lookup {
            ReadmeLookup::Resolved(content) => self.finish_record(content),
            _ => PassState { lookup, ..self },
        }
    }

    pub open spec fn on_text(self, body: Option<String>) -> PassState {
        self.with_lookup(self.lookup.after_fetched(body))
    }

    pub open spec fn on_contents(self, entries: Seq<ContentEntry>) -> PassState {
        self.with_lookup(self.lookup.after_listed(entries))
    }

    /// A transport error while enriching leaves that record without a readme.
    pub open spec fn on_enrich_failed(self) -> PassState {
        self.finish_record(None)
    }

    pub open spec fn on_upserted(self) -> PassState {
        PassState { sent: self.sent + self.batch, batch: seq![], ..self }.next_batch()
    }

    /// The stored ids that this pass did not fetch are removed, if any.
    pub open spec fn on_ids(self, stored: Seq<u32>) -> PassState {
        let stale = stale_of(stored, self.fetched_ids);
        PassState {
            stale,
            stage: if stale.len() == 0 { PassStage::Dating } else { PassStage::Removing },
            ..self
        }
    }

    pub open spec fn on_removed(self) -> PassState {
        PassState { stage: PassStage::Dating, ..self }
    }

    pub open spec fn on_dates(self, dates: IndexDates, now: i64) -> PassState {
        PassState { stage: PassStage::Writing, dates: dates.advanced(self.mode, now), ..self }
    }

    pub open spec fn on_written(self) -> PassState {
        PassState { stage: PassStage::Finished, ..self }
    }

    /// Whether `r` is what the driver is asked to do in this state.
    pub open spec fn requests(self, r: PassRequest) -> bool {
        match self.stage {
            PassStage::Fetching => match self.fetch.action() {
                FetchAction::FetchPage(n) => r == PassRequest::FetchPage(n),
                FetchAction::CheckIndexed(id) => r == PassRequest::CheckIndexed(id),
                FetchAction::Finished => false,
            },
            PassStage::Enriching => {
                let rec = self.records[self.next as int];
                match self.lookup {
                    ReadmeLookup::Direct => r is FetchText && r->FetchText_0@ == default_readme_url_of(rec.owner.login@, rec.name@),
                    ReadmeLookup::Listing => r is ListContents && r->ListContents_0 == rec.owner.login && r->ListContents_1 == rec.name,
                    ReadmeLookup::Download(url) => r == PassRequest::FetchText(url),
                    ReadmeLookup::Resolved(_) => false,
                }
            },
            PassStage::Upserting => r is Upsert && r->Upsert_0@ == self.batch,
            PassStage::Reconciling => r is ListIds,
            PassStage::Removing => r is Remove && r->Remove_0@ == self.stale,
            PassStage::Dating => r is ReadDates,
            PassStage::Writing => r == PassRequest::WriteDates(self.dates),
            PassStage::Finished => r is Done,
        }
    }

    /// The bounds that each stage keeps.
    pub open spec fn inv(self) -> bool {
        &&& self.batch_size >= 1
        &&& self.fetch.inv()
        &&& self.fetch.mode == self.mode
        &&& self.stage == PassStage::Fetching ==> !self.fetch.done
        &&& self.stage == PassStage::Enriching ==> {
            &&& self.next < self.records.len()
            &&& !(self.lookup is Resolved)
        }
        &&& self.stage == PassStage::Upserting ==> self.batch.len() > 0
        &&& self.no_disabled()
        &&& self.stage != PassStage::Fetching && self.stage != PassStage::Enriching
            ==> self.fetched_ids == ids_seq(self.sent + self.batch + self.records)
        &&& self.stage != PassStage::Fetching && self.stage != PassStage::Enriching && self.stage != PassStage::Upserting
            ==> self.batch.len() == 0 && self.records.len() == 0
        &&& (self.stage == PassStage::Fetching || self.stage == PassStage::Enriching) ==> self.batch.len() == 0
    }

    /// No record held or handed out is disabled.
    pub open spec fn no_disabled(self) -> bool {
        &&& forall|k: int| 0 <= k < self.records.len() ==> !(#[trigger] self.records[k]).disabled
        &&& forall|k: int| 0 <= k < self.batch.len() ==> !(#[trigger] self.batch[k]).disabled
    }
}

/// The records of `recs` that are not disabled, in order.
pub fn keep_enabled(recs: Vec<Repository>) -> (r: Vec<Repository>)
    ensures
        r@ == enabled(recs@),
{
    let ghost all = recs@;
    let mut rest = reversed(recs);
    let mut out: Vec<Repository> = Vec::new();
    proof {
        assert(rest@.reverse() =~= all) by {
            assert forall|k: int| 0 <= k < all.len() implies rest@.reverse()[k] == all[k] by {}
        }
        assert(all.take(0) =~= seq![]);
    }
    while rest.len() > 0
        invariant
            all.len() >= rest@.len(),
            all =~= all.take(all.len() - rest@.len()) + rest@.reverse(),
            out@ == enabled(all.take(all.len() - rest@.len())),
        decreases rest@.len(),
    {
        let ghost done = all.take(all.len() - rest@.len());
        let ghost rest0 = rest@;
        let rec = rest.pop().unwrap();
        let ghost next = all.take(all.len() - rest@.len());
        proof {
            assert(rest0 =~= rest@.push(rec));
            assert(rest0.reverse() =~= seq![rec] + rest@.reverse()) by {
                assert forall|k: int| 0 <= k < rest0.len() implies rest0.reverse()[k] == (seq![rec] + rest@.reverse())[k] by {}
            }
            assert(next =~= done.push(rec)) by {
                assert(all[done.len() as int] == rec);
            }
            assert(next.drop_last() =~= done);
            assert(next.last() == rec);
            assert(enabled(next) == if rec.disabled { enabled(done) } else { enabled(done).push(rec) }) by {
                reveal_with_fuel(Seq::filter, 1);
            }
            assert(all =~= next + rest@.reverse());
        }
        if !rec.disabled {
            out.push(rec);
        }
    }
    assert(all.take(all.len() as int) =~= all);
    out
}

/// The ids of `recs`, in order.
pub fn record_ids(recs: &Vec<Repository>) -> (r: Vec<u32>)
    ensures
        r@ == ids_seq(recs@),
{
    let mut r: Vec<u32> = Vec::new();
    let mut i: usize = 0;
    while i < recs.len()
        invariant
            i <= recs@.len(),
            r@ == ids_seq(recs@.take(i as int)),
        decreases recs@.len() - i,
    {
        r.push(recs[i].id);
        assert(ids_seq(recs@.take(i + 1)) =~= ids_seq(recs@.take(i as int)).push(recs@[i as int].id));
        i = i + 1;
    }
    assert(recs@.take(i as int) =~= recs@);
    r
}

/// A record whose readme could not be had stays in the pass: it goes on,
/// without a readme, to the records that are upserted.
pub proof fn lemma_record_kept_without_readme(s: PassState)
    requires
        s.inv(),
        s.stage == PassStage::Enriching,
    ensures
        ({
            let t = s.on_enrich_failed();
            let kept = s.records.update(s.next as int, with_readme(s.records[s.next as int], None));
            &&& t.stage == PassStage::Enriching ==> t.records == kept
            &&& t.stage != PassStage::Enriching ==> t.batch + t.records == kept
        }),
{
    let t = s.on_enrich_failed();
    let kept = s.records.update(s.next as int, with_readme(s.records[s.next as int], None));
    if t.stage != PassStage::Enriching {
        assert(t.batch + t.records =~= kept);
    }
}

/// Every batch that a pass hands out to be upserted holds enabled records
/// only.
pub proof fn lemma_batches_enabled(s: PassState)
    requires
        s.inv(),
        s.stage == PassStage::Upserting,
    ensures
        forall|k: int| 0 <= k < s.batch.len() ==> !(#[trigger] s.batch[k]).disabled,
{
}

/// Reconciliation at the end of a full pass: once its batches (`s.sent`) are
/// upserted, in order, into a store that held anything at all (`m`), and the
/// stale ids among those that the store then lists (`stored`) are removed,
/// the store holds exactly the ids of the records that the pass fetched.
pub proof fn lemma_pass_reconciles(s: PassState, m: Map<u32, Repository>, stored: Seq<u32>)
    requires
        s.inv(),
        s.stage == PassStage::Reconciling,
        forall|id: u32| stored.contains(id) <==> upsert_all(m, s.sent).contains_key(id),
    ensures
        s.on_ids(stored).stale == stale_of(stored, ids_seq(s.sent)),
        upsert_all(m, s.sent).remove_keys(s.on_ids(stored).stale.to_set()).dom() == ids_of(s.sent),
{
    assert(s.sent + s.batch + s.records =~= s.sent);
    lemma_reconcile_exact(m, s.sent, stored);
}

/// One synchronization pass. Each method takes the answer to the request
/// made last and returns the next request; the pass is complete once it
/// returns `Done`. A failure on any request other than an enrichment request
/// aborts the pass: the driver drops it, and the dates are not advanced.
pub struct SyncPass {
    mode: ScrapeMode,
    batch_size: usize,
    stage: PassStage,
    fetch: StarredFetch,
    records: Vec<Repository>,
    next: usize,
    lookup: ReadmeLookup,
    batch: Ghost<Seq<Repository>>,
    sent: Ghost<Seq<Repository>>,
    fetched_ids: Vec<u32>,
    stale: Ghost<Seq<u32>>,
    dates: IndexDates,
}

impl View for SyncPass {
    type V = PassState;

    closed spec fn view(&self) -> PassState {
        PassState {
            mode: self.mode,
            batch_size: self.batch_size as nat,
            stage: self.stage,
            fetch: self.fetch@,
            records: self.records@,
            next: self.next as nat,
            lookup: self.lookup,
            batch: self.batch@,
            sent: self.sent@,
            fetched_ids: self.fetched_ids@,
            stale: self.stale@,
            dates: self.dates,
        }
    }
}

impl SyncPass {
    pub open spec fn wf(&self) -> bool {
        self@.inv()
    }

    /// A pass of the given mode that upserts in batches of at most
    /// `batch_size` records, and its first request: page 1.
    pub fn new(mode: ScrapeMode, batch_size: usize) -> (r: (SyncPass, PassRequest))
        requires
            batch_size >= 1,
        ensures
            r.0@ == PassState::initial(mode, batch_size as nat),
            r.0.wf(),
            r.0@.requests(r.1),
    {
        let pass = SyncPass {
            mode,
            batch_size,
            stage: PassStage::Fetching,
            fetch: StarredFetch::new(mode),
            records: Vec::new(),
            next: 0,
            lookup: ReadmeLookup::new(),
            batch: Ghost(Seq::empty()),
            sent: Ghost(Seq::empty()),
            fetched_ids: Vec::new(),
            stale: Ghost(Seq::empty()),
            dates: IndexDates::never(),
        };
        (pass, PassRequest::FetchPage(1))
    }

    fn next_batch(&mut self) -> (r: PassRequest)
        requires
            old(self).wf() || old(self).stage == PassStage::Upserting || old(self).stage == PassStage::Enriching,
            old(self)@.batch_size >= 1,
            old(self)@.fetch.inv(),
            old(self)@.fetch.mode == old(self)@.mode,
            old(self)@.no_disabled(),
            old(self)@.batch.len() == 0,
            old(self)@.fetched_ids == ids_seq(old(self)@.sent + old(self)@.records),
        ensures
            final(self)@ == old(self)@.next_batch(),
            final(self).wf(),
            final(self)@.requests(r),
    {
        if self.records.len() == 0 {
            assert(self.sent@ + self.batch@ + self.records@ =~= old(self).sent@ + old(self).records@);
            self.batch = Ghost(Seq::empty());
            if self.mode == ScrapeMode::Full {
                self.stage = PassStage::Reconciling;
                PassRequest::ListIds
            } else {
                self.stage = PassStage::Dating;
                PassRequest::ReadDates
            }
        } else {
            let n = if self.records.len() < self.batch_size { self.records.len() } else { self.batch_size };
            let rest = self.records.split_off(n);
            let mut batch = rest;
            std::mem::swap(&mut batch, &mut self.records);
            self.batch = Ghost(batch@);
            self.stage = PassStage::Upserting;
            assert(self.sent@ + self.batch@ + self.records@ =~= old(self).sent@ + old(self).records@);
            PassRequest::Upsert(batch)
        }
    }

    fn enrich_request(&self) -> (r: PassRequest)
        requires
            self.wf(),
            self.stage == PassStage::Enriching,
        ensures
            self@.requests(r),
    {
        let rec = &self.records[self.next];
        match self.lookup.request(rec.owner.login.as_str(), rec.name.as_str()) {
            ReadmeRequest::FetchText(url) => PassRequest::FetchText(url),
            _ => PassRequest::ListContents(rec.owner.login.clone(), rec.name.clone()),
        }
    }

    fn enrich_next(&mut self) -> (r: PassRequest)
        requires
            old(self)@.batch_size >= 1,
            old(self)@.fetch.inv(),
            old(self)@.fetch.mode == old(self)@.mode,
            old(self).next <= old(self).records@.len(),
            old(self)@.no_disabled(),
            old(self)@.batch.len() == 0,
        ensures
            final(self)@ == old(self)@.enrich_next(),
            final(self).wf(),
            final(self)@.requests(r),
    {
        if self.next < self.records.len() {
            self.stage = PassStage::Enriching;
            self.lookup = ReadmeLookup::new();
            self.enrich_request()
        } else {
            self.fetched_ids = record_ids(&self.records);
            self.sent = Ghost(Seq::empty());
            assert(self.sent@ + self.records@ =~= self.records@);
            self.stage = PassStage::Enriching;
            self.next_batch()
        }
    }

    fn after_fetch(&mut self) -> (r: PassRequest)
        requires
            old(self)@.batch_size >= 1,
            old(self)@.fetch.inv(),
            old(self)@.fetch.mode == old(self)@.mode,
            old(self).stage == PassStage::Fetching,
            old(self)@.no_disabled(),
            old(self)@.batch.len() == 0,
        ensures
            final(self)@ == old(self)@.after_fetch(),
            final(self).wf(),
            final(self)@.requests(r),
    {
        match self.fetch.next_action() {
            FetchAction::FetchPage(n) => PassRequest::FetchPage(n),
            FetchAction::CheckIndexed(id) => PassRequest::CheckIndexed(id),
            FetchAction::Finished => {
                let fetched = self.fetch.take_records();
                self.records = keep_enabled(fetched);
                proof {
                    lemma_enabled_only(fetched@);
                }
                self.next = 0;
                self.enrich_next()
            },
        }
    }

    /// Takes the page that `FetchPage` asked for.
    pub fn on_page(&mut self, page: Vec<Repository>) -> (r: PassRequest)
        requires
            old(self).wf(),
            old(self)@.stage == PassStage::Fetching,
            old(self)@.fetch.action() is FetchPage,
        ensures
            final(self)@ == old(self)@.on_page(page@),
            final(self).wf(),
            final(self)@.requests(r),
    {
        self.fetch.on_page(page);
        self.after_fetch()
    }

    /// Takes the index's answer to `CheckIndexed`.
    pub fn on_indexed(&mut self, found: bool) -> (r: PassRequest)
        requires
            old(self).wf(),
            old(self)@.stage == PassStage::Fetching,
            old(self)@.fetch.action() is CheckIndexed,
        ensures
            final(self)@ == old(self)@.on_indexed(found),
            final(self).wf(),
            final(self)@.requests(r),
    {
        self.fetch.on_indexed(found);
        self.after_fetch()
    }

    fn finish_record(&mut self, content: Option<String>) -> (r: PassRequest)
        requires
            old(self).wf(),
            old(self)@.stage == PassStage::Enriching,
        ensures
            final(self)@ == old(self)@.finish_record(content),
            final(self).wf(),
            final(self)@.requests(r),
    {
        let i = self.next;
        let n = self.records.len();
        assert(i < n);
        self.records[i].readme_content = content;
        self.next = i + 1;
        self.lookup = ReadmeLookup::new();
        self.enrich_next()
    }

    fn with_lookup(&mut self, lookup: ReadmeLookup) -> (r: PassRequest)
        requires
            old(self).wf(),
            old(self)@.stage == PassStage::Enriching,
        ensures
            final(self)@ == old(self)@.with_lookup(lookup),
            final(self).wf(),
            final(self)@.requests(r),
    {
        match lookup {
            ReadmeLookup::Resolved(content) => self.finish_record(content),
            _ => {
                self.lookup = lookup;
                self.enrich_request()
            },
        }
    }

    /// Takes the body that `FetchText` brought, absent on a non-success
    /// status.
    pub fn on_text(&mut self, body: Option<String>) -> (r: PassRequest)
        requires
            old(self).wf(),
            old(self)@.stage == PassStage::Enriching,
            old(self)@.lookup is Direct || old(self)@.lookup is Download,
        ensures
            final(self)@ == old(self)@.on_text(body),
            final(self).wf(),
            final(self)@.requests(r),
    {
        let mut lookup = ReadmeLookup::Listing;
        std::mem::swap(&mut lookup, &mut self.lookup);
        let lookup = lookup.on_fetched(body);
        self.with_lookup(lookup)
    }

    /// Takes the listing that `ListContents` brought.
    pub fn on_contents(&mut self, entries: Vec<ContentEntry>) -> (r: PassRequest)
        requires
            old(self).wf(),
            old(self)@.stage == PassStage::Enriching,
            old(self)@.lookup is Listing,
        ensures
            final(self)@ == old(self)@.on_contents(entries@),
            final(self).wf(),
            final(self)@.requests(r),
    {
        let lookup = ReadmeLookup::Listing.on_listed(&entries);
        self.with_lookup(lookup)
    }

    /// Takes a transport error on an enrichment request: the record keeps no
    /// readme and the pass goes on with the next one.
    pub fn on_enrich_failed(&mut self) -> (r: PassRequest)
        requires
            old(self).wf(),
            old(self)@.stage == PassStage::Enriching,
        ensures
            final(self)@ == old(self)@.on_enrich_failed(),
            final(self).wf(),
            final(self)@.requests(r),
    {
        self.finish_record(None)
    }

    /// Takes the acknowledgement of an `Upsert`.
    pub fn on_upserted(&mut self) -> (r: PassRequest)
        requires
            old(self).wf(),
            old(self)@.stage == PassStage::Upserting,
        ensures
            final(self)@ == old(self)@.on_upserted(),
            final(self).wf(),
            final(self)@.requests(r),
    {
        self.sent = Ghost(self.sent@ + self.batch@);
        self.batch = Ghost(Seq::empty());
        assert(self.sent@ + self.records@ =~= old(self).sent@ + old(self).batch@ + old(self).records@);
        self.next_batch()
    }

    /// Takes every id that the index holds, in answer to `ListIds`.
    pub fn on_ids(&mut self, stored: Vec<u32>) -> (r: PassRequest)
        requires
            old(self).wf(),
            old(self)@.stage == PassStage::Reconciling,
        ensures
            final(self)@ == old(self)@.on_ids(stored@),
            final(self).wf(),
            final(self)@.requests(r),
    {
        let stale = stale_ids(&stored, &self.fetched_ids);
        self.stale = Ghost(stale@);
        if stale.len() == 0 {
            self.stage = PassStage::Dating;
            PassRequest::ReadDates
        } else {
            self.stage = PassStage::Removing;
            PassRequest::Remove(stale)
        }
    }

    /// Takes the acknowledgement of a `Remove`.
    pub fn on_removed(&mut self) -> (r: PassRequest)
        requires
            old(self).wf(),
            old(self)@.stage == PassStage::Removing,
        ensures
            final(self)@ == old(self)@.on_removed(),
            final(self).wf(),
            final(self)@.requests(r),
    {
        self.stage = PassStage::Dating;
        PassRequest::ReadDates
    }

    /// Takes the dates document that `ReadDates` brought, with `now` as the
    /// moment the pass completes.
    pub fn on_dates_at(&mut self, dates: IndexDates, now: i64) -> (r: PassRequest)
        requires
            old(self).wf(),
            old(self)@.stage == PassStage::Dating,
        ensures
            final(self)@ == old(self)@.on_dates(dates, now),
            final(self).wf(),
            final(self)@.requests(r),
    {
        self.dates = dates.advance(self.mode, now);
        self.stage = PassStage::Writing;
        PassRequest::WriteDates(self.dates)
    }

    /// Takes the dates document that `ReadDates` brought; the pass completes
    /// now, by the local clock.
    pub fn on_dates(&mut self, dates: IndexDates) -> (r: PassRequest)
        requires
            old(self).wf(),
            old(self)@.stage == PassStage::Dating,
        ensures
            exists|now: i64| final(self)@ == old(self)@.on_dates(dates, now),
            final(self).wf(),
            final(self)@.requests(r),
    {
        let now = now_millis();
        self.on_dates_at(dates, now)
    }

    /// Takes the acknowledgement of `WriteDates`: the pass is complete.
    pub fn on_written(&mut self) -> (r: PassRequest)
        requires
            old(self).wf(),
            old(self)@.stage == PassStage::Writing,
        ensures
            final(self)@ == old(self)@.on_written(),
            final(self).wf(),
            final(self)@.requests(r),
    {
        self.stage = PassStage::Finished;
        PassRequest::Done
    }

    /// Where the pass stands.
    pub fn stage(&self) -> (r: PassStage)
        ensures
            r == self@.stage,
    {
        self.stage
    }
}

} // verus!
