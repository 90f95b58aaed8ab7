//! The records kept in the index and the small documents around them.
use vstd::prelude::*;

verus! {

/// The owner of a repository.
#[derive(Debug, Clone, PartialEq, Eq)]
pub struct User {
    pub id: u32,
    pub login: String,
}

/// The license a repository declares.
#[derive(Debug, Clone, PartialEq, Eq)]
pub struct License {
    pub key: Option<String>,
    pub spdx_id: Option<String>,
    pub name: Option<String>,
    pub url: Option<String>,
}

/// One starred repository as it is stored in the index.
///
/// `id` is its sole identity: upserts, removals and existence checks go by it,
/// and every other field is overwritten when the record is upserted again.
/// Times are milliseconds since the Unix epoch.
#[derive(Debug, Clone, PartialEq, Eq)]
pub struct Repository {
    pub id: u32,
    pub name: String,
    pub full_name: String,
    pub owner: User,
    pub description: Option<String>,
    pub fork: bool,
    pub url: String,
    pub html_url: String,
    pub created_at: i64,
    pub updated_at: i64,
    pub language: Option<String>,
    pub license: Option<License>,
    pub topics: Option<Vec<String>>,
    pub readme_content: Option<String>,
    pub disabled: bool,
}

/// One top-level entry of a repository's contents listing.
#[derive(Debug, Clone, PartialEq, Eq)]
pub struct ContentEntry {
    pub name: String,
    pub download_url: Option<String>,
}

/// The two moments at which a pass last completed, in milliseconds since the
/// Unix epoch; absent where no such pass has completed yet.
#[derive(Debug, Clone, Copy, PartialEq, Eq, Structural)]
pub struct IndexDates {
    pub last_fast_index: Option<i64>,
    pub last_full_index: Option<i64>,
}

/// The index dates together with the number of records in the index.
#[derive(Debug, Clone, Copy, PartialEq, Eq, Structural)]
pub struct ServerInfo {
    pub index_dates: IndexDates,
    pub index_count: usize,
}

/// Which kind of pass runs: `Fast` stops at the first record already indexed
/// and never removes anything; `Full` fetches everything and reconciles.
#[derive(Debug, Clone, Copy, PartialEq, Eq, Structural)]
pub enum ScrapeMode {
    Fast,
    Full,
}

impl IndexDates {
    /// The dates of an index on which no pass has completed.
    pub fn never() -> (r: IndexDates)
        ensures
            r.last_fast_index is None,
            r.last_full_index is None,
    {
        IndexDates { last_fast_index: None, last_full_index: None }
    }

    /// The dates after a pass of the given mode that completed at `now`.
    pub open spec fn advanced(self, mode: ScrapeMode, now: i64) -> IndexDates {
        IndexDates {
            last_fast_index: Some(now),
            last_full_index: if mode == ScrapeMode::Full {
                Some(now)
            } else {
                self.last_full_index
            },
        }
    }

    /// Records a pass of the given mode that completed at `now`: the fast date
    /// always moves to `now`, the full date only after a full pass.
    pub fn advance(self, mode: ScrapeMode, now: i64) -> (r: IndexDates)
        ensures
            r == self.advanced(mode, now),
    {
        let full = match mode {
            ScrapeMode::Full => Some(now),
            ScrapeMode::Fast => self.last_full_index,
        };
        IndexDates { last_fast_index: Some(now), last_full_index: full }
    }
}

impl ServerInfo {
    /// Combines the index dates with the current record count.
    pub fn new(index_dates: IndexDates, index_count: usize) -> (r: ServerInfo)
        ensures
            r.index_dates == index_dates,
            r.index_count == index_count,
    {
        ServerInfo { index_dates, index_count }
    }
}

/// `v` in reverse order.
pub(crate) fn reversed(v: Vec<Repository>) -> (r: Vec<Repository>)
    ensures
        r@ == v@.reverse(),
{
    let ghost all = v@;
    let mut v = v;
    let mut r: Vec<Repository> = Vec::new();
    while v.len() > 0
        invariant
            all == v@ + r@.reverse(),
        decreases v@.len(),
    {
        let ghost v0 = v@;
        let ghost r0 = r@;
        let rec = v.pop().unwrap();
        proof {
            assert(v@.push(rec) =~= v0);
        }
        r.push(rec);
        assert(r@.reverse() =~= seq![rec] + r0.reverse()) by {
            assert forall|k: int| 0 <= k < r@.len() implies r@.reverse()[k] == (seq![rec] + r0.reverse())[k] by {}
        }
        assert(all =~= v@ + r@.reverse());
    }
    assert(all =~= r@.reverse());
    assert(r@ =~= all.reverse()) by {
        assert forall|k: int| 0 <= k < r@.len() implies r@[k] == all.reverse()[k] by {
            assert(all[all.len() - 1 - k] == r@.reverse()[all.len() - 1 - k]);
        }
    }
    r
}

/// A fast pass moves the fast date to the moment it completes and leaves the
/// full date as it was; a full pass moves both.
pub proof fn lemma_dates_semantics(d: IndexDates, now: i64)
    ensures
        d.advanced(ScrapeMode::Fast, now).last_fast_index == Some(now),
        d.advanced(ScrapeMode::Fast, now).last_full_index == d.last_full_index,
        d.advanced(ScrapeMode::Full, now).last_fast_index == Some(now),
        d.advanced(ScrapeMode::Full, now).last_full_index == Some(now),
{
}

} // verus!
