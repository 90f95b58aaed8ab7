use starsearch::fetch::{FetchAction, StarredFetch, REPO_LIMIT};
use starsearch::index::MemoryIndex;
use starsearch::model::{ContentEntry, IndexDates, Repository, ScrapeMode, User};
use starsearch::sync::{keep_enabled, record_ids, PassRequest, PassStage, SyncPass};
use std::collections::HashMap;

fn repo(id: u32, disabled: bool) -> Repository {
    Repository {
        id,
        name: format!("repo{id}"),
        full_name: format!("owner{id}/repo{id}"),
        owner: User { id: 1000 + id, login: format!("owner{id}") },
        description: Some(format!("description {id}")),
        fork: false,
        url: format!("https://api.example/repos/owner{id}/repo{id}"),
        html_url: format!("https://example/owner{id}/repo{id}"),
        created_at: 1_600_000_000_000,
        updated_at: 1_700_000_000_000 + id as i64,
        language: Some("Rust".to_string()),
        license: None,
        topics: Some(vec!["search".to_string()]),
        readme_content: None,
        disabled,
    }
}

/// A remote collection: its pages, the bodies behind addresses, and the
/// listings of repositories.
#[derive(Default)]
struct Remote {
    pages: Vec<Vec<Repository>>,
    texts: HashMap<String, String>,
    listings: HashMap<(String, String), Vec<ContentEntry>>,
    failing: Vec<String>,
}

/// What a pass asked for.
#[derive(Default, Debug)]
struct Trace {
    pages: Vec<u32>,
    batches: Vec<usize>,
    removed: Vec<u32>,
}

fn drive(store: &mut MemoryIndex, remote: &Remote, mode: ScrapeMode, batch_size: usize, now: i64) -> Trace {
    let mut trace = Trace::default();
    let (mut pass, mut req) = SyncPass::new(mode, batch_size);
    loop {
        req = match req {
            PassRequest::FetchPage(n) => {
                trace.pages.push(n);
                let page = remote.pages.get(n as usize - 1).cloned().unwrap_or_default();
                pass.on_page(page)
            }
            PassRequest::CheckIndexed(id) => pass.on_indexed(store.contains(id)),
            PassRequest::FetchText(url) => {
                if remote.failing.contains(&url) {
                    pass.on_enrich_failed()
                } else {
                    pass.on_text(remote.texts.get(&url).cloned())
                }
            }
            PassRequest::ListContents(owner, repo) => {
                let entries = remote.listings.get(&(owner, repo)).cloned().unwrap_or_default();
                pass.on_contents(entries)
            }
            PassRequest::Upsert(batch) => {
                trace.batches.push(batch.len());
                store.upsert_batch(batch);
                pass.on_upserted()
            }
            PassRequest::ListIds => pass.on_ids(store.list_ids()),
            PassRequest::Remove(ids) => {
                trace.removed.extend(ids.iter().copied());
                store.remove(&ids);
                pass.on_removed()
            }
            PassRequest::ReadDates => pass.on_dates_at(store.get_metadata(), now),
            PassRequest::WriteDates(dates) => {
                store.set_metadata(dates);
                pass.on_written()
            }
            PassRequest::Done => break,
        };
    }
    assert_eq!(pass.stage(), PassStage::Finished);
    trace
}

fn sorted_ids(store: &MemoryIndex) -> Vec<u32> {
    let mut ids = store.list_ids();
    ids.sort();
    ids
}

#[test]
fn full_pass_indexes_then_removes_unstarred() {
    let mut store = MemoryIndex::new();
    let mut remote = Remote::default();
    remote.pages = vec![vec![repo(1, false)]];
    drive(&mut store, &remote, ScrapeMode::Full, 5, 1_000);
    assert_eq!(sorted_ids(&store), vec![1]);
    assert_eq!(store.get_metadata(), IndexDates { last_fast_index: Some(1_000), last_full_index: Some(1_000) });

    remote.pages = vec![];
    let trace = drive(&mut store, &remote, ScrapeMode::Full, 5, 2_000);
    assert_eq!(trace.removed, vec![1]);
    assert!(store.list_ids().is_empty());
    assert_eq!(store.count(), 0);
}

#[test]
fn full_pass_twice_leaves_records_unchanged() {
    let mut store = MemoryIndex::new();
    let mut remote = Remote::default();
    remote.pages = vec![vec![repo(1, false), repo(2, false)], vec![repo(3, false)]];
    remote.texts.insert(
        "https://raw.githubusercontent.com/owner2/repo2/master/README.md".to_string(),
        "two".to_string(),
    );
    drive(&mut store, &remote, ScrapeMode::Full, 2, 10);
    let first: Vec<Repository> = sorted_ids(&store).iter().map(|id| store.get(*id).unwrap().clone()).collect();
    let trace = drive(&mut store, &remote, ScrapeMode::Full, 2, 20);
    let second: Vec<Repository> = sorted_ids(&store).iter().map(|id| store.get(*id).unwrap().clone()).collect();
    assert_eq!(first, second);
    assert!(trace.removed.is_empty());
    assert_eq!(store.get_metadata().last_full_index, Some(20));
    assert_eq!(store.get(2).unwrap().readme_content.as_deref(), Some("two"));
}

#[test]
fn fast_pass_stops_at_first_indexed_record() {
    let mut store = MemoryIndex::new();
    store.upsert_batch(vec![repo(5, false)]);
    let mut remote = Remote::default();
    remote.pages = vec![
        vec![repo(1, false), repo(2, false)],
        vec![repo(3, false), repo(4, false), repo(5, false), repo(6, false)],
        vec![repo(7, false)],
    ];
    let trace = drive(&mut store, &remote, ScrapeMode::Fast, 5, 50);
    assert_eq!(trace.pages, vec![1, 2]);
    assert_eq!(sorted_ids(&store), vec![1, 2, 3, 4, 5]);
    assert!(store.get(6).is_none());
    assert!(trace.removed.is_empty());
}

#[test]
fn fast_pass_stops_at_first_record_of_first_page() {
    let mut fetch = StarredFetch::new(ScrapeMode::Fast);
    assert_eq!(fetch.next_action(), FetchAction::FetchPage(1));
    fetch.on_page(vec![repo(9, false), repo(8, false)]);
    assert_eq!(fetch.next_action(), FetchAction::CheckIndexed(9));
    fetch.on_indexed(true);
    assert_eq!(fetch.next_action(), FetchAction::Finished);
    assert!(fetch.into_records().is_empty());
}

#[test]
fn full_pass_fetches_every_page_until_empty() {
    let mut store = MemoryIndex::new();
    store.upsert_batch(vec![repo(2, false)]);
    let mut remote = Remote::default();
    remote.pages = vec![vec![repo(1, false), repo(2, false)], vec![repo(3, false)]];
    let trace = drive(&mut store, &remote, ScrapeMode::Full, 5, 5);
    assert_eq!(trace.pages, vec![1, 2, 3]);
    assert_eq!(sorted_ids(&store), vec![1, 2, 3]);
}

#[test]
fn pagination_stops_past_the_ceiling() {
    let mut fetch = StarredFetch::new(ScrapeMode::Full);
    let mut next_id: u32 = 0;
    let mut asked = Vec::new();
    loop {
        match fetch.next_action() {
            FetchAction::FetchPage(n) => {
                asked.push(n);
                let page: Vec<Repository> = (0..4000).map(|_| {
                    next_id += 1;
                    repo(next_id, false)
                }).collect();
                fetch.on_page(page);
            }
            FetchAction::CheckIndexed(_) => panic!("a full pass checks nothing"),
            FetchAction::Finished => break,
        }
    }
    assert_eq!(asked, vec![1, 2, 3]);
    let recs = fetch.into_records();
    assert_eq!(recs.len(), 12_000);
    assert!(recs.len() > REPO_LIMIT);
}

#[test]
fn full_pass_reconciles_to_fetched_ids() {
    let mut store = MemoryIndex::new();
    store.upsert_batch(vec![repo(10, false), repo(11, false), repo(1, false)]);
    let mut remote = Remote::default();
    remote.pages = vec![vec![repo(1, false), repo(2, false), repo(3, false)]];
    let trace = drive(&mut store, &remote, ScrapeMode::Full, 2, 7);
    assert_eq!(sorted_ids(&store), vec![1, 2, 3]);
    let mut removed = trace.removed.clone();
    removed.sort();
    assert_eq!(removed, vec![10, 11]);
}

#[test]
fn fast_pass_never_removes() {
    let mut store = MemoryIndex::new();
    store.upsert_batch(vec![repo(10, false)]);
    let mut remote = Remote::default();
    remote.pages = vec![vec![repo(1, false)]];
    drive(&mut store, &remote, ScrapeMode::Fast, 2, 7);
    assert_eq!(sorted_ids(&store), vec![1, 10]);
}

#[test]
fn disabled_records_are_never_indexed() {
    let mut store = MemoryIndex::new();
    let mut remote = Remote::default();
    remote.pages = vec![vec![repo(1, true), repo(2, false)], vec![repo(3, true)]];
    drive(&mut store, &remote, ScrapeMode::Full, 5, 1);
    assert_eq!(sorted_ids(&store), vec![2]);
    drive(&mut store, &remote, ScrapeMode::Fast, 5, 2);
    assert!(store.get(1).is_none());
    assert!(store.get(3).is_none());
}

#[test]
fn keep_enabled_keeps_order() {
    let kept = keep_enabled(vec![repo(4, false), repo(5, true), repo(6, false), repo(7, true)]);
    let ids: Vec<u32> = kept.iter().map(|r| r.id).collect();
    assert_eq!(ids, vec![4, 6]);
}

#[test]
fn fast_pass_moves_only_the_fast_date() {
    let mut store = MemoryIndex::new();
    store.set_metadata(IndexDates { last_fast_index: Some(5), last_full_index: Some(3) });
    let remote = Remote::default();
    drive(&mut store, &remote, ScrapeMode::Fast, 5, 100);
    assert_eq!(store.get_metadata(), IndexDates { last_fast_index: Some(100), last_full_index: Some(3) });
    drive(&mut store, &remote, ScrapeMode::Full, 5, 200);
    assert_eq!(store.get_metadata(), IndexDates { last_fast_index: Some(200), last_full_index: Some(200) });
}

#[test]
fn pass_dates_come_from_the_clock() {
    let mut store = MemoryIndex::new();
    let (mut pass, req) = SyncPass::new(ScrapeMode::Fast, 3);
    assert!(matches!(req, PassRequest::FetchPage(1)));
    let req = pass.on_page(Vec::new());
    assert!(matches!(req, PassRequest::ReadDates));
    let req = pass.on_dates(store.get_metadata());
    match req {
        PassRequest::WriteDates(d) => {
            assert!(d.last_fast_index.is_some());
            assert!(d.last_fast_index.unwrap() > 1_500_000_000_000);
            assert_eq!(d.last_full_index, None);
            store.set_metadata(d);
        }
        other => panic!("unexpected request {other:?}"),
    }
    assert!(matches!(pass.on_written(), PassRequest::Done));
}

#[test]
fn readme_found_through_listing() {
    let mut store = MemoryIndex::new();
    let mut remote = Remote::default();
    remote.pages = vec![vec![repo(1, false)]];
    remote.listings.insert(
        ("owner1".to_string(), "repo1".to_string()),
        vec![
            ContentEntry { name: "src".to_string(), download_url: None },
            ContentEntry { name: "README.rst".to_string(), download_url: Some("https://files.example/readme1".to_string()) },
        ],
    );
    remote.texts.insert("https://files.example/readme1".to_string(), "listed readme".to_string());
    drive(&mut store, &remote, ScrapeMode::Full, 5, 1);
    assert_eq!(store.get(1).unwrap().readme_content.as_deref(), Some("listed readme"));
}

#[test]
fn readme_absent_record_still_indexed() {
    let mut store = MemoryIndex::new();
    let mut remote = Remote::default();
    remote.pages = vec![vec![repo(1, false), repo(2, false)]];
    remote.listings.insert(
        ("owner1".to_string(), "repo1".to_string()),
        vec![ContentEntry { name: "LICENSE".to_string(), download_url: Some("https://files.example/l".to_string()) }],
    );
    drive(&mut store, &remote, ScrapeMode::Full, 5, 1);
    assert_eq!(sorted_ids(&store), vec![1, 2]);
    assert_eq!(store.get(1).unwrap().readme_content, None);
    assert_eq!(store.get(2).unwrap().readme_content, None);
}

#[test]
fn enrichment_failure_keeps_record() {
    let mut store = MemoryIndex::new();
    let mut remote = Remote::default();
    remote.pages = vec![vec![repo(1, false), repo(2, false)]];
    remote.failing.push("https://raw.githubusercontent.com/owner1/repo1/master/README.md".to_string());
    remote.texts.insert(
        "https://raw.githubusercontent.com/owner2/repo2/master/README.md".to_string(),
        "second".to_string(),
    );
    drive(&mut store, &remote, ScrapeMode::Full, 5, 1);
    assert_eq!(sorted_ids(&store), vec![1, 2]);
    assert_eq!(store.get(1).unwrap().readme_content, None);
    assert_eq!(store.get(2).unwrap().readme_content.as_deref(), Some("second"));
}

#[test]
fn batch_size_does_not_change_the_result() {
    let mut remote = Remote::default();
    remote.pages = vec![(1..=7).map(|i| repo(i, false)).collect(), vec![repo(3, false)]];
    let mut one = MemoryIndex::new();
    let trace_one = drive(&mut one, &remote, ScrapeMode::Full, 1, 1);
    let mut five = MemoryIndex::new();
    let trace_five = drive(&mut five, &remote, ScrapeMode::Full, 5, 1);
    assert_eq!(trace_one.batches, vec![1; 8]);
    assert_eq!(trace_five.batches, vec![5, 3]);
    assert_eq!(sorted_ids(&one), sorted_ids(&five));
    for id in sorted_ids(&one) {
        assert_eq!(one.get(id), five.get(id));
    }
}

#[test]
fn record_ids_in_order() {
    assert_eq!(record_ids(&vec![repo(9, false), repo(2, true), repo(9, false)]), vec![9, 2, 9]);
    assert!(record_ids(&vec![]).is_empty());
}
