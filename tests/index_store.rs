use starsearch::index::{stale_ids, MemoryIndex};
use starsearch::model::{IndexDates, Repository, ScrapeMode, ServerInfo, User};

fn record(id: u32, name: &str) -> Repository {
    Repository {
        id,
        name: name.to_string(),
        full_name: format!("someone/{name}"),
        owner: User { id: 7, login: "someone".to_string() },
        description: None,
        fork: false,
        url: String::new(),
        html_url: String::new(),
        created_at: 0,
        updated_at: 0,
        language: None,
        license: None,
        topics: None,
        readme_content: None,
        disabled: false,
    }
}

#[test]
fn upsert_overwrites_by_id_last_write_wins() {
    let mut store = MemoryIndex::new();
    store.upsert_batch(vec![record(1, "a"), record(2, "b"), record(1, "c")]);
    assert_eq!(store.count(), 2);
    assert_eq!(store.get(1).unwrap().name, "c");
    store.upsert_batch(vec![record(2, "d")]);
    assert_eq!(store.get(2).unwrap().name, "d");
    assert_eq!(store.count(), 2);
}

#[test]
fn remove_ignores_unknown_ids() {
    let mut store = MemoryIndex::new();
    store.upsert_batch(vec![record(1, "a"), record(2, "b"), record(3, "c")]);
    store.remove(&vec![2, 9, 2]);
    let mut ids = store.list_ids();
    ids.sort();
    assert_eq!(ids, vec![1, 3]);
    assert!(!store.contains(2));
    assert!(store.contains(3));
}

#[test]
fn list_ids_keeps_arrival_order() {
    let mut store = MemoryIndex::new();
    store.upsert_batch(vec![record(5, "a"), record(3, "b")]);
    store.upsert_batch(vec![record(9, "c"), record(5, "d")]);
    assert_eq!(store.list_ids(), vec![5, 3, 9]);
}

#[test]
fn empty_store_has_no_dates() {
    let store = MemoryIndex::new();
    assert_eq!(store.get_metadata(), IndexDates { last_fast_index: None, last_full_index: None });
    assert_eq!(store.get_metadata(), IndexDates::never());
    assert!(store.get(1).is_none());
}

#[test]
fn info_combines_dates_and_count() {
    let mut store = MemoryIndex::new();
    store.upsert_batch(vec![record(1, "a"), record(2, "b")]);
    let dates = IndexDates { last_fast_index: Some(4), last_full_index: None };
    store.set_metadata(dates);
    assert_eq!(store.info(), ServerInfo { index_dates: dates, index_count: 2 });
    assert_eq!(ServerInfo::new(dates, 2), store.info());
}

#[test]
fn stale_ids_are_stored_minus_fetched() {
    assert_eq!(stale_ids(&vec![1, 2, 3, 4], &vec![2, 4, 8]), vec![1, 3]);
    assert_eq!(stale_ids(&vec![3, 1, 3], &vec![]), vec![3, 1]);
    assert!(stale_ids(&vec![], &vec![1]).is_empty());
    assert!(stale_ids(&vec![1, 2], &vec![2, 1]).is_empty());
}

#[test]
fn advancing_dates() {
    let d = IndexDates { last_fast_index: Some(1), last_full_index: Some(2) };
    assert_eq!(d.advance(ScrapeMode::Fast, 9), IndexDates { last_fast_index: Some(9), last_full_index: Some(2) });
    assert_eq!(d.advance(ScrapeMode::Full, 9), IndexDates { last_fast_index: Some(9), last_full_index: Some(9) });
    assert_eq!(IndexDates::never().advance(ScrapeMode::Fast, 3), IndexDates { last_fast_index: Some(3), last_full_index: None });
}
