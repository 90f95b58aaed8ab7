use starsearch::model::ContentEntry;
use starsearch::readme::{default_readme_url, find_readme_entry, has_readme_prefix, ReadmeLookup, ReadmeRequest};

fn entry(name: &str, url: Option<&str>) -> ContentEntry {
    ContentEntry { name: name.to_string(), download_url: url.map(|u| u.to_string()) }
}

#[test]
fn conventional_readme_address() {
    assert_eq!(
        default_readme_url("zekroTJA", "starsearch"),
        "https://raw.githubusercontent.com/zekroTJA/starsearch/master/README.md"
    );
}

#[test]
fn readme_prefix_on_folded_names() {
    assert!(has_readme_prefix("readme.md"));
    assert!(has_readme_prefix("readme"));
    assert!(!has_readme_prefix("README.md"));
    assert!(!has_readme_prefix("read"));
    assert!(!has_readme_prefix("a-readme"));
    assert!(!has_readme_prefix(""));
}

#[test]
fn readme_entry_matched_in_any_case() {
    let entries = vec![entry("src", None), entry("LICENSE", None), entry("ReadMe.rst", Some("u1")), entry("readme.md", Some("u2"))];
    assert_eq!(find_readme_entry(&entries), Some(2));
    assert_eq!(find_readme_entry(&vec![entry("docs", None)]), None);
    assert_eq!(find_readme_entry(&vec![]), None);
}

#[test]
fn lookup_stops_at_conventional_readme() {
    let l = ReadmeLookup::new();
    match l.request("o", "r") {
        ReadmeRequest::FetchText(url) => assert_eq!(url, "https://raw.githubusercontent.com/o/r/master/README.md"),
        other => panic!("unexpected {other:?}"),
    }
    let l = l.on_fetched(Some("body".to_string()));
    assert_eq!(l, ReadmeLookup::Resolved(Some("body".to_string())));
    assert_eq!(l.request("o", "r"), ReadmeRequest::Done);
    assert_eq!(l.into_content(), Some("body".to_string()));
}

#[test]
fn lookup_falls_back_to_listing() {
    let l = ReadmeLookup::new().on_fetched(None);
    assert_eq!(l, ReadmeLookup::Listing);
    assert_eq!(l.request("o", "r"), ReadmeRequest::ListContents);
    let l = l.on_listed(&vec![entry("Cargo.toml", Some("c")), entry("README", Some("https://dl/readme"))]);
    assert_eq!(l, ReadmeLookup::Download("https://dl/readme".to_string()));
    assert_eq!(l.request("o", "r"), ReadmeRequest::FetchText("https://dl/readme".to_string()));
    let l = l.on_fetched(Some("fallback body".to_string()));
    assert_eq!(l.into_content(), Some("fallback body".to_string()));
}

#[test]
fn lookup_without_readme_resolves_to_nothing() {
    let l = ReadmeLookup::new().on_fetched(None).on_listed(&vec![entry("main.go", Some("m"))]);
    assert_eq!(l, ReadmeLookup::Resolved(None));
    let l = ReadmeLookup::Listing.on_listed(&vec![entry("README.md", None)]);
    assert_eq!(l, ReadmeLookup::Resolved(None));
    let l = ReadmeLookup::Download("x".to_string()).on_fetched(None);
    assert_eq!(l.into_content(), None);
}
