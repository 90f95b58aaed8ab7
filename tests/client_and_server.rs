use starsearch::cli::{cap, freshness, resolve_options, ClientOptions, Config as ClientConfig, ConfigError, DisplayMode, Freshness, Language};
use starsearch::config::{Config, Refresh};
use starsearch::model::{Repository, User};
use starsearch::web::RepositoryViewModel;

fn strings(items: &[&str]) -> Vec<String> {
    items.iter().map(|s| s.to_string()).collect()
}

#[test]
fn cap_leaves_short_lists() {
    assert_eq!(cap(&strings(&["a", "b", "c"]), 8), strings(&["a", "b", "c"]));
    assert!(cap(&[], 8).is_empty());
}

#[test]
fn cap_cuts_long_lists() {
    let v = strings(&["1", "2", "3", "4", "5", "6", "7", "8", "9", "10"]);
    assert_eq!(cap(&v, 8), strings(&["1", "2", "3", "4", "5", "6", "7", "8", "..."]));
    let exact = strings(&["1", "2"]);
    assert_eq!(cap(&exact, 2), strings(&["1", "2", "..."]));
}

#[test]
fn rgb_color_reads_hex_codes() {
    let l = Language { color: Some("#ff8800".to_string()) };
    assert_eq!(l.rgb_color(), Some((255, 136, 0)));
    assert_eq!(Language { color: Some("00ADD8".to_string()) }.rgb_color(), Some((0, 173, 216)));
    assert_eq!(Language { color: Some("##123456".to_string()) }.rgb_color(), Some((18, 52, 86)));
}

#[test]
fn rgb_color_short_or_missing() {
    assert_eq!(Language { color: None }.rgb_color(), None);
    assert_eq!(Language { color: Some("#fff".to_string()) }.rgb_color(), None);
    assert_eq!(Language { color: Some("".to_string()) }.rgb_color(), None);
}

#[test]
fn rgb_color_unreadable_channels_are_zero() {
    assert_eq!(Language { color: Some("#zz10+f".to_string()) }.rgb_color(), Some((0, 16, 15)));
}

#[test]
fn client_config_absent_file() {
    assert!(matches!(ClientConfig::parse(None), Ok(None)));
}

#[test]
fn client_config_full_file() {
    let text = "endpoint = \"https://stars.example\"\nlimit = 12\ndisplay_mode = \"condensed\"\nother = 1.5\n";
    let cfg = ClientConfig::parse(Some(text)).unwrap().unwrap();
    assert_eq!(
        cfg,
        ClientConfig { endpoint: Some("https://stars.example".to_string()), limit: Some(12), display_mode: Some(DisplayMode::Condensed) }
    );
}

#[test]
fn client_config_empty_file() {
    let cfg = ClientConfig::parse(Some("")).unwrap().unwrap();
    assert_eq!(cfg, ClientConfig { endpoint: None, limit: None, display_mode: None });
    let cfg = ClientConfig::parse(Some("display_mode = \"detailed\"")).unwrap().unwrap();
    assert_eq!(cfg.display_mode, Some(DisplayMode::Detailed));
}

#[test]
fn client_config_errors() {
    assert!(matches!(ClientConfig::parse(Some("endpoint = ")), Err(ConfigError::Syntax(_))));
    assert!(matches!(ClientConfig::parse(Some("endpoint = 5")), Err(ConfigError::InvalidEndpoint)));
    assert!(matches!(ClientConfig::parse(Some("limit = -1")), Err(ConfigError::InvalidLimit)));
    assert!(matches!(ClientConfig::parse(Some("limit = \"ten\"")), Err(ConfigError::InvalidLimit)));
    assert!(matches!(ClientConfig::parse(Some("display_mode = \"wide\"")), Err(ConfigError::InvalidDisplayMode)));
}

#[test]
fn server_intervals_and_startup() {
    let mut cfg = Config {
        github_username: "someone".to_string(),
        github_apitoken: None,
        meilisearch_url: "http://localhost:7700".to_string(),
        meilisearch_apikey: None,
        skip_initial_scrape: None,
        scrape_fast_interval_seconds: None,
        scrape_full_interval_seconds: None,
    };
    assert_eq!(cfg.fast_interval(), 3500);
    assert_eq!(cfg.full_interval(), 43200);
    assert!(cfg.runs_initial_pass());
    cfg.skip_initial_scrape = Some(true);
    cfg.scrape_fast_interval_seconds = Some(60);
    cfg.scrape_full_interval_seconds = Some(600);
    assert_eq!(cfg.fast_interval(), 60);
    assert_eq!(cfg.full_interval(), 600);
    assert!(!cfg.runs_initial_pass());
    cfg.skip_initial_scrape = Some(false);
    assert!(cfg.runs_initial_pass());
}

#[test]
fn refresh_quota() {
    let q = Refresh::quota();
    assert_eq!(q.period_seconds, 600);
    assert_eq!(q.burst, 5);
}

#[test]
fn view_model_lowercases_language() {
    let r = Repository {
        id: 3,
        name: "starsearch".to_string(),
        full_name: "zekroTJA/starsearch".to_string(),
        owner: User { id: 1, login: "zekroTJA".to_string() },
        description: Some("search stars".to_string()),
        fork: false,
        url: "https://api.github.com/repos/zekroTJA/starsearch".to_string(),
        html_url: "https://github.com/zekroTJA/starsearch".to_string(),
        created_at: 0,
        updated_at: 0,
        language: Some("TypeScript".to_string()),
        license: None,
        topics: Some(vec!["rust".to_string(), "search".to_string()]),
        readme_content: Some("long".to_string()),
        disabled: false,
    };
    let v = RepositoryViewModel::from(&r);
    assert_eq!(v.name, "starsearch");
    assert_eq!(v.owner, "zekroTJA");
    assert_eq!(v.url, "https://github.com/zekroTJA/starsearch");
    assert_eq!(v.language.as_deref(), Some("TypeScript"));
    assert_eq!(v.language_id.as_deref(), Some("typescript"));
    assert_eq!(v.topics, Some(vec!["rust".to_string(), "search".to_string()]));
    assert_eq!(v.description.as_deref(), Some("search stars"));
}

#[test]
fn command_line_wins_over_file() {
    let file = ClientConfig { endpoint: Some("https://file".to_string()), limit: Some(20), display_mode: Some(DisplayMode::Condensed) };
    let o = resolve_options(Some("https://arg".to_string()), Some(3), false, true, Some(file.clone()));
    assert_eq!(o, ClientOptions { endpoint: Some("https://arg".to_string()), limit: 3, display_mode: DisplayMode::Detailed });
    let o = resolve_options(None, None, false, false, Some(file));
    assert_eq!(o, ClientOptions { endpoint: Some("https://file".to_string()), limit: 20, display_mode: DisplayMode::Condensed });
}

#[test]
fn options_default_without_file() {
    let o = resolve_options(None, None, false, false, None);
    assert_eq!(o, ClientOptions { endpoint: None, limit: 5, display_mode: DisplayMode::Detailed });
    let o = resolve_options(None, None, true, true, None);
    assert_eq!(o.display_mode, DisplayMode::Condensed);
}

#[test]
fn freshness_of_index_dates() {
    let day = 86_400_000;
    let now = 10 * day;
    assert_eq!(freshness(now, None), Freshness::Never);
    assert_eq!(freshness(now, Some(now - day + 1)), Freshness::Fresh);
    assert_eq!(freshness(now, Some(now + day)), Freshness::Fresh);
    assert_eq!(freshness(now, Some(now - day)), Freshness::Aging);
    assert_eq!(freshness(now, Some(now - 3 * day + 1)), Freshness::Aging);
    assert_eq!(freshness(now, Some(now - 3 * day)), Freshness::Old);
    assert_eq!(freshness(i64::MAX, Some(i64::MIN)), Freshness::Old);
}
