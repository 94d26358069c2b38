use zlaunch::config::AppConfig;
use zlaunch::search::{detect_search, get_providers, SearchDetection, SearchProvider};

fn providers() -> Vec<SearchProvider> {
    get_providers(&AppConfig::default())
}

#[test]
fn test_detect_triggered_google() {
    let result = detect_search("!g rust async", &providers());
    match result {
        SearchDetection::Triggered { provider, query } => {
            assert_eq!(provider.name, "Google");
            assert_eq!(query, "rust async");
        }
        _ => panic!("Expected Triggered"),
    }
}

#[test]
fn test_detect_triggered_wikipedia() {
    let result = detect_search("!wiki   quantum physics  ", &providers());
    match result {
        SearchDetection::Triggered { provider, query } => {
            assert_eq!(provider.name, "Wikipedia");
            assert_eq!(query, "quantum physics");
        }
        _ => panic!("Expected Triggered"),
    }
}

#[test]
fn test_detect_trigger_only() {
    let result = detect_search("!g", &providers());
    assert_eq!(result, SearchDetection::NotSearch);
}

#[test]
fn test_detect_trigger_with_spaces() {
    let result = detect_search("!g   ", &providers());
    assert_eq!(result, SearchDetection::NotSearch);
}

#[test]
fn test_detect_fallback() {
    let result = detect_search("some random query", &providers());
    match result {
        SearchDetection::Fallback { query } => {
            assert_eq!(query, "some random query");
        }
        _ => panic!("Expected Fallback"),
    }
}

#[test]
fn test_detect_empty() {
    let result = detect_search("", &providers());
    assert_eq!(result, SearchDetection::NotSearch);
}

#[test]
fn detect_youtube_trigger_keeps_inner_spaces() {
    let result = detect_search("  !yt  lo fi   beats ", &providers());
    match result {
        SearchDetection::Triggered { provider, query } => {
            assert_eq!(provider.name, "YouTube");
            assert_eq!(query, "lo fi   beats");
        }
        _ => panic!("Expected Triggered"),
    }
}

#[test]
fn detect_unknown_trigger_falls_back() {
    let result = detect_search("!zz thing", &providers());
    match result {
        SearchDetection::Fallback { query } => assert_eq!(query, "!zz thing"),
        _ => panic!("Expected Fallback"),
    }
}

#[test]
fn build_url_percent_encodes_query() {
    let ps = providers();
    let google = ps.iter().find(|p| p.name == "Google").unwrap();
    assert_eq!(
        google.build_url("rust & c++ ü"),
        "https://www.google.com/search?q=rust%20%26%20c%2B%2B%20%C3%BC"
    );
}

#[test]
fn find_provider_by_trigger_finds_duckduckgo() {
    let ps = providers();
    let p = zlaunch::search::find_provider_by_trigger(&ps, "!ddg").unwrap();
    assert_eq!(p.name, "DuckDuckGo");
    assert!(zlaunch::search::find_provider_by_trigger(&ps, "!none").is_none());
}

#[test]
fn default_config_has_four_providers_in_order() {
    let ps = providers();
    let names: Vec<&str> = ps.iter().map(|p| p.name.as_str()).collect();
    assert_eq!(names, vec!["Google", "DuckDuckGo", "Wikipedia", "YouTube"]);
}

#[test]
fn default_providers_carry_templates_and_icons() {
    let ps = zlaunch::config::default_search_providers();
    assert_eq!(ps[0].url, "https://www.google.com/search?q={query}");
    assert_eq!(ps[0].icon, "google-logo");
    assert_eq!(ps[1].url, "https://duckduckgo.com/?q={query}");
    assert_eq!(ps[2].url, "https://en.wikipedia.org/wiki/Special:Search?search={query}");
    assert_eq!(ps[2].icon, "book-open");
    assert_eq!(ps[3].url, "https://www.youtube.com/results?search_query={query}");
    assert_eq!(ps[3].icon, "youtube-logo");
}
