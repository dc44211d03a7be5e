use axion_vault::adblock::AdblockState;
use axion_vault::urls::{extract_hostname, hosts_match};

#[test]
fn fresh_state_is_enabled_with_zero_counters() {
    let s = AdblockState::new();
    assert!(s.is_enabled());
    assert!(!s.are_lists_loaded());
    let stats = s.get_stats();
    assert_eq!(stats.total_blocked, 0);
    assert_eq!(stats.ads_blocked, 0);
    assert_eq!(stats.trackers_blocked, 0);
    assert!(stats.blocked_domains.is_empty());
}

#[test]
fn enabled_and_lists_loaded_flags_toggle() {
    let mut s = AdblockState::new();
    s.set_enabled(false);
    assert!(!s.is_enabled());
    s.set_enabled(true);
    assert!(s.is_enabled());
    s.set_lists_loaded(true);
    assert!(s.are_lists_loaded());
}

#[test]
fn blocked_requests_are_classified_and_counted() {
    let mut s = AdblockState::new();
    s.record_block(
        "https://ads.example.com/banner.js",
        Some("ads.example.com".to_string()),
    );
    s.record_block(
        "https://Tracker.example.com/ANALYTICS.js",
        Some("tracker.example.com".to_string()),
    );
    s.record_block(
        "https://ads.example.com/other.js",
        Some("ads.example.com".to_string()),
    );
    let stats = s.get_stats();
    assert_eq!(stats.total_blocked, 3);
    assert_eq!(stats.ads_blocked, 2);
    assert_eq!(stats.trackers_blocked, 1);
    assert_eq!(stats.blocked_domains.len(), 2);
    let ads = stats
        .blocked_domains
        .iter()
        .find(|p| p.0 == "ads.example.com")
        .unwrap();
    assert_eq!(ads.1, 2);
    let tr = stats
        .blocked_domains
        .iter()
        .find(|p| p.0 == "tracker.example.com")
        .unwrap();
    assert_eq!(tr.1, 1);
}

#[test]
fn a_tracker_is_recognized_by_its_url_text_alone() {
    let mut s = AdblockState::new();
    s.record_block("https://cdn.example.com/telemetry/beacon", None);
    let stats = s.get_stats();
    assert_eq!(stats.trackers_blocked, 1);
    assert_eq!(stats.ads_blocked, 0);
    assert!(stats.blocked_domains.is_empty());
}

#[test]
fn reset_clears_counters_but_not_flags() {
    let mut s = AdblockState::new();
    s.set_lists_loaded(true);
    s.record_block("https://ads.example.com/x", Some("ads.example.com".to_string()));
    s.reset_stats();
    let stats = s.get_stats();
    assert_eq!(stats.total_blocked, 0);
    assert_eq!(stats.ads_blocked, 0);
    assert_eq!(stats.trackers_blocked, 0);
    assert!(stats.blocked_domains.is_empty());
    assert!(s.is_enabled());
    assert!(s.are_lists_loaded());
}

#[test]
fn hostname_extraction_defaults_the_scheme_and_lowercases() {
    assert_eq!(extract_hostname("https://WWW.Example.COM/login"), "www.example.com");
    assert_eq!(extract_hostname("example.com"), "example.com");
    assert_eq!(extract_hostname("example.com:8080/path"), "example.com");
    assert_eq!(extract_hostname(""), "");
}

#[test]
fn host_matching_strips_one_leading_www_label() {
    assert!(hosts_match("www.example.com", "example.com"));
    assert!(hosts_match("example.com", "example.com"));
    assert!(!hosts_match("example.com", "example.org"));
    assert!(!hosts_match("", "example.com"));
}
