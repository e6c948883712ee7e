use ploy_clean::cli::{resolve_command, search_bounds, Commands};
use ploy_clean::config::{ApiConfig, DatabaseConfig, DetectionConfig, LoggingConfig, MarketSelectionConfig};

#[test]
fn default_command_is_a_full_run() {
    match resolve_command(None, 16) {
        Commands::Run { concurrency, category } => {
            assert_eq!(concurrency, 16);
            assert_eq!(category, None);
        }
        other => panic!("unexpected command {:?}", other),
    }
    match resolve_command(Some(Commands::InitDb), 16) {
        Commands::InitDb => {}
        other => panic!("unexpected command {:?}", other),
    }
}

#[test]
fn search_defaults() {
    let configured = MarketSelectionConfig::default();
    assert_eq!(search_bounds(None, None, &configured), (50, 20));
    assert_eq!(search_bounds(Some(10), None, &configured), (10, 20));
    assert_eq!(search_bounds(None, Some(80), &configured), (50, 80));
    let custom = MarketSelectionConfig { max_search_results: 7, max_scan_pages: 3, ..MarketSelectionConfig::default() };
    assert_eq!(search_bounds(None, None, &custom), (7, 3));
}

#[test]
fn detection_and_market_defaults() {
    let detection = DetectionConfig::default();
    assert_eq!(detection.change_point_detection_window_size, 24);
    assert_eq!(detection.change_point_min_samples, 12);
    let markets = MarketSelectionConfig::default();
    assert_eq!(markets.max_markets, 1000);
    assert_eq!(markets.categories, vec!["politics".to_string(), "economics".to_string()]);
    assert_eq!(markets.max_search_results, 50);
    assert_eq!(markets.max_scan_pages, 20);
}

#[test]
fn config_defaults() {
    let api = ApiConfig::default();
    assert_eq!(api.gamma_api_base_url, "https://gamma-api.polymarket.com");
    assert_eq!(api.clob_api_base_url, "https://clob.polymarket.com");
    assert_eq!(api.max_retries, 3);
    assert_eq!(api.timeout_seconds, 30);
    assert_eq!(api.rate_limit_per_minute, 60);
    assert_eq!(api.max_concurrent_requests, 16);
    let db = DatabaseConfig::default();
    assert_eq!(db.url, "sqlite:///data/polymarket.db");
    assert!(db.wal_mode);
    assert_eq!(db.cache_size_mb, 64);
    let log = LoggingConfig::default();
    assert_eq!(log.level, "info");
    assert_eq!(log.file, "logs/polymarket.log");
    assert_eq!(log.max_file_size_mb, 100);
}
