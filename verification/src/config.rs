//! Configuration of the tool: the sections and settings that hold no numeric thresholds.

use vstd::prelude::*;
use vstd::string::StringExecFns;

verus! {

/// Where and how the APIs are reached.
#[derive(Debug, Clone)]
pub struct ApiConfig {
    pub gamma_api_base_url: String,
    pub clob_api_base_url: String,
    pub max_retries: u32,
    pub timeout_seconds: u64,
    pub rate_limit_per_minute: u32,
    pub max_concurrent_requests: usize,
}

/// Where the data is stored.
#[derive(Debug, Clone)]
pub struct DatabaseConfig {
    pub url: String,
    pub wal_mode: bool,
    pub cache_size_mb: usize,
}

/// How the tool logs.
#[derive(Debug, Clone)]
pub struct LoggingConfig {
    pub level: String,
    pub file: String,
    pub max_file_size_mb: usize,
}

/// The counts of change-point detection: the window size and the fewest samples a
/// series needs.
#[derive(Debug, Clone)]
pub struct DetectionConfig {
    pub change_point_detection_window_size: usize,
    pub change_point_min_samples: usize,
}

/// Which markets are processed and how far a market search goes.
#[derive(Debug, Clone)]
pub struct MarketSelectionConfig {
    pub max_markets: usize,
    pub categories: Vec<String>,
    pub max_search_results: usize,
    pub max_scan_pages: usize,
}

impl Default for DetectionConfig {
    /// A 24-sample detection window and at least 12 samples.
    fn default() -> (r: DetectionConfig)
        ensures
            r.change_point_detection_window_size == 24,
            r.change_point_min_samples == 12,
    {
        DetectionConfig { change_point_detection_window_size: 24, change_point_min_samples: 12 }
    }
}

impl Default for MarketSelectionConfig {
    /// At most 1000 markets, from the politics and economics categories; searches return
    /// at most 50 results and scan at most 20 pages.
    fn default() -> (r: MarketSelectionConfig)
        ensures
            r.max_markets == 1000,
            r.categories@.len() == 2,
            r.categories@[0]@ == "politics"@,
            r.categories@[1]@ == "economics"@,
            r.max_search_results == 50,
            r.max_scan_pages == 20,
    {
        MarketSelectionConfig {
            max_markets: 1000,
            categories: vec![String::from_str("politics"), String::from_str("economics")],
            max_search_results: 50,
            max_scan_pages: 20,
        }
    }
}

impl Default for ApiConfig {
    /// The public Polymarket endpoints, three retries, a 30 s timeout, 60 requests a
    /// minute and 16 concurrent requests.
    fn default() -> (r: ApiConfig)
        ensures
            r.gamma_api_base_url@ == "https://gamma-api.polymarket.com"@,
            r.clob_api_base_url@ == "https://clob.polymarket.com"@,
            r.max_retries == 3,
            r.timeout_seconds == 30,
            r.rate_limit_per_minute == 60,
            r.max_concurrent_requests == 16,
    {
        ApiConfig {
            gamma_api_base_url: String::from_str("https://gamma-api.polymarket.com"),
            clob_api_base_url: String::from_str("https://clob.polymarket.com"),
            max_retries: 3,
            timeout_seconds: 30,
            rate_limit_per_minute: 60,
            max_concurrent_requests: 16,
        }
    }
}

impl Default for DatabaseConfig {
    /// A WAL-mode SQLite file with a 64 MB cache.
    fn default() -> (r: DatabaseConfig)
        ensures
            r.url@ == "sqlite:///data/polymarket.db"@,
            r.wal_mode,
            r.cache_size_mb == 64,
    {
        DatabaseConfig {
            url: String::from_str("sqlite:///data/polymarket.db"),
            wal_mode: true,
            cache_size_mb: 64,
        }
    }
}

impl Default for LoggingConfig {
    /// Info level, to `logs/polymarket.log`, files of at most 100 MB.
    fn default() -> (r: LoggingConfig)
        ensures
            r.level@ == "info"@,
            r.file@ == "logs/polymarket.log"@,
            r.max_file_size_mb == 100,
    {
        LoggingConfig {
            level: String::from_str("info"),
            file: String::from_str("logs/polymarket.log"),
            max_file_size_mb: 100,
        }
    }
}

} // verus!
