//! The command line: options, subcommands and their defaults.

use vstd::prelude::*;
use std::path::PathBuf;
use crate::config::MarketSelectionConfig;

verus! {

/// std's owned path, carried through as an opaque value.
#[verifier::external_type_specification]
#[verifier::external_body]
pub struct ExPathBuf(PathBuf);

/// The options of a run.
#[derive(Debug)]
pub struct Args {
    /// Configuration file path.
    pub config: PathBuf,
    /// Database file path.
    pub database: PathBuf,
    /// Log level.
    pub log_level: String,
    /// The subcommand, if one was given.
    pub command: Option<Commands>,
}

/// The subcommands.
#[derive(Debug)]
pub enum Commands {
    /// Fetch the market list.
    FetchMarkets { active: bool },
    /// Fetch one market's details.
    GetMarket { id: String },
    /// Run adaptive sampling on one market.
    Sample { market_id: String, token_id: String },
    /// Run the whole ETL pipeline.
    Run { concurrency: usize, category: Option<String> },
    /// Initialize the database.
    InitDb,
    /// Search markets by keywords and save them.
    SearchMarkets { query: String, limit: Option<usize>, scan_pages: Option<usize> },
    /// Show statistics.
    Stats { market_id: Option<String> },
}

/// The subcommand to run: the one given, or else the full ETL pipeline over all
/// categories with the configured concurrency.
pub fn resolve_command(command: Option<Commands>, default_concurrency: usize) -> (r: Commands)
    ensures
        r == match command {
            Some(c) => c,
            None => Commands::Run { concurrency: default_concurrency, category: None },
        },
{
    match command {
        Some(c) => c,
        None => Commands::Run { concurrency: default_concurrency, category: None },
    }
}

/// The result limit and page count of a search: those given, or else the configured
/// ones.
pub fn search_bounds(
    limit: Option<usize>,
    scan_pages: Option<usize>,
    configured: &MarketSelectionConfig,
) -> (r: (usize, usize))
    ensures
        r.0 == match limit {
            Some(l) => l,
            None => configured.max_search_results,
        },
        r.1 == match scan_pages {
            Some(p) => p,
            None => configured.max_scan_pages,
        },
{
    let l = match limit {
        Some(l) => l,
        None => configured.max_search_results,
    };
    let p = match scan_pages {
        Some(p) => p,
        None => configured.max_scan_pages,
    };
    (l, p)
}

} // verus!
