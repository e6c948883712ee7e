use ploy_clean::api::client::{backoff_delay_ms, ApiClient, AttemptOutcome, Exhaustion, RetryAction, RetryLoop};
use ploy_clean::api::clob::{is_missing_history, price_history_path, price_path, prices_batch_path};
use ploy_clean::api::gamma::{keep_listed, keywords_found, market_path, markets_page_path, matches_keywords, MarketSearch};
use ploy_clean::models::market::GammaMarket;
use ploy_clean::models::price::Interval;

fn gamma(question: &str, slug: Option<&str>, description: Option<&str>) -> GammaMarket {
    GammaMarket {
        condition_id: format!("c-{}", question),
        question: question.to_string(),
        slug: slug.map(|s| s.to_string()),
        outcomes: "[]".to_string(),
        outcome_prices: None,
        volume: None,
        liquidity: None,
        active: Some(true),
        closed: Some(false),
        end_date: None,
        id: None,
        clob_token_ids: None,
        description: description.map(|s| s.to_string()),
    }
}

#[test]
fn backoff_doubles_from_100_ms() {
    assert_eq!(backoff_delay_ms(0), 100);
    assert_eq!(backoff_delay_ms(1), 200);
    assert_eq!(backoff_delay_ms(2), 400);
    assert_eq!(backoff_delay_ms(10), 102_400);
    assert_eq!(backoff_delay_ms(57), 100 * (1u64 << 57));
}

#[test]
fn retry_delivers_success_and_aborts_on_error_status() {
    let mut r = RetryLoop::new(3);
    assert!(r.can_attempt());
    assert_eq!(r.record(AttemptOutcome::Success), RetryAction::Deliver);
    let mut r = RetryLoop::new(3);
    assert_eq!(r.record(AttemptOutcome::ErrorStatus), RetryAction::Abort);
}

#[test]
fn retry_backs_off_on_rate_limit_until_exhausted() {
    let mut r = RetryLoop::new(3);
    let mut actions = Vec::new();
    while r.can_attempt() {
        actions.push(r.record(AttemptOutcome::RateLimited));
    }
    assert_eq!(actions, vec![RetryAction::Wait(100), RetryAction::Wait(200), RetryAction::Wait(400)]);
    assert_eq!(r.exhaustion(), Exhaustion::MaxRetriesExceeded);
}

#[test]
fn retry_send_failures_skip_the_last_wait() {
    let mut r = RetryLoop::new(3);
    let mut actions = Vec::new();
    while r.can_attempt() {
        actions.push(r.record(AttemptOutcome::SendFailed));
    }
    assert_eq!(actions, vec![RetryAction::Wait(100), RetryAction::Wait(200), RetryAction::Proceed]);
    assert_eq!(r.exhaustion(), Exhaustion::LastSendFailure);
}

#[test]
fn retry_with_zero_attempts() {
    let r = RetryLoop::new(0);
    assert!(!r.can_attempt());
    assert_eq!(r.exhaustion(), Exhaustion::MaxRetriesExceeded);
}

#[test]
fn clob_paths() {
    assert_eq!(price_history_path("tok", Interval::OneDay), "/prices-history?market=tok&interval=1d");
    assert_eq!(price_history_path("x", Interval::FiveMinutes), "/prices-history?market=x&interval=5m");
    assert_eq!(price_path("tok"), "/price?token_id=tok");
    let ids = vec!["a".to_string(), "bb".to_string(), "c".to_string()];
    assert_eq!(prices_batch_path(&ids), "/prices?token_ids=a,bb,c");
    assert_eq!(prices_batch_path(&vec!["only".to_string()]), "/prices?token_ids=only");
    assert_eq!(prices_batch_path(&Vec::new()), "/prices?token_ids=");
}

#[test]
fn missing_history_errors() {
    assert!(is_missing_history("API error: 404 Not Found - "));
    assert!(is_missing_history("history is empty"));
    assert!(!is_missing_history("API error: 500 Internal Server Error"));
}

#[test]
fn gamma_paths() {
    assert_eq!(markets_page_path(100, 0), "/markets?limit=100&offset=0&active=true&closed=false");
    assert_eq!(markets_page_path(100, 1900), "/markets?limit=100&offset=1900&active=true&closed=false");
    assert_eq!(market_path("517310"), "/markets/517310");
}

#[test]
fn listing_drops_markets_without_question() {
    let page = vec![gamma("A?", None, None), gamma("", None, None), gamma("B?", None, None)];
    let kept = keep_listed(page);
    let questions: Vec<&str> = kept.iter().map(|m| m.question.as_str()).collect();
    assert_eq!(questions, vec!["A?", "B?"]);
}

#[test]
fn keywords_match_case_insensitively_in_any_text() {
    let m = gamma("Will Trump win?", Some("trump-2028"), Some("An election market"));
    assert!(matches_keywords(&vec!["trump".to_string()], &m));
    assert!(matches_keywords(&vec!["trump".to_string(), "election".to_string()], &m));
    assert!(!matches_keywords(&vec!["trump".to_string(), "bitcoin".to_string()], &m));
    assert!(matches_keywords(&Vec::new(), &m));
    let plain = gamma("Will Bitcoin Rise?", None, None);
    assert!(matches_keywords(&vec!["bitcoin".to_string(), "rise".to_string()], &plain));
    assert!(!matches_keywords(&vec!["fall".to_string()], &plain));
}

#[test]
fn search_scans_pages_until_limit() {
    let mut search = MarketSearch::new("Bitcoin  PRICE", 2, 5);
    assert_eq!(search.next_offset(), Some(0));
    let page1 = vec![
        gamma("Bitcoin price above 100k?", None, None),
        gamma("Ethereum price?", None, None),
    ];
    assert_eq!(search.absorb_page(page1), (1, 1));
    assert_eq!(search.next_offset(), Some(100));
    let page2 = vec![
        gamma("Will it rain?", Some("bitcoin-rain"), Some("price of rain")),
        gamma("Bitcoin price below 50k?", None, None),
    ];
    assert_eq!(search.absorb_page(page2), (2, 2));
    assert_eq!(search.next_offset(), None);
    let found: Vec<String> = search.into_results().into_iter().map(|m| m.question).collect();
    assert_eq!(found, vec!["Bitcoin price above 100k?".to_string(), "Will it rain?".to_string()]);
}

#[test]
fn search_stops_at_an_empty_page() {
    let mut search = MarketSearch::new("x", 50, 20);
    assert_eq!(search.absorb_page(vec![gamma("x?", None, None)]), (1, 1));
    assert_eq!(search.absorb_page(Vec::new()), (2, 1));
    assert_eq!(search.next_offset(), None);
}

#[test]
fn search_stops_after_max_pages() {
    let mut search = MarketSearch::new("nothing", 50, 2);
    let mut pages = 0;
    while let Some(_) = search.next_offset() {
        search.absorb_page(vec![gamma("other", None, None)]);
        pages += 1;
    }
    assert_eq!(pages, 2);
    assert!(search.into_results().is_empty());
}

#[test]
fn search_with_zero_limit_returns_nothing() {
    let mut search = MarketSearch::new("a", 0, 3);
    let page = vec![gamma("a1", None, None), gamma("a2", None, None)];
    assert_eq!(search.absorb_page(page), (1, 0));
    assert_eq!(search.next_offset(), None);
    assert!(search.into_results().is_empty());
}

#[test]
fn search_stops_at_the_limit_within_a_page() {
    let mut search = MarketSearch::new("a", 1, 3);
    let page = vec![gamma("a1", None, None), gamma("a2", None, None)];
    assert_eq!(search.absorb_page(page), (1, 1));
    assert_eq!(search.next_offset(), None);
    assert_eq!(search.into_results()[0].question, "a1");
}

#[test]
fn api_client_settings() {
    let client = ApiClient::new("https://clob.polymarket.com".to_string()).expect("client builds");
    assert_eq!(client.base_url(), "https://clob.polymarket.com");
    assert_eq!(client.max_retries(), 3);
    assert_eq!(client.timeout_secs(), 30);
    let client = client.with_max_retries(5);
    assert_eq!(client.max_retries(), 5);
    assert_eq!(client.timeout_secs(), 30);
    assert_eq!(client.base_url(), "https://clob.polymarket.com");
    let mut retry = client.retry_loop();
    let mut attempts = 0;
    while retry.can_attempt() {
        retry.record(AttemptOutcome::RateLimited);
        attempts += 1;
    }
    assert_eq!(attempts, 5);
}

#[test]
fn keywords_found_in_any_text() {
    let kws = vec!["ukraine".to_string(), "ceasefire".to_string()];
    assert!(keywords_found(&kws, "ukraine ceasefire by june?", "", ""));
    assert!(keywords_found(&kws, "ukraine talks", "ceasefire-2026", ""));
    assert!(!keywords_found(&kws, "ukraine talks", "", "peace deal"));
    // comparison is exact: the texts are expected lowercased already
    assert!(!keywords_found(&kws, "Ukraine Ceasefire", "", ""));
}

#[test]
fn search_accepts_any_page_count() {
    let mut search = MarketSearch::new("x", 5, usize::MAX);
    assert!(search.goes_on());
    assert_eq!(search.pages_scanned(), 0);
    assert_eq!(search.next_offset(), Some(0));
    search.absorb_page(vec![gamma("x1", None, None)]);
    assert_eq!(search.pages_scanned(), 1);
    assert_eq!(search.next_offset(), Some(100));
    search.absorb_page(Vec::new());
    assert!(!search.goes_on());
    assert_eq!(search.next_offset(), None);
}
