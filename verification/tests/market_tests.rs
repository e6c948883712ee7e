use ploy_clean::models::market::{select_for_etl, GammaMarket, MarketInfo};
use ploy_clean::models::price::Interval;

fn gamma(question: &str) -> GammaMarket {
    GammaMarket {
        condition_id: "cond-1".to_string(),
        question: question.to_string(),
        slug: None,
        outcomes: "[\"Yes\", \"No\"]".to_string(),
        outcome_prices: None,
        volume: None,
        liquidity: None,
        active: None,
        closed: None,
        end_date: None,
        id: None,
        clob_token_ids: None,
        description: None,
    }
}

fn info(active: bool, tokens: bool, category: Option<&str>) -> MarketInfo {
    MarketInfo {
        id: "m".to_string(),
        question: "q".to_string(),
        condition_id: "c".to_string(),
        slug: String::new(),
        outcomes: vec![],
        active,
        closed: false,
        end_date: None,
        category: category.map(|c| c.to_string()),
        clob_token_ids: if tokens { Some(vec!["t".to_string()]) } else { None },
    }
}

#[test]
fn interval_api_names_and_lengths() {
    assert_eq!(Interval::OneMinute.as_str(), "1m");
    assert_eq!(Interval::FiveMinutes.as_str(), "5m");
    assert_eq!(Interval::OneHour.as_str(), "1h");
    assert_eq!(Interval::OneDay.as_str(), "1d");
    assert_eq!(Interval::OneMinute.as_seconds(), 60);
    assert_eq!(Interval::FiveMinutes.as_seconds(), 300);
    assert_eq!(Interval::OneHour.as_seconds(), 3600);
    assert_eq!(Interval::OneDay.as_seconds(), 86400);
}

#[test]
fn from_gamma_applies_defaults() {
    let m = MarketInfo::from_gamma(gamma("Will it rain?"));
    assert_eq!(m.id, "cond-1");
    assert_eq!(m.condition_id, "cond-1");
    assert_eq!(m.question, "Will it rain?");
    assert_eq!(m.slug, "");
    assert_eq!(m.outcomes, vec!["Yes".to_string(), "No".to_string()]);
    assert!(m.active);
    assert!(!m.closed);
    assert_eq!(m.category, None);
    assert_eq!(m.clob_token_ids, None);
}

#[test]
fn from_gamma_reads_given_fields() {
    let mut g = gamma("Q?");
    g.id = Some("517310".to_string());
    g.slug = Some("q-slug".to_string());
    g.active = Some(false);
    g.closed = Some(true);
    g.end_date = Some("2026-06-30".to_string());
    g.clob_token_ids = Some("[\"tokA\",\"tokB\"]".to_string());
    let m = MarketInfo::from_gamma(g);
    assert_eq!(m.id, "517310");
    assert_eq!(m.slug, "q-slug");
    assert!(!m.active);
    assert!(m.closed);
    assert_eq!(m.end_date, Some("2026-06-30".to_string()));
    assert_eq!(m.clob_token_ids, Some(vec!["tokA".to_string(), "tokB".to_string()]));
}

#[test]
fn from_gamma_keeps_unparseable_outcomes_as_one() {
    let mut g = gamma("Q?");
    g.outcomes = "Yes/No".to_string();
    g.clob_token_ids = Some("not json".to_string());
    let m = MarketInfo::from_gamma(g);
    assert_eq!(m.outcomes, vec!["Yes/No".to_string()]);
    assert_eq!(m.clob_token_ids, None);
}

#[test]
fn etl_selects_active_markets_with_tokens() {
    let ms = vec![
        info(true, true, None),
        info(false, true, None),
        info(true, false, None),
        info(true, true, Some("politics")),
    ];
    assert_eq!(select_for_etl(&ms, &None, 10), vec![0, 3]);
}

#[test]
fn etl_filters_by_category_and_limit() {
    let ms = vec![
        info(true, true, Some("politics")),
        info(true, true, Some("sports")),
        info(true, true, None),
        info(true, true, Some("politics")),
        info(true, true, Some("politics")),
    ];
    let cat = Some("politics".to_string());
    assert_eq!(select_for_etl(&ms, &cat, 10), vec![0, 3, 4]);
    assert_eq!(select_for_etl(&ms, &cat, 2), vec![0, 3]);
    assert!(select_for_etl(&ms, &cat, 0).is_empty());
}

#[test]
fn from_parsed_uses_the_given_lists() {
    let m = MarketInfo::from_parsed(gamma("Q?"), Some(vec!["A".to_string(), "B".to_string(), "C".to_string()]), Some(vec!["t1".to_string()]));
    assert_eq!(m.outcomes, vec!["A".to_string(), "B".to_string(), "C".to_string()]);
    assert_eq!(m.clob_token_ids, Some(vec!["t1".to_string()]));
    let raw = MarketInfo::from_parsed(gamma("Q?"), None, None);
    assert_eq!(raw.outcomes, vec!["[\"Yes\", \"No\"]".to_string()]);
    assert_eq!(raw.clob_token_ids, None);
}
