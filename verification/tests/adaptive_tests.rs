use ploy_clean::models::market::encode_market_lists;
use ploy_clean::models::price::Interval;
use ploy_clean::sampling::adaptive::{assemble_adaptive, plan_adaptive_fetches, FetchRequest, Pick};

#[test]
fn no_coarse_data_means_no_fetches() {
    assert!(plan_adaptive_fetches(&vec![100_000], None).is_empty());
}

#[test]
fn without_change_points_fetch_recent_since_first_price() {
    let fetches = plan_adaptive_fetches(&Vec::new(), Some(5000));
    assert_eq!(fetches, vec![FetchRequest::Recent { since: 5000 }]);
    assert_eq!(fetches[0].interval(), Interval::FiveMinutes);
    assert!(!fetches[0].keeps(5000));
    assert!(fetches[0].keeps(5001));
}

#[test]
fn each_change_point_gets_its_surroundings() {
    let fetches = plan_adaptive_fetches(&vec![100_000, 200_000], Some(0));
    assert_eq!(
        fetches,
        vec![
            FetchRequest::Surroundings { start: 100_000 - 43_200, end: 100_000 + 43_200 },
            FetchRequest::Surroundings { start: 200_000 - 43_200, end: 200_000 + 43_200 },
            FetchRequest::Recent { since: 200_000 },
        ]
    );
    assert_eq!(fetches[0].interval(), Interval::OneHour);
    assert!(fetches[0].keeps(100_000 - 43_200));
    assert!(fetches[0].keeps(100_000 + 36_000));
    assert!(fetches[0].keeps(100_000 + 43_200));
    assert!(!fetches[0].keeps(100_000 + 43_201));
    assert!(!fetches[0].keeps(100_000 - 43_201));
}

fn pick(source: usize, index: usize, timestamp: i64) -> Pick {
    Pick { source, index, timestamp }
}

#[test]
fn assembly_keeps_window_prices_recent_prices_and_uncovered_coarse_prices() {
    let fetches = plan_adaptive_fetches(&vec![100_000], Some(0));
    let hourly = vec![50_000, 60_000, 136_000, 150_000];
    let recent = vec![99_000, 100_300, 200_000];
    let coarse = vec![0, 86_400, 172_800];
    let r = assemble_adaptive(&fetches, &vec![hourly, recent], &coarse);
    assert_eq!(
        r,
        vec![
            pick(0, 1, 60_000),
            pick(0, 2, 136_000),
            pick(1, 1, 100_300),
            pick(1, 2, 200_000),
            pick(2, 0, 0),
            pick(2, 2, 172_800),
        ]
    );
}

#[test]
fn assembly_keeps_repeated_timestamps_of_fine_prices() {
    let fetches = plan_adaptive_fetches(&vec![100_000, 110_000], Some(0));
    // both windows hold 105_000 and 120_000; the recent fetch has 120_000 too; a coarse
    // price outside the windows has a recent price's timestamp
    let r = assemble_adaptive(
        &fetches,
        &vec![vec![105_000], vec![105_000, 120_000], vec![120_000, 300_000]],
        &vec![100_000, 300_000, 400_000],
    );
    assert_eq!(
        r,
        vec![
            pick(0, 0, 105_000),
            pick(1, 0, 105_000),
            pick(1, 1, 120_000),
            pick(2, 0, 120_000),
            pick(2, 1, 300_000),
            pick(3, 1, 300_000),
            pick(3, 2, 400_000),
        ]
    );
}

#[test]
fn run_without_coarse_data_yields_nothing() {
    let fetches = plan_adaptive_fetches(&Vec::new(), None);
    assert!(assemble_adaptive(&fetches, &Vec::new(), &Vec::new()).is_empty());
}
