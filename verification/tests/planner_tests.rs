use ploy_clean::sampling::planner::{generate_sampling_plan, SamplingTask};
use ploy_clean::sampling::strategy::{SamplingLevel, StrategyIntervals};

fn hourly(n: i64, start: i64) -> Vec<i64> {
    (0..n).map(|i| start + i * 3600).collect()
}

fn covered(tasks: &[SamplingTask], t: i64) -> bool {
    tasks.iter().any(|task| task.start <= t && t <= task.end)
}

#[test]
fn test_generate_sampling_plan_no_changes() {
    let iv = StrategyIntervals::default();
    let prices = hourly(24, 1_000_000);
    let tasks = generate_sampling_plan(&iv, &prices, &Vec::new(), SamplingLevel::Low);
    assert_eq!(tasks.len(), 1);
    assert_eq!(tasks[0].start, 1_000_000);
    assert_eq!(tasks[0].end, 1_000_000 + 23 * 3600);
    assert_eq!(tasks[0].level, SamplingLevel::Low);
    assert_eq!(tasks[0].interval.as_secs(), 7200);
}

#[test]
fn no_prices_give_no_plan() {
    let iv = StrategyIntervals::default();
    let tasks = generate_sampling_plan(&iv, &Vec::new(), &vec![5000], SamplingLevel::High);
    assert!(tasks.is_empty());
}

#[test]
fn plan_around_one_change_point() {
    let iv = StrategyIntervals::default();
    let prices = hourly(48, 0);
    let cp = 20 * 3600;
    let tasks = generate_sampling_plan(&iv, &prices, &vec![cp], SamplingLevel::Medium);
    assert_eq!(tasks.len(), 3);
    assert_eq!((tasks[0].start, tasks[0].end, tasks[0].level), (0, cp, SamplingLevel::Low));
    assert_eq!(tasks[0].interval.as_secs(), 7200);
    assert_eq!((tasks[1].start, tasks[1].end, tasks[1].level), (cp - 3600, cp + 3600, SamplingLevel::High));
    assert_eq!(tasks[1].interval.as_secs(), 60);
    assert_eq!((tasks[2].start, tasks[2].end, tasks[2].level), (cp + 3600, 47 * 3600, SamplingLevel::Medium));
    assert_eq!(tasks[2].interval.as_secs(), 1800);
}

#[test]
fn close_change_points_skip_the_sparse_stretch() {
    let iv = StrategyIntervals::default();
    let prices = hourly(10, 0);
    let tasks = generate_sampling_plan(&iv, &prices, &vec![3600, 5000], SamplingLevel::Low);
    let levels: Vec<SamplingLevel> = tasks.iter().map(|t| t.level).collect();
    assert_eq!(
        levels,
        vec![SamplingLevel::Low, SamplingLevel::High, SamplingLevel::High, SamplingLevel::Medium]
    );
    assert_eq!((tasks[2].start, tasks[2].end), (5000 - 3600, 5000 + 3600));
    assert_eq!((tasks[3].start, tasks[3].end), (5000 + 3600, 9 * 3600));
}

#[test]
fn last_change_point_near_the_end_leaves_no_tail() {
    let iv = StrategyIntervals::default();
    let prices = hourly(5, 0);
    let tasks = generate_sampling_plan(&iv, &prices, &vec![4 * 3600], SamplingLevel::Low);
    assert_eq!(tasks.len(), 2);
    assert_eq!(tasks[1].level, SamplingLevel::High);
}

#[test]
fn plan_covers_every_instant_of_the_timeline() {
    let iv = StrategyIntervals::default();
    let prices = hourly(72, 10_000);
    let cps = vec![10_000 + 5 * 3600, 10_000 + 6 * 3600, 10_000 + 40 * 3600];
    let tasks = generate_sampling_plan(&iv, &prices, &cps, SamplingLevel::Low);
    let mut t = prices[0];
    while t <= prices[prices.len() - 1] {
        assert!(covered(&tasks, t), "instant {} not covered", t);
        t += 600;
    }
}

#[test]
fn one_dense_window_per_change_point() {
    let iv = StrategyIntervals::default();
    let prices = hourly(72, 0);
    let cps = vec![7200, 9000, 50 * 3600];
    let tasks = generate_sampling_plan(&iv, &prices, &cps, SamplingLevel::Low);
    let dense: Vec<(i64, i64)> = tasks
        .iter()
        .filter(|t| t.level == SamplingLevel::High)
        .map(|t| (t.start, t.end))
        .collect();
    let expected: Vec<(i64, i64)> = cps.iter().map(|c| (c - 3600, c + 3600)).collect();
    assert_eq!(dense, expected);
}
