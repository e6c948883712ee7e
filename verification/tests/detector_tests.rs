use ploy_clean::sampling::detector::{merge_nearby_change_points, time_order, MergeCandidate, WindowScan};

fn walk(window: usize, min_samples: usize, len: usize, changes_at: &[usize]) -> Vec<usize> {
    let mut scan = WindowScan::new(window, min_samples, len);
    let mut tested = Vec::new();
    while let Some(p) = scan.next_window() {
        tested.push(p);
        scan.advance(changes_at.contains(&p));
    }
    tested
}

#[test]
fn short_series_has_no_window() {
    assert!(walk(5, 10, 19, &[]).is_empty());
}

#[test]
fn walk_steps_one_position_without_changes() {
    let tested = walk(5, 10, 30, &[]);
    assert_eq!(tested, (5..25).collect::<Vec<usize>>());
}

#[test]
fn walk_skips_a_window_after_a_change() {
    let tested = walk(5, 10, 40, &[20]);
    assert_eq!(tested[..16].to_vec(), (5..21).collect::<Vec<usize>>());
    assert_eq!(tested[16], 25);
    assert_eq!(*tested.last().unwrap(), 34);
}

#[test]
fn windows_stay_inside_the_series() {
    for p in walk(3, 1, 12, &[4, 9]) {
        assert!(p >= 3 && p + 3 < 12);
    }
}

#[test]
fn time_order_is_stable() {
    let pts = vec![
        MergeCandidate { timestamp: 30, strength: 1 },
        MergeCandidate { timestamp: 10, strength: 2 },
        MergeCandidate { timestamp: 30, strength: 3 },
        MergeCandidate { timestamp: 20, strength: 4 },
    ];
    assert_eq!(time_order(&pts), vec![1, 3, 0, 2]);
}

#[test]
fn merge_keeps_single_points() {
    assert!(merge_nearby_change_points(&Vec::new(), 24).is_empty());
    let one = vec![MergeCandidate { timestamp: 5, strength: 0 }];
    assert_eq!(merge_nearby_change_points(&one, 24), vec![0]);
}

#[test]
fn merge_keeps_the_strongest_of_close_points() {
    let pts = vec![
        MergeCandidate { timestamp: 100, strength: 1 },
        MergeCandidate { timestamp: 105, strength: 9 },
        MergeCandidate { timestamp: 108, strength: 4 },
        MergeCandidate { timestamp: 500, strength: 2 },
    ];
    assert_eq!(merge_nearby_change_points(&pts, 24), vec![1, 3]);
}

#[test]
fn merge_sorts_before_merging() {
    let pts = vec![
        MergeCandidate { timestamp: 500, strength: 2 },
        MergeCandidate { timestamp: 100, strength: 1 },
        MergeCandidate { timestamp: 104, strength: 1 },
    ];
    // equal strengths keep the earlier point
    assert_eq!(merge_nearby_change_points(&pts, 24), vec![1, 0]);
}

#[test]
fn merged_points_are_half_a_window_apart() {
    let pts: Vec<MergeCandidate> = (0..40)
        .map(|i| MergeCandidate { timestamp: (i * 7) % 97, strength: (i * 13 % 11) as u64 })
        .collect();
    let kept = merge_nearby_change_points(&pts, 24);
    for w in kept.windows(2) {
        assert!(pts[w[1]].timestamp - pts[w[0]].timestamp >= 12);
    }
}

#[test]
fn window_of_one_merges_nothing() {
    let pts = vec![
        MergeCandidate { timestamp: 1, strength: 1 },
        MergeCandidate { timestamp: 1, strength: 5 },
    ];
    // half of 1 is 0: a zero gap is not below it
    assert_eq!(merge_nearby_change_points(&pts, 1), vec![0, 1]);
}
