//! The sampling plan: how the timeline between the first and last price is split
//! into stretches sampled at different densities around the change points.

use vstd::prelude::*;
use crate::sampling::strategy::{SamplingLevel, Span, StrategyIntervals};

verus! {

/// Seconds sampled densely on each side of a change point.
pub open spec fn change_point_margin() -> int {
    3600
}

/// A stretch of the timeline with the interval and level at which to sample it.
#[derive(Debug, Clone, Copy)]
pub struct SamplingTask {
    pub start: i64,
    pub end: i64,
    pub interval: Span,
    pub level: SamplingLevel,
}

/// A planned task as plain values: start, end, interval in nanoseconds, level.
pub type PlannedTask = (int, int, nat, SamplingLevel);

impl View for SamplingTask {
    type V = PlannedTask;

    open spec fn view(&self) -> PlannedTask {
        (self.start as int, self.end as int, self.interval@, self.level)
    }
}

pub open spec fn planned(iv: StrategyIntervals, start: int, end: int, level: SamplingLevel) -> PlannedTask {
    (start, end, iv.interval_for(level), level)
}

/// The tasks for the change points `cps`, when the previous stretch ended at `prev_end`:
/// for each change point, a sparse (Low) stretch from the previous end up to it if it
/// lies later, then a dense (High) stretch of one hour on each side of it.
pub open spec fn change_point_tasks(iv: StrategyIntervals, prev_end: int, cps: Seq<i64>) -> Seq<PlannedTask>
    decreases cps.len(),
{
    if cps.len() == 0 {
        seq![]
    } else {
        let cp = cps[0] as int;
        let sparse = if cp > prev_end {
            seq![planned(iv, prev_end, cp, SamplingLevel::Low)]
        } else {
            seq![]
        };
        sparse
            + seq![planned(iv, cp - change_point_margin(), cp + change_point_margin(), SamplingLevel::High)]
            + change_point_tasks(iv, cp + change_point_margin(), cps.drop_first())
    }
}

/// The plan for prices stamped `prices` (in the order given) and change points `cps`.
/// No prices: no tasks. No change points: one task over the whole span at `quiet_level`.
/// Otherwise the change-point tasks, then a Medium stretch from one hour after the
/// last change point to the last price, if that is later.
pub open spec fn sampling_plan(
    iv: StrategyIntervals,
    prices: Seq<i64>,
    cps: Seq<i64>,
    quiet_level: SamplingLevel,
) -> Seq<PlannedTask> {
    if prices.len() == 0 {
        seq![]
    } else {
        let start = prices[0] as int;
        let end = prices.last() as int;
        if cps.len() == 0 {
            seq![planned(iv, start, end, quiet_level)]
        } else {
            let tail_start = cps.last() + change_point_margin();
            change_point_tasks(iv, start, cps) + if end > tail_start {
                seq![planned(iv, tail_start, end, SamplingLevel::Medium)]
            } else {
                seq![]
            }
        }
    }
}

/// Every change point leaves room for an hour on each side within `i64`.
pub open spec fn change_points_in_range(cps: Seq<i64>) -> bool {
    forall|i: int|
        0 <= i < cps.len() ==> i64::MIN + change_point_margin() <= #[trigger] cps[i] <= i64::MAX
            - change_point_margin()
}

/// What planning needs to run without overflow: room around each change point, and a
/// base interval that can be doubled whenever the Low interval is looked up.
pub open spec fn plan_requirements(
    iv: StrategyIntervals,
    prices: Seq<i64>,
    cps: Seq<i64>,
    quiet_level: SamplingLevel,
) -> bool {
    prices.len() > 0 ==> {
        &&& change_points_in_range(cps)
        &&& (cps.len() > 0 || quiet_level == SamplingLevel::Low) ==> iv.base_doubles()
    }
}

/// Generates the sampling plan from the price timestamps (first and last bound the
/// timeline), the change-point timestamps, and the level chosen for a timeline
/// without change points.
pub fn generate_sampling_plan(
    intervals: &StrategyIntervals,
    price_timestamps: &Vec<i64>,
    change_points: &Vec<i64>,
    quiet_level: SamplingLevel,
) -> (tasks: Vec<SamplingTask>)
    requires
        plan_requirements(*intervals, price_timestamps@, change_points@, quiet_level),
    ensures
        tasks@.map_values(|t: SamplingTask| t@) == sampling_plan(
            *intervals,
            price_timestamps@,
            change_points@,
            quiet_level,
        ),
        price_timestamps.len() > 0 && change_points.len() == 0 ==> {
            &&& tasks.len() == 1
            &&& tasks[0].start == price_timestamps[0]
            &&& tasks[0].end == price_timestamps[price_timestamps.len() - 1]
            &&& tasks[0].level == quiet_level
            &&& tasks[0].interval@ == intervals.interval_for(quiet_level)
        },
{
    proof {
        if price_timestamps.len() > 0 && change_points.len() == 0 {
            assert(change_points@ =~= Seq::<i64>::empty());
            law_quiet_timeline_is_one_task(*intervals, price_timestamps@, quiet_level);
        }
    }
    let mut tasks: Vec<SamplingTask> = Vec::new();
    if price_timestamps.len() == 0 {
        assert(tasks@.map_values(|t: SamplingTask| t@) =~= seq![]);
        return tasks;
    }
    let start = price_timestamps[0];
    let end = price_timestamps[price_timestamps.len() - 1];

    if change_points.len() == 0 {
        let interval = intervals.get_interval_for_level(quiet_level);
        tasks.push(SamplingTask { start, end, interval, level: quiet_level });
        assert(tasks@.map_values(|t: SamplingTask| t@) =~= seq![
            planned(*intervals, start as int, end as int, quiet_level),
        ]);
        return tasks;
    }

    let ghost iv = *intervals;
    let ghost cps = change_points@;
    let mut prev_end: i64 = start;
    let mut i: usize = 0;
    assert(cps.skip(0) =~= cps);
    while i < change_points.len()
        invariant
            iv == *intervals,
            cps == change_points@,
            cps.len() > 0,
            iv.base_doubles(),
            change_points_in_range(cps),
            0 <= i <= cps.len(),
            i > 0 ==> prev_end == cps[i - 1] + change_point_margin(),
            i == 0 ==> prev_end == start,
            tasks@.map_values(|t: SamplingTask| t@) + change_point_tasks(iv, prev_end as int, cps.skip(i as int))
                == change_point_tasks(iv, start as int, cps),
        decreases cps.len() - i,
    {
        let cp = change_points[i];
        let ghost before = tasks@.map_values(|t: SamplingTask| t@);
        let ghost rest = cps.skip(i as int);
        assert(rest[0] == cp);
        assert(rest.drop_first() =~= cps.skip(i + 1));
        let interval = intervals.get_interval_for_level(SamplingLevel::Low);
        if cp > prev_end {
            tasks.push(SamplingTask { start: prev_end, end: cp, interval, level: SamplingLevel::Low });
        }
        let high_interval = intervals.get_interval_for_level(SamplingLevel::High);
        tasks.push(
            SamplingTask {
                start: cp - 3600,
                end: cp + 3600,
                interval: high_interval,
                level: SamplingLevel::High,
            },
        );
        proof {
            let sparse = if cp > prev_end {
                seq![planned(iv, prev_end as int, cp as int, SamplingLevel::Low)]
            } else {
                seq![]
            };
            let dense = seq![planned(iv, cp - 3600, cp + 3600, SamplingLevel::High)];
            assert(tasks@.map_values(|t: SamplingTask| t@) =~= before + sparse + dense);
            assert(change_point_tasks(iv, prev_end as int, rest) == sparse + dense
                + change_point_tasks(iv, cp + 3600, cps.skip(i + 1)));
            assert(before + sparse + dense + change_point_tasks(iv, cp + 3600, cps.skip(i + 1)) =~= before
                + (sparse + dense + change_point_tasks(iv, cp + 3600, cps.skip(i + 1))));
        }
        prev_end = cp + 3600;
        i = i + 1;
    }
    assert(cps.skip(cps.len() as int) =~= seq![]);
    assert(tasks@.map_values(|t: SamplingTask| t@) =~= change_point_tasks(iv, start as int, cps));

    if end > prev_end {
        let interval = intervals.get_interval_for_level(SamplingLevel::Medium);
        tasks.push(SamplingTask { start: prev_end, end, interval, level: SamplingLevel::Medium });
    }
    proof {
        let tail = if end > prev_end {
            seq![planned(iv, prev_end as int, end as int, SamplingLevel::Medium)]
        } else {
            seq![]
        };
        assert(tasks@.map_values(|t: SamplingTask| t@) =~= change_point_tasks(iv, start as int, cps) + tail);
    }
    tasks
}

/// Whether some task's stretch contains the instant `t`.
pub open spec fn covers(tasks: Seq<PlannedTask>, t: int) -> bool {
    exists|k: int| 0 <= k < tasks.len() && (#[trigger] tasks[k]).0 <= t <= tasks[k].1
}

/// Selects the densely sampled (High) tasks.
pub open spec fn dense_tasks() -> spec_fn(PlannedTask) -> bool {
    |t: PlannedTask| t.3 == SamplingLevel::High
}

/// The dense window planned around a change point.
pub open spec fn dense_window(iv: StrategyIntervals) -> spec_fn(i64) -> PlannedTask {
    |cp: i64| planned(iv, cp - change_point_margin(), cp + change_point_margin(), SamplingLevel::High)
}

proof fn lemma_covers_suffix(a: Seq<PlannedTask>, b: Seq<PlannedTask>, t: int)
    requires
        covers(b, t),
    ensures
        covers(a + b, t),
{
    let k = choose|k: int| 0 <= k < b.len() && (#[trigger] b[k]).0 <= t <= b[k].1;
    assert((a + b)[a.len() + k] == b[k]);
}

proof fn lemma_covers_prefix(a: Seq<PlannedTask>, b: Seq<PlannedTask>, t: int)
    requires
        covers(a, t),
    ensures
        covers(a + b, t),
{
    let k = choose|k: int| 0 <= k < a.len() && (#[trigger] a[k]).0 <= t <= a[k].1;
    assert((a + b)[k] == a[k]);
}

proof fn lemma_change_point_tasks_cover(iv: StrategyIntervals, prev_end: int, cps: Seq<i64>, t: int)
    requires
        cps.len() > 0,
        prev_end <= t <= cps.last() + change_point_margin(),
    ensures
        covers(change_point_tasks(iv, prev_end, cps), t),
    decreases cps.len(),
{
    let cp = cps[0] as int;
    let sparse = if cp > prev_end {
        seq![planned(iv, prev_end, cp, SamplingLevel::Low)]
    } else {
        seq![]
    };
    let dense = seq![planned(iv, cp - change_point_margin(), cp + change_point_margin(), SamplingLevel::High)];
    let rest = change_point_tasks(iv, cp + change_point_margin(), cps.drop_first());
    assert(change_point_tasks(iv, prev_end, cps) == sparse + dense + rest);
    if t <= cp + change_point_margin() {
        if cp > prev_end && t <= cp {
            assert(sparse[0].0 <= t <= sparse[0].1);
            lemma_covers_prefix(sparse, dense, t);
            lemma_covers_prefix(sparse + dense, rest, t);
        } else {
            assert(dense[0].0 <= t <= dense[0].1);
            lemma_covers_suffix(sparse, dense, t);
            lemma_covers_prefix(sparse + dense, rest, t);
        }
    } else {
        assert(cps.len() > 1);
        assert(cps.drop_first().last() == cps.last());
        lemma_change_point_tasks_cover(iv, cp + change_point_margin(), cps.drop_first(), t);
        lemma_covers_suffix(sparse + dense, rest, t);
    }
}

/// The plan leaves no gap: every instant from the first to the last price timestamp
/// falls inside some planned stretch.
pub proof fn law_plan_covers_timeline(
    iv: StrategyIntervals,
    prices: Seq<i64>,
    cps: Seq<i64>,
    quiet_level: SamplingLevel,
    t: int,
)
    requires
        prices.len() > 0,
        prices[0] <= t <= prices.last(),
    ensures
        covers(sampling_plan(iv, prices, cps, quiet_level), t),
{
    let plan = sampling_plan(iv, prices, cps, quiet_level);
    if cps.len() == 0 {
        assert(plan[0].0 <= t <= plan[0].1);
    } else {
        let tail_start = cps.last() + change_point_margin();
        let head = change_point_tasks(iv, prices[0] as int, cps);
        let tail = if prices.last() > tail_start {
            seq![planned(iv, tail_start, prices.last() as int, SamplingLevel::Medium)]
        } else {
            seq![]
        };
        assert(plan == head + tail);
        if t <= tail_start {
            lemma_change_point_tasks_cover(iv, prices[0] as int, cps, t);
            lemma_covers_prefix(head, tail, t);
        } else {
            assert(tail[0].0 <= t <= tail[0].1);
            lemma_covers_suffix(head, tail, t);
        }
    }
}

proof fn lemma_dense_tasks_of_change_points(iv: StrategyIntervals, prev_end: int, cps: Seq<i64>)
    ensures
        change_point_tasks(iv, prev_end, cps).filter(dense_tasks()) == cps.map_values(dense_window(iv)),
    decreases cps.len(),
{
    broadcast use Seq::filter_distributes_over_add;

    if cps.len() == 0 {
        assert(cps.map_values(dense_window(iv)) =~= seq![]);
    } else {
        let cp = cps[0] as int;
        let sparse = if cp > prev_end {
            seq![planned(iv, prev_end, cp, SamplingLevel::Low)]
        } else {
            seq![]
        };
        let dense = seq![planned(iv, cp - change_point_margin(), cp + change_point_margin(), SamplingLevel::High)];
        let rest = change_point_tasks(iv, cp + change_point_margin(), cps.drop_first());
        lemma_dense_tasks_of_change_points(iv, cp + change_point_margin(), cps.drop_first());
        reveal_with_fuel(Seq::filter, 2);
        assert(sparse.filter(dense_tasks()) =~= seq![]);
        assert(dense.filter(dense_tasks()) =~= dense);
        assert((sparse + dense + rest).filter(dense_tasks()) == sparse.filter(dense_tasks()) + dense.filter(
            dense_tasks(),
        ) + rest.filter(dense_tasks()));
        assert(cps.map_values(dense_window(iv)) =~= dense + cps.drop_first().map_values(dense_window(iv)));
    }
}

/// Each change point gets exactly one dense (High) stretch, an hour on either side of
/// it, and these are the only dense stretches, in the order of the change points.
pub proof fn law_one_dense_window_per_change_point(
    iv: StrategyIntervals,
    prices: Seq<i64>,
    cps: Seq<i64>,
    quiet_level: SamplingLevel,
)
    requires
        prices.len() > 0,
        cps.len() > 0,
    ensures
        sampling_plan(iv, prices, cps, quiet_level).filter(dense_tasks()) == cps.map_values(dense_window(iv)),
{
    broadcast use Seq::filter_distributes_over_add;

    let tail_start = cps.last() + change_point_margin();
    let head = change_point_tasks(iv, prices[0] as int, cps);
    let tail = if prices.last() > tail_start {
        seq![planned(iv, tail_start, prices.last() as int, SamplingLevel::Medium)]
    } else {
        seq![]
    };
    lemma_dense_tasks_of_change_points(iv, prices[0] as int, cps);
    reveal_with_fuel(Seq::filter, 2);
    assert(tail.filter(dense_tasks()) =~= seq![]);
    assert((head + tail).filter(dense_tasks()) == head.filter(dense_tasks()) + tail.filter(dense_tasks()));
    assert(head.filter(dense_tasks()) + tail.filter(dense_tasks()) =~= head.filter(dense_tasks()));
}

/// A plan is empty exactly when there are no prices.
pub proof fn law_plan_empty_iff_no_prices(
    iv: StrategyIntervals,
    prices: Seq<i64>,
    cps: Seq<i64>,
    quiet_level: SamplingLevel,
)
    ensures
        (sampling_plan(iv, prices, cps, quiet_level).len() == 0) == (prices.len() == 0),
{
    if prices.len() > 0 && cps.len() > 0 {
        let t = prices[0] as int;
        if prices[0] <= prices.last() {
            law_plan_covers_timeline(iv, prices, cps, quiet_level, t);
        } else {
            let cp = cps[0] as int;
            let sparse = if cp > t {
                seq![planned(iv, t, cp, SamplingLevel::Low)]
            } else {
                seq![]
            };
            let dense = seq![planned(iv, cp - change_point_margin(), cp + change_point_margin(), SamplingLevel::High)];
            let rest = change_point_tasks(iv, cp + change_point_margin(), cps.drop_first());
            assert(change_point_tasks(iv, t, cps) == sparse + dense + rest);
        }
    }
}

/// A timeline without change points is sampled as one stretch, from the first to the
/// last price, at the level given for it and that level's interval.
pub proof fn law_quiet_timeline_is_one_task(
    iv: StrategyIntervals,
    prices: Seq<i64>,
    quiet_level: SamplingLevel,
)
    requires
        prices.len() > 0,
    ensures
        sampling_plan(iv, prices, Seq::empty(), quiet_level) == seq![
            (prices[0] as int, prices.last() as int, iv.interval_for(quiet_level), quiet_level),
        ],
{
}

/// The end of the stretch before the `k`-th change point: the start of the timeline
/// for the first, an hour after the previous change point for the others.
pub open spec fn stretch_start(start: int, cps: Seq<i64>, k: int) -> int {
    if k == 0 {
        start
    } else {
        cps[k - 1] + change_point_margin()
    }
}

proof fn lemma_change_point_task_shapes(iv: StrategyIntervals, prev_end: int, cps: Seq<i64>)
    ensures
        forall|i: int|
            0 <= i < change_point_tasks(iv, prev_end, cps).len() ==> {
                let t = #[trigger] change_point_tasks(iv, prev_end, cps)[i];
                &&& t.2 == iv.interval_for(t.3)
                &&& t.3 != SamplingLevel::Medium
                &&& t.3 == SamplingLevel::High ==> exists|k: int|
                    0 <= k < cps.len() && t.0 == cps[k] - 3600 && #[trigger] cps[k] + 3600 == t.1
                &&& t.3 == SamplingLevel::Low ==> exists|k: int|
                    0 <= k < cps.len() && t.0 == stretch_start(prev_end, cps, k) && #[trigger] cps[k] == t.1
                        && t.0 < t.1
            },
    decreases cps.len(),
{
    if cps.len() > 0 {
        let cp = cps[0] as int;
        let sparse = if cp > prev_end {
            seq![planned(iv, prev_end, cp, SamplingLevel::Low)]
        } else {
            seq![]
        };
        let dense = seq![planned(iv, cp - change_point_margin(), cp + change_point_margin(), SamplingLevel::High)];
        let tail = cps.drop_first();
        let rest = change_point_tasks(iv, cp + change_point_margin(), tail);
        let all = change_point_tasks(iv, prev_end, cps);
        assert(all == sparse + dense + rest);
        lemma_change_point_task_shapes(iv, cp + change_point_margin(), tail);
        assert forall|i: int| 0 <= i < all.len() implies {
            let t = #[trigger] all[i];
            &&& t.2 == iv.interval_for(t.3)
            &&& t.3 != SamplingLevel::Medium
            &&& t.3 == SamplingLevel::High ==> exists|k: int|
                0 <= k < cps.len() && t.0 == cps[k] - 3600 && #[trigger] cps[k] + 3600 == t.1
            &&& t.3 == SamplingLevel::Low ==> exists|k: int|
                0 <= k < cps.len() && t.0 == stretch_start(prev_end, cps, k) && #[trigger] cps[k] == t.1 && t.0
                    < t.1
        } by {
            let t = all[i];
            let head = sparse + dense;
            if i < sparse.len() {
                assert(t == sparse[i]);
                assert(cps[0] == t.1);
            } else if i < head.len() {
                assert(t == dense[i - sparse.len()]);
                assert(cps[0] + 3600 == t.1);
            } else {
                let r = rest[i - head.len()];
                assert(t == r);
                if t.3 == SamplingLevel::High {
                    let k = choose|k: int| 0 <= k < tail.len() && r.0 == tail[k] - 3600 && #[trigger] tail[k] + 3600 == r.1;
                    assert(cps[k + 1] == tail[k]);
                    assert(cps[k + 1] + 3600 == t.1);
                }
                if t.3 == SamplingLevel::Low {
                    let k = choose|k: int|
                        0 <= k < tail.len() && r.0 == stretch_start(cp + change_point_margin(), tail, k)
                            && #[trigger] tail[k] == r.1 && r.0 < r.1;
                    assert(cps[k + 1] == tail[k]);
                    if k > 0 {
                        assert(tail[k - 1] == cps[k]);
                    }
                    assert(stretch_start(prev_end, cps, k + 1) == stretch_start(cp + change_point_margin(), tail, k));
                    assert(cps[k + 1] == t.1);
                }
            }
        }
    }
}

/// The stretches of a plan with change points: each is sampled at its level's
/// interval; a dense (High) stretch runs from an hour before to an hour after a change
/// point; a sparse (Low) stretch runs from the start of the timeline, or an hour after
/// the previous change point, up to a later change point; and a Medium stretch is only
/// the last one, from an hour after the last change point to the last price.
pub proof fn law_change_point_plan_stretches(
    iv: StrategyIntervals,
    prices: Seq<i64>,
    cps: Seq<i64>,
    quiet_level: SamplingLevel,
)
    requires
        prices.len() > 0,
        cps.len() > 0,
    ensures
        forall|i: int|
            0 <= i < sampling_plan(iv, prices, cps, quiet_level).len() ==> {
                let plan = sampling_plan(iv, prices, cps, quiet_level);
                let t = #[trigger] sampling_plan(iv, prices, cps, quiet_level)[i];
                &&& t.2 == iv.interval_for(t.3)
                &&& t.3 == SamplingLevel::High ==> exists|k: int|
                    0 <= k < cps.len() && t.0 == cps[k] - 3600 && #[trigger] cps[k] + 3600 == t.1
                &&& t.3 == SamplingLevel::Low ==> exists|k: int|
                    0 <= k < cps.len() && t.0 == stretch_start(prices[0] as int, cps, k) && #[trigger] cps[k]
                        == t.1 && t.0 < t.1
                &&& t.3 == SamplingLevel::Medium ==> i == plan.len() - 1 && t.0 == cps.last() + 3600 && t.1
                    == prices.last() && t.0 < t.1
            },
{
    let plan = sampling_plan(iv, prices, cps, quiet_level);
    let tail_start = cps.last() + change_point_margin();
    let head = change_point_tasks(iv, prices[0] as int, cps);
    let tail = if prices.last() > tail_start {
        seq![planned(iv, tail_start, prices.last() as int, SamplingLevel::Medium)]
    } else {
        seq![]
    };
    assert(plan == head + tail);
    lemma_change_point_task_shapes(iv, prices[0] as int, cps);
    assert forall|i: int| 0 <= i < plan.len() implies {
        let t = #[trigger] plan[i];
        &&& t.2 == iv.interval_for(t.3)
        &&& t.3 == SamplingLevel::High ==> exists|k: int|
            0 <= k < cps.len() && t.0 == cps[k] - 3600 && #[trigger] cps[k] + 3600 == t.1
        &&& t.3 == SamplingLevel::Low ==> exists|k: int|
            0 <= k < cps.len() && t.0 == stretch_start(prices[0] as int, cps, k) && #[trigger] cps[k] == t.1
                && t.0 < t.1
        &&& t.3 == SamplingLevel::Medium ==> i == plan.len() - 1 && t.0 == cps.last() + 3600 && t.1
            == prices.last() && t.0 < t.1
    } by {
        if i < head.len() {
            assert(plan[i] == head[i]);
        } else {
            assert(plan[i] == tail[i - head.len()]);
        }
    }
}

} // verus!
