//! The fetches of one adaptive sampling run.
//!
//! After the coarse (daily) history of a token has been fetched and its change points
//! found, the run fetches hourly prices around each change point and five-minute prices
//! since the last change point (or since the first coarse price when there is none).
//! The fetching is done by the caller; this module says what to fetch, which of the
//! fetched prices to keep, and how the kept prices and the coarse history are put
//! together (the coarse prices inside a change-point window are left out).

use vstd::prelude::*;
use crate::models::price::Interval;

verus! {

/// Seconds before a change point whose hourly prices are fetched.
pub open spec fn lead_seconds() -> int {
    43200
}

/// Seconds after a change point whose hourly prices are fetched.
pub open spec fn trail_seconds() -> int {
    43200
}

/// One fetch of a sampling run and the prices it keeps.
#[derive(Debug, Clone, Copy, PartialEq, Eq, Structural)]
pub enum FetchRequest {
    /// Hourly prices stamped from `start` to `end`, both included.
    Surroundings { start: i64, end: i64 },
    /// Five-minute prices stamped after `since`.
    Recent { since: i64 },
}

impl FetchRequest {
    /// The interval at which the request fetches prices.
    pub open spec fn interval_spec(self) -> Interval {
        match self {
            FetchRequest::Surroundings { .. } => Interval::OneHour,
            FetchRequest::Recent { .. } => Interval::FiveMinutes,
        }
    }

    /// Whether the request keeps a price stamped `ts`.
    pub open spec fn keeps_spec(self, ts: int) -> bool {
        match self {
            FetchRequest::Surroundings { start, end } => start <= ts <= end,
            FetchRequest::Recent { since } => ts > since,
        }
    }

    /// The interval at which to fetch.
    pub fn interval(&self) -> (r: Interval)
        ensures
            r == self.interval_spec(),
    {
        match self {
            FetchRequest::Surroundings { .. } => Interval::OneHour,
            FetchRequest::Recent { .. } => Interval::FiveMinutes,
        }
    }

    /// Whether a fetched price stamped `ts` is kept.
    pub fn keeps(&self, ts: i64) -> (r: bool)
        ensures
            r == self.keeps_spec(ts as int),
    {
        match self {
            FetchRequest::Surroundings { start, end } => *start <= ts && ts <= *end,
            FetchRequest::Recent { since } => ts > *since,
        }
    }
}

/// The fetch around a change point at `cp`: from twelve hours before to twelve hours after.
pub open spec fn surroundings_of(cp: int) -> FetchRequest {
    FetchRequest::Surroundings { start: (cp - lead_seconds()) as i64, end: (cp + trail_seconds()) as i64 }
}

/// The fetches of a run: one around each change point, in order, then the recent
/// prices since the last change point, or since the first coarse price if there is no
/// change point. A run without coarse prices fetches nothing.
pub open spec fn adaptive_fetches(change_points: Seq<i64>, first_coarse: Option<i64>) -> Seq<FetchRequest> {
    match first_coarse {
        None => Seq::empty(),
        Some(first) => {
            let since = if change_points.len() > 0 {
                change_points.last()
            } else {
                first
            };
            change_points.map_values(|cp: i64| surroundings_of(cp as int)).push(
                FetchRequest::Recent { since },
            )
        },
    }
}

/// Change points leave room for their fetch windows within `i64`.
pub open spec fn windows_fit(change_points: Seq<i64>) -> bool {
    forall|i: int|
        0 <= i < change_points.len() ==> i64::MIN + lead_seconds() <= #[trigger] change_points[i]
            <= i64::MAX - trail_seconds()
}

/// Plans the fetches of an adaptive sampling run from the change-point timestamps and
/// the timestamp of the first coarse price, if any.
pub fn plan_adaptive_fetches(change_points: &Vec<i64>, first_coarse: Option<i64>) -> (r: Vec<FetchRequest>)
    requires
        first_coarse is Some ==> windows_fit(change_points@),
    ensures
        r@ == adaptive_fetches(change_points@, first_coarse),
{
    let mut fetches: Vec<FetchRequest> = Vec::new();
    let first = match first_coarse {
        None => {
            assert(fetches@ =~= adaptive_fetches(change_points@, first_coarse));
            return fetches;
        },
        Some(f) => f,
    };
    let mut i: usize = 0;
    while i < change_points.len()
        invariant
            0 <= i <= change_points.len(),
            windows_fit(change_points@),
            fetches@ == change_points@.take(i as int).map_values(|cp: i64| surroundings_of(cp as int)),
        decreases change_points.len() - i,
    {
        let cp = change_points[i];
        fetches.push(FetchRequest::Surroundings { start: cp - 12 * 3600, end: cp + 12 * 3600 });
        assert(change_points@.take(i + 1) =~= change_points@.take(i as int).push(cp));
        i = i + 1;
    }
    assert(change_points@.take(change_points.len() as int) =~= change_points@);
    let since = if change_points.len() > 0 {
        change_points[change_points.len() - 1]
    } else {
        first
    };
    fetches.push(FetchRequest::Recent { since });
    fetches
}

/// One price of a run's result: the `index`-th price of source `source` (a fetch of
/// the run by its position, or the coarse history, numbered after the fetches).
#[derive(Debug, Clone, Copy, PartialEq, Eq, Structural)]
pub struct Pick {
    pub source: usize,
    pub index: usize,
    pub timestamp: i64,
}

/// The prices that `req` keeps of the `source`-th fetch, stamped `stamps`, in order.
pub open spec fn kept_of(req: FetchRequest, source: usize, stamps: Seq<i64>) -> Seq<Pick>
    decreases stamps.len(),
{
    if stamps.len() == 0 {
        Seq::empty()
    } else {
        let rest = kept_of(req, source, stamps.drop_last());
        if req.keeps_spec(stamps.last() as int) {
            rest.push(Pick { source, index: (stamps.len() - 1) as usize, timestamp: stamps.last() })
        } else {
            rest
        }
    }
}

/// The kept prices of every fetch, fetch by fetch, in order.
pub open spec fn fine_candidates(fetches: Seq<FetchRequest>, fetched: Seq<Seq<i64>>) -> Seq<Pick>
    decreases fetched.len(),
{
    if fetched.len() == 0 {
        Seq::empty()
    } else {
        let k = fetched.len() - 1;
        fine_candidates(fetches, fetched.drop_last()) + kept_of(fetches[k], k as usize, fetched.last())
    }
}

/// Whether the fetch is one around a change point and its window holds `ts`.
pub open spec fn window_keeps(req: FetchRequest, ts: int) -> bool {
    req is Surroundings && req.keeps_spec(ts)
}

/// Whether `ts` lies in the window around some change point of the run.
pub open spec fn in_window(fetches: Seq<FetchRequest>, ts: int) -> bool {
    exists|k: int| 0 <= k < fetches.len() && window_keeps(#[trigger] fetches[k], ts)
}

/// The coarse prices outside every change-point window, in order, as picks of `source`.
pub open spec fn coarse_candidates(fetches: Seq<FetchRequest>, coarse: Seq<i64>, source: usize) -> Seq<Pick>
    decreases coarse.len(),
{
    if coarse.len() == 0 {
        Seq::empty()
    } else {
        let rest = coarse_candidates(fetches, coarse.drop_last(), source);
        if !in_window(fetches, coarse.last() as int) {
            rest.push(Pick { source, index: (coarse.len() - 1) as usize, timestamp: coarse.last() })
        } else {
            rest
        }
    }
}

/// The result of a run: the kept prices of its fetches in order, then the coarse prices
/// outside every change-point window, in order.
pub open spec fn assembled(fetches: Seq<FetchRequest>, fetched: Seq<Seq<i64>>, coarse: Seq<i64>) -> Seq<Pick> {
    fine_candidates(fetches, fetched) + coarse_candidates(fetches, coarse, fetches.len() as usize)
}

/// Fetch `source` keeps `stamps`: the picks that `kept_of` lists, in a loop.
fn collect_kept(req: FetchRequest, source: usize, stamps: &Vec<i64>, picks: &mut Vec<Pick>)
    ensures
        final(picks)@ == old(picks)@ + kept_of(req, source, stamps@),
{
    let ghost start = picks@;
    let mut i: usize = 0;
    assert(stamps@.take(0) =~= Seq::<i64>::empty());
    assert(start + Seq::<Pick>::empty() =~= start);
    while i < stamps.len()
        invariant
            0 <= i <= stamps.len(),
            picks@ == start + kept_of(req, source, stamps@.take(i as int)),
        decreases stamps.len() - i,
    {
        let ts = stamps[i];
        let ghost before = stamps@.take(i as int);
        let ghost after = stamps@.take(i + 1);
        assert(after.drop_last() =~= before);
        assert(after.last() == ts);
        if req.keeps(ts) {
            picks.push(Pick { source, index: i, timestamp: ts });
            assert(picks@ =~= start + kept_of(req, source, after));
        } else {
            assert(picks@ =~= start + kept_of(req, source, after));
        }
        i = i + 1;
    }
    assert(stamps@.take(stamps.len() as int) =~= stamps@);
}

/// Whether `ts` lies in the window around some change point of the run.
fn in_any_window(fetches: &Vec<FetchRequest>, ts: i64) -> (r: bool)
    ensures
        r == in_window(fetches@, ts as int),
{
    let mut k: usize = 0;
    while k < fetches.len()
        invariant
            0 <= k <= fetches.len(),
            forall|j: int| 0 <= j < k ==> !window_keeps(#[trigger] fetches@[j], ts as int),
        decreases fetches.len() - k,
    {
        let req = fetches[k];
        let hit = match req {
            FetchRequest::Surroundings { .. } => req.keeps(ts),
            FetchRequest::Recent { .. } => false,
        };
        if hit {
            assert(window_keeps(fetches@[k as int], ts as int));
            return true;
        }
        k = k + 1;
    }
    false
}

/// Assembles the result of a run from its fetches, what each fetch returned (timestamps,
/// in order) and the coarse history's timestamps: the kept prices of the fetches in
/// order, then the coarse prices outside every change-point window.
pub fn assemble_adaptive(fetches: &Vec<FetchRequest>, fetched: &Vec<Vec<i64>>, coarse: &Vec<i64>) -> (r: Vec<Pick>)
    requires
        fetched.len() == fetches.len(),
    ensures
        r@ == assembled(fetches@, fetched@.map_values(|v: Vec<i64>| v@), coarse@),
{
    let ghost views = fetched@.map_values(|v: Vec<i64>| v@);
    let mut cands: Vec<Pick> = Vec::new();
    let mut k: usize = 0;
    assert(views.take(0) =~= Seq::<Seq<i64>>::empty());
    while k < fetches.len()
        invariant
            0 <= k <= fetches.len(),
            fetched.len() == fetches.len(),
            views == fetched@.map_values(|v: Vec<i64>| v@),
            cands@ == fine_candidates(fetches@, views.take(k as int)),
        decreases fetches.len() - k,
    {
        let ghost after = views.take(k + 1);
        assert(after.drop_last() =~= views.take(k as int));
        assert(after.last() == fetched@[k as int]@);
        collect_kept(fetches[k], k, &fetched[k], &mut cands);
        k = k + 1;
    }
    assert(views.take(fetches.len() as int) =~= views);
    let ghost fine = cands@;
    let source = fetches.len();
    let mut i: usize = 0;
    assert(coarse@.take(0) =~= Seq::<i64>::empty());
    assert(fine + Seq::<Pick>::empty() =~= fine);
    while i < coarse.len()
        invariant
            0 <= i <= coarse.len(),
            source == fetches.len(),
            cands@ == fine + coarse_candidates(fetches@, coarse@.take(i as int), source),
        decreases coarse.len() - i,
    {
        let ts = coarse[i];
        let ghost after = coarse@.take(i + 1);
        assert(after.drop_last() =~= coarse@.take(i as int));
        assert(after.last() == ts);
        if !in_any_window(fetches, ts) {
            cands.push(Pick { source, index: i, timestamp: ts });
        }
        assert(cands@ =~= fine + coarse_candidates(fetches@, after, source));
        i = i + 1;
    }
    assert(coarse@.take(coarse.len() as int) =~= coarse@);
    cands
}

/// Every pick that `kept_of` lists comes from `source` and is kept by `req`.
proof fn lemma_kept_of(req: FetchRequest, source: usize, stamps: Seq<i64>)
    ensures
        forall|p: Pick| kept_of(req, source, stamps).contains(p) ==> p.source == source && req.keeps_spec(
            p.timestamp as int,
        ),
    decreases stamps.len(),
{
    if stamps.len() > 0 {
        lemma_kept_of(req, source, stamps.drop_last());
        let rest = kept_of(req, source, stamps.drop_last());
        assert forall|p: Pick| kept_of(req, source, stamps).contains(p) implies p.source == source
            && req.keeps_spec(p.timestamp as int) by {
            let c = kept_of(req, source, stamps);
            let i = choose|i: int| 0 <= i < c.len() && c[i] == p;
            if i < rest.len() {
                assert(rest[i] == c[i]);
                assert(rest.contains(p));
            }
        }
    }
}

/// Every fine candidate comes from one of the fetches and is kept by it.
proof fn lemma_fine_candidates(fetches: Seq<FetchRequest>, fetched: Seq<Seq<i64>>)
    requires
        fetched.len() <= usize::MAX,
    ensures
        forall|p: Pick|
            fine_candidates(fetches, fetched).contains(p) ==> p.source < fetched.len()
                && fetches[p.source as int].keeps_spec(p.timestamp as int),
    decreases fetched.len(),
{
    if fetched.len() > 0 {
        let k = fetched.len() - 1;
        let front = fine_candidates(fetches, fetched.drop_last());
        let back = kept_of(fetches[k], k as usize, fetched.last());
        lemma_fine_candidates(fetches, fetched.drop_last());
        lemma_kept_of(fetches[k], k as usize, fetched.last());
        assert forall|p: Pick| fine_candidates(fetches, fetched).contains(p) implies p.source < fetched.len()
            && fetches[p.source as int].keeps_spec(p.timestamp as int) by {
            let c = front + back;
            let i = choose|i: int| 0 <= i < c.len() && c[i] == p;
            if i < front.len() {
                assert(front[i] == c[i]);
                assert(front.contains(p));
            } else {
                assert(back[i - front.len()] == c[i]);
                assert(back.contains(p));
            }
        }
    }
}

/// Coarse prices covered by the scan around a change point are left out: a run's
/// result is the kept prices of its fetches, then coarse prices only, each outside
/// every change-point window, so none of them has the timestamp of an hourly price
/// kept from a change-point window.
pub proof fn law_covered_coarse_prices_left_out(
    fetches: Seq<FetchRequest>,
    fetched: Seq<Seq<i64>>,
    coarse: Seq<i64>,
)
    requires
        fetched.len() == fetches.len(),
        fetches.len() <= usize::MAX,
    ensures
        ({
            let r = assembled(fetches, fetched, coarse);
            let fine = fine_candidates(fetches, fetched);
            &&& fine.len() <= r.len()
            &&& r.take(fine.len() as int) == fine
            &&& forall|j: int|
                fine.len() <= j < r.len() ==> (#[trigger] r[j]).source == fetches.len() as usize && !in_window(
                    fetches,
                    r[j].timestamp as int,
                )
            &&& forall|i: int, j: int|
                0 <= i < fine.len() <= j < r.len() && (fetches[(#[trigger] r[i]).source as int] is Surroundings)
                    ==> r[i].timestamp != (#[trigger] r[j]).timestamp
        }),
{
    let a = fine_candidates(fetches, fetched);
    let b = coarse_candidates(fetches, coarse, fetches.len() as usize);
    let r = a + b;
    lemma_fine_candidates(fetches, fetched);
    lemma_coarse_candidates(fetches, coarse, fetches.len() as usize);
    assert(r.take(a.len() as int) =~= a);
    assert forall|j: int| a.len() <= j < r.len() implies (#[trigger] r[j]).source == fetches.len() as usize
        && !in_window(fetches, r[j].timestamp as int) by {
        assert(r[j] == b[j - a.len()]);
        assert(b.contains(r[j]));
    }
    assert forall|i: int, j: int|
        0 <= i < a.len() <= j < r.len() && (fetches[(#[trigger] r[i]).source as int] is Surroundings)
            implies r[i].timestamp != (#[trigger] r[j]).timestamp by {
        assert(r[i] == a[i]);
        assert(a.contains(r[i]));
        assert(r[j] == b[j - a.len()]);
        assert(b.contains(r[j]));
        let k = r[i].source as int;
        if r[i].timestamp == r[j].timestamp {
            assert(window_keeps(fetches[k], r[j].timestamp as int));
            assert(in_window(fetches, r[j].timestamp as int));
        }
    }
}

/// Every coarse candidate is a pick of the coarse source outside every window.
proof fn lemma_coarse_candidates(fetches: Seq<FetchRequest>, coarse: Seq<i64>, source: usize)
    ensures
        forall|p: Pick|
            coarse_candidates(fetches, coarse, source).contains(p) ==> p.source == source && !in_window(
                fetches,
                p.timestamp as int,
            ),
    decreases coarse.len(),
{
    if coarse.len() > 0 {
        lemma_coarse_candidates(fetches, coarse.drop_last(), source);
        let rest = coarse_candidates(fetches, coarse.drop_last(), source);
        assert forall|p: Pick| coarse_candidates(fetches, coarse, source).contains(p) implies p.source == source
            && !in_window(fetches, p.timestamp as int) by {
            let c = coarse_candidates(fetches, coarse, source);
            let i = choose|i: int| 0 <= i < c.len() && c[i] == p;
            if i < rest.len() {
                assert(rest[i] == c[i]);
                assert(rest.contains(p));
            }
        }
    }
}

/// The fetches of a run with coarse prices: one hourly fetch per change point, keeping
/// the prices from twelve hours before to twelve hours after it, then one five-minute
/// fetch keeping the prices after the last change point (after the first coarse price
/// when there is no change point). Without coarse prices, nothing is fetched.
pub proof fn law_fetch_windows(cps: Seq<i64>, first: i64)
    requires
        windows_fit(cps),
    ensures
        adaptive_fetches(cps, None).len() == 0,
        adaptive_fetches(cps, Some(first)).len() == cps.len() + 1,
        forall|k: int|
            0 <= k < cps.len() ==> (#[trigger] adaptive_fetches(cps, Some(first))[k]).interval_spec()
                == Interval::OneHour,
        forall|k: int, ts: int|
            0 <= k < cps.len() ==> (#[trigger] adaptive_fetches(cps, Some(first))[k].keeps_spec(ts) <==> cps[k]
                - 43200 <= ts <= cps[k] + 43200),
        adaptive_fetches(cps, Some(first))[cps.len() as int].interval_spec() == Interval::FiveMinutes,
        forall|ts: int|
            #[trigger] adaptive_fetches(cps, Some(first))[cps.len() as int].keeps_spec(ts) <==> ts > (if cps.len()
                > 0 {
                cps.last()
            } else {
                first
            }),
{
    let f = adaptive_fetches(cps, Some(first));
    assert forall|k: int, ts: int| 0 <= k < cps.len() implies (#[trigger] f[k].keeps_spec(ts) <==> cps[k] - 43200
        <= ts <= cps[k] + 43200) by {
        assert(i64::MIN + lead_seconds() <= cps[k] <= i64::MAX - trail_seconds());
    }
}

proof fn lemma_kept_of_exact(req: FetchRequest, source: usize, stamps: Seq<i64>)
    requires
        stamps.len() <= usize::MAX,
    ensures
        forall|p: Pick|
            #[trigger] kept_of(req, source, stamps).contains(p) <==> (p.source == source && p.index < stamps.len()
                && p.timestamp == stamps[p.index as int] && req.keeps_spec(p.timestamp as int)),
    decreases stamps.len(),
{
    if stamps.len() > 0 {
        let front = stamps.drop_last();
        lemma_kept_of_exact(req, source, front);
        let rest = kept_of(req, source, front);
        let all = kept_of(req, source, stamps);
        let last = Pick { source, index: (stamps.len() - 1) as usize, timestamp: stamps.last() };
        assert forall|p: Pick| #[trigger] all.contains(p) <==> (p.source == source && p.index < stamps.len()
            && p.timestamp == stamps[p.index as int] && req.keeps_spec(p.timestamp as int)) by {
            if all.contains(p) {
                let i = choose|i: int| 0 <= i < all.len() && all[i] == p;
                if i < rest.len() {
                    assert(rest[i] == all[i]);
                    assert(rest.contains(p));
                    assert(front[p.index as int] == stamps[p.index as int]);
                } else {
                    assert(p == last);
                }
            }
            if p.source == source && p.index < stamps.len() && p.timestamp == stamps[p.index as int]
                && req.keeps_spec(p.timestamp as int) {
                if p.index < front.len() {
                    assert(front[p.index as int] == stamps[p.index as int]);
                    assert(rest.contains(p));
                    let i = choose|i: int| 0 <= i < rest.len() && rest[i] == p;
                    assert(all[i] == rest[i]);
                } else {
                    assert(p == last);
                    assert(all[all.len() - 1] == last);
                }
            }
        }
    }
}

proof fn lemma_fine_candidates_exact(fetches: Seq<FetchRequest>, fetched: Seq<Seq<i64>>)
    requires
        fetched.len() <= usize::MAX,
        forall|k: int| 0 <= k < fetched.len() ==> (#[trigger] fetched[k]).len() <= usize::MAX,
    ensures
        forall|p: Pick|
            #[trigger] fine_candidates(fetches, fetched).contains(p) <==> (p.source < fetched.len() && p.index
                < fetched[p.source as int].len() && p.timestamp == fetched[p.source as int][p.index as int]
                && fetches[p.source as int].keeps_spec(p.timestamp as int)),
    decreases fetched.len(),
{
    if fetched.len() > 0 {
        let k = fetched.len() - 1;
        let front = fetched.drop_last();
        lemma_fine_candidates_exact(fetches, front);
        lemma_kept_of_exact(fetches[k], k as usize, fetched.last());
        let a = fine_candidates(fetches, front);
        let b = kept_of(fetches[k], k as usize, fetched.last());
        let all = fine_candidates(fetches, fetched);
        assert(all == a + b);
        assert forall|p: Pick| #[trigger] all.contains(p) <==> (p.source < fetched.len() && p.index
            < fetched[p.source as int].len() && p.timestamp == fetched[p.source as int][p.index as int]
            && fetches[p.source as int].keeps_spec(p.timestamp as int)) by {
            if all.contains(p) {
                let i = choose|i: int| 0 <= i < all.len() && all[i] == p;
                if i < a.len() {
                    assert(a[i] == all[i]);
                    assert(a.contains(p));
                    assert(front[p.source as int] == fetched[p.source as int]);
                } else {
                    assert(b[i - a.len()] == all[i]);
                    assert(b.contains(p));
                }
            }
            if p.source < fetched.len() && p.index < fetched[p.source as int].len() && p.timestamp
                == fetched[p.source as int][p.index as int] && fetches[p.source as int].keeps_spec(p.timestamp as int) {
                if p.source < k {
                    assert(front[p.source as int] == fetched[p.source as int]);
                    assert(a.contains(p));
                    let i = choose|i: int| 0 <= i < a.len() && a[i] == p;
                    assert(all[i] == a[i]);
                } else {
                    assert(b.contains(p));
                    let i = choose|i: int| 0 <= i < b.len() && b[i] == p;
                    assert(all[a.len() + i] == b[i]);
                }
            }
        }
    }
}

proof fn lemma_coarse_candidates_exact(fetches: Seq<FetchRequest>, coarse: Seq<i64>, source: usize)
    requires
        coarse.len() <= usize::MAX,
    ensures
        forall|p: Pick|
            #[trigger] coarse_candidates(fetches, coarse, source).contains(p) <==> (p.source == source && p.index
                < coarse.len() && p.timestamp == coarse[p.index as int] && !in_window(fetches, p.timestamp as int)),
    decreases coarse.len(),
{
    if coarse.len() > 0 {
        let front = coarse.drop_last();
        lemma_coarse_candidates_exact(fetches, front, source);
        let rest = coarse_candidates(fetches, front, source);
        let all = coarse_candidates(fetches, coarse, source);
        let last = Pick { source, index: (coarse.len() - 1) as usize, timestamp: coarse.last() };
        assert forall|p: Pick| #[trigger] all.contains(p) <==> (p.source == source && p.index < coarse.len()
            && p.timestamp == coarse[p.index as int] && !in_window(fetches, p.timestamp as int)) by {
            if all.contains(p) {
                let i = choose|i: int| 0 <= i < all.len() && all[i] == p;
                if i < rest.len() {
                    assert(rest[i] == all[i]);
                    assert(rest.contains(p));
                    assert(front[p.index as int] == coarse[p.index as int]);
                } else {
                    assert(p == last);
                }
            }
            if p.source == source && p.index < coarse.len() && p.timestamp == coarse[p.index as int] && !in_window(
                fetches,
                p.timestamp as int,
            ) {
                if p.index < front.len() {
                    assert(front[p.index as int] == coarse[p.index as int]);
                    assert(rest.contains(p));
                    let i = choose|i: int| 0 <= i < rest.len() && rest[i] == p;
                    assert(all[i] == rest[i]);
                } else {
                    assert(p == last);
                    assert(all[all.len() - 1] == last);
                }
            }
        }
    }
}

/// What a run's result holds: a price of a fetch exactly when that fetch keeps it, and a
/// coarse price exactly when no change-point window holds its timestamp; nothing else.
pub proof fn law_assembled_picks_exact(fetches: Seq<FetchRequest>, fetched: Seq<Seq<i64>>, coarse: Seq<i64>)
    requires
        fetched.len() == fetches.len(),
        fetches.len() < usize::MAX,
        coarse.len() <= usize::MAX,
        forall|k: int| 0 <= k < fetched.len() ==> (#[trigger] fetched[k]).len() <= usize::MAX,
    ensures
        forall|p: Pick|
            #[trigger] assembled(fetches, fetched, coarse).contains(p) <==> {
                ||| p.source < fetches.len() && p.index < fetched[p.source as int].len() && p.timestamp
                    == fetched[p.source as int][p.index as int] && fetches[p.source as int].keeps_spec(
                    p.timestamp as int,
                )
                ||| p.source == fetches.len() && p.index < coarse.len() && p.timestamp == coarse[p.index as int]
                    && !(exists|k: int|
                    0 <= k < fetches.len() && (#[trigger] fetches[k]) is Surroundings && fetches[k].keeps_spec(
                        p.timestamp as int,
                    ))
            },
{
    let a = fine_candidates(fetches, fetched);
    let b = coarse_candidates(fetches, coarse, fetches.len() as usize);
    lemma_fine_candidates_exact(fetches, fetched);
    lemma_coarse_candidates_exact(fetches, coarse, fetches.len() as usize);
    let all = a + b;
    assert forall|p: Pick| #[trigger] all.contains(p) <==> (a.contains(p) || b.contains(p)) by {
        if all.contains(p) {
            let i = choose|i: int| 0 <= i < all.len() && all[i] == p;
            if i < a.len() {
                assert(a[i] == all[i]);
            } else {
                assert(b[i - a.len()] == all[i]);
            }
        }
        if a.contains(p) {
            let i = choose|i: int| 0 <= i < a.len() && a[i] == p;
            assert(all[i] == a[i]);
        }
        if b.contains(p) {
            let i = choose|i: int| 0 <= i < b.len() && b[i] == p;
            assert(all[a.len() + i] == b[i]);
        }
    }
    assert forall|ts: int| in_window(fetches, ts) <==> (exists|k: int|
        0 <= k < fetches.len() && (#[trigger] fetches[k]) is Surroundings && fetches[k].keeps_spec(ts)) by {
        if in_window(fetches, ts) {
            let k = choose|k: int| 0 <= k < fetches.len() && window_keeps(#[trigger] fetches[k], ts);
            assert(fetches[k] is Surroundings && fetches[k].keeps_spec(ts));
        }
        if exists|k: int| 0 <= k < fetches.len() && (#[trigger] fetches[k]) is Surroundings && fetches[k].keeps_spec(ts) {
            let k = choose|k: int| 0 <= k < fetches.len() && (#[trigger] fetches[k]) is Surroundings && fetches[k].keeps_spec(ts);
            assert(window_keeps(fetches[k], ts));
        }
    }
}

} // verus!
