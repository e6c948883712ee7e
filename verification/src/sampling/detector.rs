//! The sliding-window walk of change-point detection.
//!
//! Detection compares the window of `window_size` prices before a position with the
//! window of `window_size` prices from it on. The statistical test itself is
//! floating-point work done by the caller; this walk decides which position to test
//! next: one step on when no change was found, a whole window on when one was.
//! Change points found close together are then merged, keeping the strongest.

use vstd::prelude::*;

verus! {

/// Where the walk over a price series of length `len` stands.
#[derive(Debug, Clone, Copy)]
pub struct WindowScan {
    window_size: usize,
    len: usize,
    position: usize,
    enough_samples: bool,
}

impl WindowScan {
    #[verifier::type_invariant]
    closed spec fn well_formed(self) -> bool {
        self.position >= self.window_size
    }

    /// The number of prices in each window.
    pub closed spec fn window_size_spec(self) -> nat {
        self.window_size as nat
    }

    /// The length of the price series.
    pub closed spec fn len_spec(self) -> nat {
        self.len as nat
    }

    /// The position to test next.
    pub closed spec fn position_spec(self) -> nat {
        self.position as nat
    }

    /// Whether the series held at least twice the minimum sample count.
    pub closed spec fn enough_samples_spec(self) -> bool {
        self.enough_samples
    }

    /// Whether a window pair is left to test: both windows lie inside the series.
    pub open spec fn has_window(self) -> bool {
        self.enough_samples_spec() && self.position_spec() + self.window_size_spec() < self.len_spec()
    }

    /// Starts the walk at position `window_size`. A series shorter than
    /// `2 * min_samples` has no window to test.
    pub fn new(window_size: usize, min_samples: usize, len: usize) -> (r: WindowScan)
        ensures
            r.window_size_spec() == window_size,
            r.len_spec() == len,
            r.position_spec() == window_size,
            r.enough_samples_spec() == (len >= 2 * min_samples),
    {
        let enough_samples = (len as u128) >= 2 * (min_samples as u128);
        WindowScan { window_size, len, position: window_size, enough_samples }
    }

    /// The position to test next, if a window pair is left: the windows are
    /// `[position - window_size, position)` and `[position, position + window_size)`.
    pub fn next_window(&self) -> (r: Option<usize>)
        ensures
            r is Some <==> self.has_window(),
            self.position_spec() >= self.window_size_spec(),
            r matches Some(p) ==> {
                &&& p == self.position_spec()
                &&& p >= self.window_size_spec()
                &&& p + self.window_size_spec() < self.len_spec()
            },
    {
        proof {
            use_type_invariant(*self);
        }
        if self.enough_samples && self.position < self.len && self.len - self.position > self.window_size {
            Some(self.position)
        } else {
            None
        }
    }

    /// Moves on after testing the current position: past the whole window when a
    /// change was found there, one position otherwise.
    pub fn advance(&mut self, detected: bool)
        requires
            old(self).has_window(),
            detected ==> old(self).window_size_spec() > 0,
        ensures
            final(self).window_size_spec() == old(self).window_size_spec(),
            final(self).len_spec() == old(self).len_spec(),
            final(self).enough_samples_spec() == old(self).enough_samples_spec(),
            final(self).position_spec() == old(self).position_spec() + if detected {
                old(self).window_size_spec()
            } else {
                1
            },
            final(self).len_spec() - final(self).position_spec() < old(self).len_spec() - old(self).position_spec(),
    {
        proof {
            use_type_invariant(&*self);
        }
        if detected {
            self.position = self.position + self.window_size;
        } else {
            self.position = self.position + 1;
        }
    }
}

/// A detected change point as the merge sees it: when it happened, and how strong the
/// change was (a larger `strength` means a larger change magnitude).
#[derive(Debug, Clone, Copy, PartialEq, Eq, Structural)]
pub struct MergeCandidate {
    pub timestamp: i64,
    pub strength: u64,
}

/// Candidate `a` comes before candidate `b` in time order, earlier input first on ties.
pub open spec fn comes_before(points: Seq<MergeCandidate>, a: int, b: int) -> bool {
    points[a].timestamp < points[b].timestamp || (points[a].timestamp == points[b].timestamp && a < b)
}

/// `order` lists input positions in time order, each at most once.
pub open spec fn time_ordered(points: Seq<MergeCandidate>, order: Seq<usize>) -> bool {
    &&& forall|k: int| 0 <= k < order.len() ==> (#[trigger] order[k]) < points.len()
    &&& forall|k: int, l: int|
        0 <= k < l < order.len() ==> comes_before(points, #[trigger] order[k] as int, #[trigger] order[l] as int)
}

/// Orders the candidates by timestamp, keeping input order among equal timestamps
/// (a stable sort), as positions into `points`.
pub fn time_order(points: &Vec<MergeCandidate>) -> (order: Vec<usize>)
    ensures
        order.len() == points.len(),
        time_ordered(points@, order@),
{
    let mut order: Vec<usize> = Vec::new();
    let mut i: usize = 0;
    while i < points.len()
        invariant
            0 <= i <= points.len(),
            order.len() == i,
            forall|k: int| 0 <= k < order.len() ==> (#[trigger] order[k]) < i,
            time_ordered(points@, order@),
        decreases points.len() - i,
    {
        let t = points[i].timestamp;
        let mut pos: usize = 0;
        while pos < order.len() && points[order[pos]].timestamp <= t
            invariant
                0 <= pos <= order.len(),
                order.len() == i,
                i < points.len(),
                t == points@[i as int].timestamp,
                forall|k: int| 0 <= k < order.len() ==> (#[trigger] order[k]) < i,
                forall|k: int| 0 <= k < pos ==> points@[#[trigger] order[k] as int].timestamp <= t,
            decreases order.len() - pos,
        {
            pos = pos + 1;
        }
        let ghost before = order@;
        proof {
            assert forall|k: int| pos <= k < before.len() implies points@[#[trigger] before[k] as int].timestamp > t by {
                if k > pos {
                    assert(comes_before(points@, before[pos as int] as int, before[k] as int));
                }
            }
        }
        order.insert(pos, i);
        proof {
            let after = order@;
            assert(after == before.insert(pos as int, i));
            assert forall|k: int| 0 <= k < after.len() implies (#[trigger] after[k]) < i + 1 by {
                if k < pos {
                    assert(after[k] == before[k]);
                } else if k > pos {
                    assert(after[k] == before[k - 1]);
                }
            }
            assert forall|k: int, l: int|
                0 <= k < l < after.len() implies comes_before(points@, #[trigger] after[k] as int, #[trigger] after[l] as int) by {
                if l < pos {
                    assert(after[k] == before[k] && after[l] == before[l]);
                } else if l == pos {
                    assert(after[k] == before[k]);
                } else if k < pos {
                    assert(after[k] == before[k] && after[l] == before[l - 1]);
                } else if k == pos {
                    assert(after[l] == before[l - 1]);
                } else {
                    assert(after[k] == before[k - 1] && after[l] == before[l - 1]);
                }
            }
        }
        i = i + 1;
    }
    order
}

/// Merges the time-ordered candidates `rest` after the kept-so-far `current`: a
/// candidate less than `half` seconds after `current` replaces it only if stronger;
/// a later one closes `current` and becomes the new one. Gives the kept positions.
pub open spec fn merge_run(points: Seq<MergeCandidate>, rest: Seq<usize>, current: usize, half: int) -> Seq<usize>
    decreases rest.len(),
{
    if rest.len() == 0 {
        seq![current]
    } else {
        let p = rest[0];
        if points[p as int].timestamp - points[current as int].timestamp < half {
            let kept = if points[p as int].strength > points[current as int].strength {
                p
            } else {
                current
            };
            merge_run(points, rest.drop_first(), kept, half)
        } else {
            seq![current] + merge_run(points, rest.drop_first(), p, half)
        }
    }
}

/// Half the window, computed as `window_size as i64 / 2`.
pub open spec fn merge_gap(window_size: usize) -> int {
    crate::utils::time::trunc_div((window_size as i64) as int, 2)
}

/// The positions of the candidates kept by merging: at most one candidate from one
/// input; otherwise the time-ordered run merged from its first candidate.
pub open spec fn merged_positions(points: Seq<MergeCandidate>, order: Seq<usize>, window_size: usize) -> Seq<usize> {
    if points.len() <= 1 {
        Seq::new(points.len() as nat, |k: int| k as usize)
    } else {
        merge_run(points, order.drop_first(), order[0], merge_gap(window_size))
    }
}

/// Merges change points that lie close together: in time order, a change point less
/// than half a window after the one kept so far is absorbed, the stronger of the two
/// being kept. Gives the positions in `points` of the kept change points, in time order.
/// Time gaps are compared exactly, however far apart the timestamps lie.
pub fn merge_nearby_change_points(points: &Vec<MergeCandidate>, window_size: usize) -> (kept: Vec<usize>)
    ensures
        exists|order: Seq<usize>|
            {
                &&& order.len() == points.len()
                &&& time_ordered(points@, order)
                &&& kept@ == #[trigger] merged_positions(points@, order, window_size)
            },
        forall|i: usize|
            i < points.len() && !(#[trigger] kept@.contains(i)) ==> exists|j: int|
                0 <= j < points.len() && j != i && #[trigger] absorbs(points@, j, i as int, merge_gap(window_size)),
        spread_apart(points@, kept@, merge_gap(window_size)),
{
    let n = points.len();
    if n <= 1 {
        let mut kept: Vec<usize> = Vec::new();
        if n == 1 {
            kept.push(0);
        }
        assert(kept@ =~= Seq::new(points.len() as nat, |k: int| k as usize));
        let ghost witness = Seq::new(points.len() as nat, |k: int| k as usize);
        assert(time_ordered(points@, witness));
        assert(kept@ == merged_positions(points@, witness, window_size));
        proof {
            law_merge_drops_only_absorbed(points@, witness, window_size);
            law_merged_points_spread_apart(points@, witness, window_size);
        }
        return kept;
    }
    let order = time_order(points);
    let half: i64 = (window_size as i64) / 2;
    let mut kept: Vec<usize> = Vec::new();
    let mut current: usize = order[0];
    let mut j: usize = 1;
    let ghost total = order@;
    assert(total.drop_first() =~= total.skip(1));
    while j < n
        invariant
            n == points.len(),
            n == total.len(),
            total == order@,
            time_ordered(points@, total),
            1 <= j <= n,
            current < n,
            half == merge_gap(window_size),
            kept@ + merge_run(points@, total.skip(j as int), current, half as int) == merge_run(
                points@,
                total.drop_first(),
                total[0],
                half as int,
            ),
        decreases n - j,
    {
        let p = order[j];
        let ghost rest = total.skip(j as int);
        assert(rest[0] == p);
        assert(rest.drop_first() =~= total.skip(j + 1));
        let ghost before = kept@;
        let ghost previous = current;
        let gap: i128 = points[p].timestamp as i128 - points[current].timestamp as i128;
        if gap < half as i128 {
            if points[p].strength > points[current].strength {
                current = p;
            }
        } else {
            kept.push(current);
            proof {
                assert(kept@ + merge_run(points@, total.skip(j + 1), p, half as int) =~= before + (seq![previous]
                    + merge_run(points@, total.skip(j + 1), p, half as int)));
            }
            current = p;
        }
        j = j + 1;
    }
    kept.push(current);
    proof {
        assert(total.skip(n as int) =~= Seq::<usize>::empty());
        assert(kept@ == merged_positions(points@, total, window_size));
        law_merge_drops_only_absorbed(points@, total, window_size);
        law_merged_points_spread_apart(points@, total, window_size);
    }
    kept
}

/// The timestamps of consecutive kept positions lie at least `half` apart.
pub open spec fn spread_apart(points: Seq<MergeCandidate>, kept: Seq<usize>, half: int) -> bool {
    forall|k: int|
        0 <= k < kept.len() - 1 ==> points[kept[k + 1] as int].timestamp - points[#[trigger] kept[k] as int].timestamp
            >= half
}

proof fn lemma_merge_run_spread(points: Seq<MergeCandidate>, rest: Seq<usize>, current: usize, half: int)
    requires
        current < points.len(),
        forall|k: int| 0 <= k < rest.len() ==> (#[trigger] rest[k]) < points.len(),
        forall|k: int, l: int|
            0 <= k < l < rest.len() ==> comes_before(points, #[trigger] rest[k] as int, #[trigger] rest[l] as int),
        forall|k: int|
            0 <= k < rest.len() ==> points[current as int].timestamp <= points[#[trigger] rest[k] as int].timestamp,
    ensures
        ({
            let out = merge_run(points, rest, current, half);
            &&& out.len() > 0
            &&& points[out[0] as int].timestamp >= points[current as int].timestamp
            &&& forall|k: int| 0 <= k < out.len() ==> (#[trigger] out[k]) < points.len()
            &&& spread_apart(points, out, half)
        }),
    decreases rest.len(),
{
    if rest.len() > 0 {
        let p = rest[0];
        let tail = rest.drop_first();
        assert forall|k: int| 0 <= k < tail.len() implies points[p as int].timestamp <= points[#[trigger] tail[k] as int].timestamp by {
            assert(comes_before(points, rest[0] as int, rest[k + 1] as int));
        }
        if points[p as int].timestamp - points[current as int].timestamp < half {
            let kept = if points[p as int].strength > points[current as int].strength {
                p
            } else {
                current
            };
            assert(forall|k: int| 0 <= k < tail.len() ==> points[kept as int].timestamp <= points[#[trigger] tail[k] as int].timestamp);
            lemma_merge_run_spread(points, tail, kept, half);
        } else {
            lemma_merge_run_spread(points, tail, p, half);
            let inner = merge_run(points, tail, p, half);
            let out = seq![current] + inner;
            assert(out == merge_run(points, rest, current, half));
            assert forall|k: int| 0 <= k < out.len() - 1 implies points[out[k + 1] as int].timestamp
                - points[#[trigger] out[k] as int].timestamp >= half by {
                if k > 0 {
                    assert(out[k] == inner[k - 1] && out[k + 1] == inner[k]);
                }
            }
            assert forall|k: int| 0 <= k < out.len() implies (#[trigger] out[k]) < points.len() by {
                if k > 0 {
                    assert(out[k] == inner[k - 1]);
                }
            }
        }
    }
}

/// Merging leaves the kept change points at least half a window apart in time, each
/// one a change point of the input.
pub proof fn law_merged_points_spread_apart(points: Seq<MergeCandidate>, order: Seq<usize>, window_size: usize)
    requires
        order.len() == points.len(),
        time_ordered(points, order),
    ensures
        spread_apart(points, merged_positions(points, order, window_size), merge_gap(window_size)),
        forall|k: int|
            0 <= k < merged_positions(points, order, window_size).len() ==> (#[trigger] merged_positions(
                points,
                order,
                window_size,
            )[k]) < points.len(),
{
    if points.len() > 1 {
        let rest = order.drop_first();
        assert forall|k: int| 0 <= k < rest.len() implies points[order[0] as int].timestamp <= points[#[trigger] rest[k] as int].timestamp by {
            assert(comes_before(points, order[0] as int, order[k + 1] as int));
        }
        lemma_merge_run_spread(points, rest, order[0], merge_gap(window_size));
    }
}

/// Candidate `j` absorbs candidate `i`: it lies less than `half` seconds from it in
/// time, on either side, and is at least as strong.
pub open spec fn absorbs(points: Seq<MergeCandidate>, j: int, i: int, half: int) -> bool {
    &&& points[i].timestamp - half < points[j].timestamp < points[i].timestamp + half
    &&& points[j].strength >= points[i].strength
}

proof fn lemma_merge_run_drops_absorbed(points: Seq<MergeCandidate>, rest: Seq<usize>, current: usize, half: int)
    requires
        current < points.len(),
        forall|k: int| 0 <= k < rest.len() ==> (#[trigger] rest[k]) < points.len(),
        forall|k: int, l: int|
            0 <= k < l < rest.len() ==> comes_before(points, #[trigger] rest[k] as int, #[trigger] rest[l] as int),
        forall|k: int| 0 <= k < rest.len() ==> comes_before(points, current as int, #[trigger] rest[k] as int),
    ensures
        forall|i: usize|
            (i == current || rest.contains(i)) && !(#[trigger] merge_run(points, rest, current, half).contains(i))
                ==> exists|j: int| 0 <= j < points.len() && j != i && #[trigger] absorbs(points, j, i as int, half),
    decreases rest.len(),
{
    let out = merge_run(points, rest, current, half);
    if rest.len() == 0 {
        assert(out[0] == current);
    } else {
        let p = rest[0];
        let tail = rest.drop_first();
        assert forall|k: int| 0 <= k < tail.len() implies comes_before(points, p as int, #[trigger] tail[k] as int) by {
            assert(comes_before(points, rest[0] as int, rest[k + 1] as int));
        }
        assert(comes_before(points, current as int, p as int));
        if points[p as int].timestamp - points[current as int].timestamp < half {
            let kept = if points[p as int].strength > points[current as int].strength {
                p
            } else {
                current
            };
            lemma_merge_run_drops_absorbed(points, tail, kept, half);
            assert(out == merge_run(points, tail, kept, half));
            assert forall|i: usize|
                (i == current || rest.contains(i)) && !out.contains(i) implies exists|j: int|
                    0 <= j < points.len() && j != i && #[trigger] absorbs(points, j, i as int, half) by {
                if i == kept || tail.contains(i) {
                    assert(!merge_run(points, tail, kept, half).contains(i));
                } else if i == current {
                    assert(absorbs(points, p as int, i as int, half));
                } else {
                    let k = choose|k: int| 0 <= k < rest.len() && rest[k] == i;
                    if k > 0 {
                        assert(tail[k - 1] == i);
                    }
                    assert(i == p);
                    assert(absorbs(points, current as int, i as int, half));
                }
            }
        } else {
            lemma_merge_run_drops_absorbed(points, tail, p, half);
            let inner = merge_run(points, tail, p, half);
            assert(out == seq![current] + inner);
            assert(out[0] == current);
            assert forall|i: usize|
                (i == current || rest.contains(i)) && !out.contains(i) implies exists|j: int|
                    0 <= j < points.len() && j != i && #[trigger] absorbs(points, j, i as int, half) by {
                if !inner.contains(i) {
                    if i != current {
                        let k = choose|k: int| 0 <= k < rest.len() && rest[k] == i;
                        if k > 0 {
                            assert(tail[k - 1] == i);
                            assert(tail.contains(i));
                        }
                        assert(i == p || tail.contains(i));
                    } else {
                        assert(out.contains(i));
                    }
                } else {
                    let m = choose|m: int| 0 <= m < inner.len() && inner[m] == i;
                    assert(out[m + 1] == i);
                }
            }
        }
    }
}

/// Merging drops a change point only where another one absorbs it: every candidate
/// that is not kept has another candidate less than half a window from it in time
/// that is at least as strong. Together with the spreading law, candidates half a
/// window or more apart are never merged.
pub proof fn law_merge_drops_only_absorbed(points: Seq<MergeCandidate>, order: Seq<usize>, window_size: usize)
    requires
        order.len() == points.len(),
        time_ordered(points, order),
    ensures
        forall|i: usize|
            i < points.len() && !(#[trigger] merged_positions(points, order, window_size).contains(i)) ==> exists|
                j: int,
            |
                0 <= j < points.len() && j != i && #[trigger] absorbs(points, j, i as int, merge_gap(window_size)),
{
    let kept = merged_positions(points, order, window_size);
    if points.len() <= 1 {
        assert forall|i: usize| i < points.len() implies kept.contains(i) by {
            assert(kept[i as int] == i);
        }
    } else {
        let rest = order.drop_first();
        assert forall|k: int| 0 <= k < rest.len() implies comes_before(points, order[0] as int, #[trigger] rest[k] as int) by {
            assert(comes_before(points, order[0] as int, order[k + 1] as int));
        }
        assert forall|k: int, l: int| 0 <= k < l < rest.len() implies comes_before(
            points,
            #[trigger] rest[k] as int,
            #[trigger] rest[l] as int,
        ) by {
            assert(comes_before(points, order[k + 1] as int, order[l + 1] as int));
        }
        lemma_merge_run_drops_absorbed(points, rest, order[0], merge_gap(window_size));
        assert forall|i: usize| i < points.len() && !(#[trigger] kept.contains(i)) implies exists|j: int|
            0 <= j < points.len() && j != i && #[trigger] absorbs(points, j, i as int, merge_gap(window_size)) by {
            lemma_time_order_covers(points, order, i as int);
            let m = choose|m: int| 0 <= m < order.len() && order[m] == i;
            if m > 0 {
                assert(rest[m - 1] == order[m]);
                assert(rest.contains(i));
            }
            assert(i == order[0] || rest.contains(i));
            assert(!merge_run(points, rest, order[0], merge_gap(window_size)).contains(i));
        }
    }
}

/// A time order of `n` candidates lists every position below `n`.
proof fn lemma_time_order_covers(points: Seq<MergeCandidate>, order: Seq<usize>, j: int)
    requires
        order.len() == points.len(),
        time_ordered(points, order),
        0 <= j < points.len(),
    ensures
        exists|m: int| 0 <= m < order.len() && order[m] == j,
{
    let wide = order.map_values(|x: usize| x as int);
    assert forall|k: int, l: int| 0 <= k < l < wide.len() implies wide[k] != wide[l] by {
        assert(comes_before(points, order[k] as int, order[l] as int));
    }
    assert(wide.no_duplicates());
    wide.unique_seq_to_set();
    let range = vstd::set_lib::set_int_range(0, points.len() as int);
    vstd::set_lib::lemma_int_range(0, points.len() as int);
    assert forall|x: int| wide.to_set().contains(x) implies range.contains(x) by {
        let k = choose|k: int| 0 <= k < wide.len() && wide[k] == x;
        assert(order[k] < points.len());
    }
    vstd::set_lib::lemma_subset_equality(wide.to_set(), range);
    assert(range.contains(j));
    assert(wide.to_set().contains(j));
    let m = choose|m: int| 0 <= m < wide.len() && wide[m] == j;
    assert(order[m] == j);
}

/// Candidates have one time order only: by timestamp, and by input position among
/// equal timestamps. So the positions `merge_nearby_change_points` keeps are
/// determined by its input.
pub proof fn law_time_order_unique(points: Seq<MergeCandidate>, a: Seq<usize>, b: Seq<usize>)
    requires
        a.len() == points.len(),
        b.len() == points.len(),
        time_ordered(points, a),
        time_ordered(points, b),
    ensures
        a == b,
{
    assert forall|k: int| 0 <= k < a.len() implies a[k] == b[k] by {
        lemma_time_order_prefix_equal(points, a, b, k);
    }
    assert(a =~= b);
}

proof fn lemma_time_order_prefix_equal(points: Seq<MergeCandidate>, a: Seq<usize>, b: Seq<usize>, k: int)
    requires
        a.len() == points.len(),
        b.len() == points.len(),
        time_ordered(points, a),
        time_ordered(points, b),
        0 <= k < a.len(),
    ensures
        a[k] == b[k],
    decreases k,
{
    assert forall|i: int| 0 <= i < k implies a[i] == b[i] by {
        lemma_time_order_prefix_equal(points, a, b, i);
    }
    lemma_time_order_covers(points, b, a[k] as int);
    let m = choose|m: int| 0 <= m < b.len() && b[m] == a[k];
    lemma_time_order_covers(points, a, b[k] as int);
    let mm = choose|m: int| 0 <= m < a.len() && a[m] == b[k];
    if m < k {
        assert(b[m] == a[m]);
        assert(comes_before(points, a[m] as int, a[k] as int));
    }
    if mm < k {
        assert(a[mm] == b[mm]);
        assert(comes_before(points, b[mm] as int, b[k] as int));
    }
    if m > k && mm > k {
        assert(comes_before(points, b[k] as int, b[m] as int));
        assert(comes_before(points, a[k] as int, a[mm] as int));
    }
}

} // verus!
