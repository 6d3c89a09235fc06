//! The integer side of the observation engine: priorities, activity
//! thresholds and the order in which observations are shown.

use vstd::prelude::*;

verus! {

/// Priority of an observation, lowest first.
#[derive(Clone, Copy, Debug, PartialEq, Eq, Structural, PartialOrd, Ord)]
pub enum ObservationPriority {
    Low,
    Medium,
    High,
    Critical,
}

/// Direction of a pressure or activity trend.
#[derive(Clone, Copy, Debug, PartialEq, Eq, Structural)]
pub enum PressureTrend {
    Emerging,
    Stable,
    Subsiding,
}

/// Direction of a recent process change.
#[derive(Clone, Copy, Debug, PartialEq, Eq, Structural)]
pub enum ChangeKind {
    Surge,
    Drop,
    New,
    Exited,
}

/// Combined network rate, in bytes per sample, from which a transfer is
/// reported.
pub const NETWORK_THRESHOLD_BYTES: u64 = 10_000_000;

/// Combined disk rate, in bytes per sample, from which activity is
/// reported.
pub const DISK_THRESHOLD_BYTES: u64 = 50_000_000;

/// The most observations shown at once.
pub const MAX_OBSERVATIONS: usize = 9;

/// The rank of a priority: 0 for `Low` up to 3 for `Critical`.
pub open spec fn priority_rank(p: ObservationPriority) -> nat {
    match p {
        ObservationPriority::Low => 0,
        ObservationPriority::Medium => 1,
        ObservationPriority::High => 2,
        ObservationPriority::Critical => 3,
    }
}

/// The priority of rank `r` (ranks above 3 are `Critical`).
pub open spec fn priority_of_rank(r: nat) -> ObservationPriority {
    if r == 0 {
        ObservationPriority::Low
    } else if r == 1 {
        ObservationPriority::Medium
    } else if r == 2 {
        ObservationPriority::High
    } else {
        ObservationPriority::Critical
    }
}

/// The next priority up, `Critical` staying `Critical`.
pub open spec fn bumped(p: ObservationPriority) -> ObservationPriority {
    priority_of_rank(priority_rank(p) + 1)
}

impl ObservationPriority {
    /// The rank of this priority: 0 for `Low` up to 3 for `Critical`.
    pub fn rank(self) -> (r: u8)
        ensures
            r == priority_rank(self),
    {
        match self {
            ObservationPriority::Low => 0,
            ObservationPriority::Medium => 1,
            ObservationPriority::High => 2,
            ObservationPriority::Critical => 3,
        }
    }
}

/// Raises a priority by one step, up to `Critical`: how an emerging trend
/// is made more prominent.
pub fn bump_priority(p: ObservationPriority) -> (r: ObservationPriority)
    ensures
        r == bumped(p),
{
    match p {
        ObservationPriority::Low => ObservationPriority::Medium,
        ObservationPriority::Medium => ObservationPriority::High,
        ObservationPriority::High | ObservationPriority::Critical => ObservationPriority::Critical,
    }
}

/// Raising a priority never lowers it: it goes up one step, except that
/// `Critical` stays `Critical`.
pub proof fn lemma_bump_raises(p: ObservationPriority)
    ensures
        priority_rank(bumped(p)) == if priority_rank(p) < 3 {
            priority_rank(p) + 1
        } else {
            3
        },
        priority_rank(p) <= priority_rank(bumped(p)),
        bumped(p) == p <==> p == ObservationPriority::Critical,
{
}

/// The priority of a system-wide activity whose combined rate is `total`:
/// `Medium` from `threshold` on, and nothing below it.
pub open spec fn activity_priority_spec(total: nat, threshold: nat) -> Option<ObservationPriority> {
    if total >= threshold {
        Some(ObservationPriority::Medium)
    } else {
        None
    }
}

/// Whether a combined rate of `total` is reported as activity, and with
/// which priority.
pub fn activity_priority(total: u64, threshold: u64) -> (r: Option<ObservationPriority>)
    ensures
        r == activity_priority_spec(total as nat, threshold as nat),
{
    if total >= threshold {
        Some(ObservationPriority::Medium)
    } else {
        None
    }
}

/// Whether received plus sent bytes amount to a network transfer worth
/// reporting, and with which priority.
pub fn network_transfer(rx_rate: u64, tx_rate: u64) -> (r: Option<ObservationPriority>)
    requires
        rx_rate + tx_rate <= u64::MAX,
    ensures
        r == activity_priority_spec((rx_rate + tx_rate) as nat, NETWORK_THRESHOLD_BYTES as nat),
{
    activity_priority(tx_rate + rx_rate, NETWORK_THRESHOLD_BYTES)
}

/// Whether read plus written bytes amount to disk activity worth
/// reporting, and with which priority.
pub fn disk_activity(read_rate: u64, write_rate: u64) -> (r: Option<ObservationPriority>)
    requires
        read_rate + write_rate <= u64::MAX,
    ensures
        r == activity_priority_spec((read_rate + write_rate) as nat, DISK_THRESHOLD_BYTES as nat),
{
    activity_priority(read_rate + write_rate, DISK_THRESHOLD_BYTES)
}

// ── Showing observations in priority order ──────────────────────────────

/// The positions in `ps[..n]` that hold priority `p`, in increasing order.
pub open spec fn positions_with(ps: Seq<ObservationPriority>, p: ObservationPriority, n: int) -> Seq<
    usize,
>
    decreases n,
{
    if n <= 0 {
        seq![]
    } else if ps[n - 1] == p {
        positions_with(ps, p, n - 1).push((n - 1) as usize)
    } else {
        positions_with(ps, p, n - 1)
    }
}

/// The positions of `ps` ordered by priority, highest first, positions
/// with the same priority keeping their order: the order of a stable sort
/// by descending priority.
pub open spec fn priority_order(ps: Seq<ObservationPriority>) -> Seq<usize> {
    positions_with(ps, ObservationPriority::Critical, ps.len() as int) + positions_with(
        ps,
        ObservationPriority::High,
        ps.len() as int,
    ) + positions_with(ps, ObservationPriority::Medium, ps.len() as int) + positions_with(
        ps,
        ObservationPriority::Low,
        ps.len() as int,
    )
}

/// The positions of the observations shown, given their priorities in the
/// order they were made: highest priority first, ties in the order made,
/// at most `MAX_OBSERVATIONS` of them.
pub open spec fn shown_order(ps: Seq<ObservationPriority>) -> Seq<usize> {
    let all = priority_order(ps);
    if all.len() <= MAX_OBSERVATIONS {
        all
    } else {
        all.take(MAX_OBSERVATIONS as int)
    }
}

/// Appends to `out` the positions of `ps` that hold `p`, in increasing
/// order.
fn push_positions_with(ps: &[ObservationPriority], p: ObservationPriority, out: &mut Vec<usize>)
    ensures
        final(out)@ == old(out)@ + positions_with(ps@, p, ps@.len() as int),
{
    let ghost start = out@;
    let mut i: usize = 0;
    while i < ps.len()
        invariant
            i <= ps@.len(),
            out@ == start + positions_with(ps@, p, i as int),
        decreases ps.len() - i,
    {
        if ps[i] == p {
            out.push(i);
        }
        i = i + 1;
        assert(out@ =~= start + positions_with(ps@, p, i as int));
    }
}

/// The positions of observations with priorities `ps` (in the order they
/// were made) in the order they are shown: highest priority first, ties
/// in the order made, at most `MAX_OBSERVATIONS` of them.
pub fn order_by_priority(ps: &[ObservationPriority]) -> (r: Vec<usize>)
    ensures
        r@ == shown_order(ps@),
{
    let mut out: Vec<usize> = Vec::new();
    push_positions_with(ps, ObservationPriority::Critical, &mut out);
    push_positions_with(ps, ObservationPriority::High, &mut out);
    push_positions_with(ps, ObservationPriority::Medium, &mut out);
    push_positions_with(ps, ObservationPriority::Low, &mut out);
    assert(out@ =~= priority_order(ps@));
    if out.len() > MAX_OBSERVATIONS {
        out.truncate(MAX_OBSERVATIONS);
    }
    out
}

/// The positions with priority `p` are below `n`, hold `p`, increase, and
/// include every position below `n` that holds `p`.
proof fn lemma_positions_with(ps: Seq<ObservationPriority>, p: ObservationPriority, n: int)
    requires
        0 <= n <= ps.len(),
        ps.len() <= usize::MAX,
    ensures
        forall|k: int|
            0 <= k < positions_with(ps, p, n).len() ==> (#[trigger] positions_with(ps, p, n)[k])
                < n && ps[positions_with(ps, p, n)[k] as int] == p,
        forall|k: int, l: int|
            0 <= k < l < positions_with(ps, p, n).len() ==> #[trigger] positions_with(ps, p, n)[k]
                < #[trigger] positions_with(ps, p, n)[l],
        forall|i: int|
            #![trigger ps[i]]
            0 <= i < n && ps[i] == p ==> positions_with(ps, p, n).contains(i as usize),
    decreases n,
{
    if n > 0 {
        lemma_positions_with(ps, p, n - 1);
        let prev = positions_with(ps, p, n - 1);
        let cur = positions_with(ps, p, n);
        if ps[n - 1] == p {
            assert(cur == prev.push((n - 1) as usize));
            assert forall|k: int| 0 <= k < cur.len() implies (#[trigger] cur[k]) < n && ps[cur[k] as int]
                == p by {
                if k < prev.len() {
                    assert(cur[k] == prev[k]);
                }
            }
            assert forall|k: int, l: int| 0 <= k < l < cur.len() implies #[trigger] cur[k]
                < #[trigger] cur[l] by {
                assert(cur[k] == prev[k]);
                if l < prev.len() {
                    assert(cur[l] == prev[l]);
                } else {
                    assert(prev[k] < n - 1);
                }
            }
            assert forall|i: int| #![trigger ps[i]] 0 <= i < n && ps[i] == p implies cur.contains(
                i as usize,
            ) by {
                if i < n - 1 {
                    assert(prev.contains(i as usize));
                    let k = choose|k: int| 0 <= k < prev.len() && prev[k] == i as usize;
                    assert(cur[k] == i as usize);
                } else {
                    assert(cur[prev.len() as int] == i as usize);
                }
            }
        } else {
            assert(cur == prev);
        }
    }
}

/// Every position below `n` holds exactly one of the four priorities, so
/// the four lists of positions together have `n` entries.
proof fn lemma_positions_count(ps: Seq<ObservationPriority>, n: int)
    requires
        0 <= n <= ps.len(),
    ensures
        positions_with(ps, ObservationPriority::Critical, n).len() + positions_with(
            ps,
            ObservationPriority::High,
            n,
        ).len() + positions_with(ps, ObservationPriority::Medium, n).len() + positions_with(
            ps,
            ObservationPriority::Low,
            n,
        ).len() == n,
    decreases n,
{
    if n > 0 {
        lemma_positions_count(ps, n - 1);
    }
}

/// The four lists of positions, as `priority_order` joins them.
proof fn lemma_order_parts(ps: Seq<ObservationPriority>)
    ensures
        ({
            let n = ps.len() as int;
            let c = positions_with(ps, ObservationPriority::Critical, n);
            let h = positions_with(ps, ObservationPriority::High, n);
            let m = positions_with(ps, ObservationPriority::Medium, n);
            let l = positions_with(ps, ObservationPriority::Low, n);
            let all = priority_order(ps);
            &&& all.len() == n
            &&& forall|i: int| 0 <= i < c.len() ==> #[trigger] all[i] == c[i]
            &&& forall|i: int| 0 <= i < h.len() ==> #[trigger] all[c.len() + i] == h[i]
            &&& forall|i: int| 0 <= i < m.len() ==> #[trigger] all[c.len() + h.len() + i] == m[i]
            &&& forall|i: int|
                0 <= i < l.len() ==> #[trigger] all[c.len() + h.len() + m.len() + i] == l[i]
        }),
{
    lemma_positions_count(ps, ps.len() as int);
}

/// Every entry of `priority_order(ps)` is a position of `ps`, and the
/// entries come in descending priority, ties in increasing position.
proof fn lemma_priority_order_sorted(ps: Seq<ObservationPriority>)
    requires
        ps.len() <= usize::MAX,
    ensures
        forall|i: int|
            0 <= i < priority_order(ps).len() ==> #[trigger] priority_order(ps)[i] < ps.len(),
        forall|i: int, j: int|
            0 <= i < j < priority_order(ps).len() ==> priority_rank(
                ps[#[trigger] priority_order(ps)[j] as int],
            ) <= priority_rank(ps[#[trigger] priority_order(ps)[i] as int]),
        forall|i: int, j: int|
            0 <= i < j < priority_order(ps).len() && ps[#[trigger] priority_order(ps)[i] as int]
                == ps[#[trigger] priority_order(ps)[j] as int] ==> priority_order(ps)[i]
                < priority_order(ps)[j],
{
    let n = ps.len() as int;
    let c = positions_with(ps, ObservationPriority::Critical, n);
    let h = positions_with(ps, ObservationPriority::High, n);
    let m = positions_with(ps, ObservationPriority::Medium, n);
    let l = positions_with(ps, ObservationPriority::Low, n);
    let all = priority_order(ps);
    lemma_positions_with(ps, ObservationPriority::Critical, n);
    lemma_positions_with(ps, ObservationPriority::High, n);
    lemma_positions_with(ps, ObservationPriority::Medium, n);
    lemma_positions_with(ps, ObservationPriority::Low, n);
    lemma_order_parts(ps);
    let c1 = c.len() as int;
    let c2 = c1 + h.len();
    let c3 = c2 + m.len();
    assert forall|i: int| 0 <= i < all.len() implies #[trigger] all[i] < n && priority_rank(
        ps[all[i] as int],
    ) == (if i < c1 {
        3nat
    } else if i < c2 {
        2nat
    } else if i < c3 {
        1nat
    } else {
        0nat
    }) by {
        if i < c1 {
            assert(all[i] == c[i]);
        } else if i < c2 {
            assert(all[c1 + (i - c1)] == h[i - c1]);
        } else if i < c3 {
            assert(all[c2 + (i - c2)] == m[i - c2]);
        } else {
            assert(all[c3 + (i - c3)] == l[i - c3]);
        }
    }
    assert forall|i: int, j: int|
        0 <= i < j < all.len() && ps[#[trigger] all[i] as int] == ps[#[trigger] all[j] as int] implies all[i]
        < all[j] by {
        if j < c1 {
            assert(all[i] == c[i] && all[j] == c[j]);
        } else if i >= c1 && j < c2 {
            assert(all[c1 + (i - c1)] == h[i - c1]);
            assert(all[c1 + (j - c1)] == h[j - c1]);
        } else if i >= c2 && j < c3 {
            assert(all[c2 + (i - c2)] == m[i - c2]);
            assert(all[c2 + (j - c2)] == m[j - c2]);
        } else if i >= c3 {
            assert(all[c3 + (i - c3)] == l[i - c3]);
            assert(all[c3 + (j - c3)] == l[j - c3]);
        }
    }
}

/// Every position of `ps` occurs in `priority_order(ps)`.
proof fn lemma_priority_order_complete(ps: Seq<ObservationPriority>)
    requires
        ps.len() <= usize::MAX,
    ensures
        forall|k: usize| k < ps.len() ==> #[trigger] priority_order(ps).contains(k),
{
    let n = ps.len() as int;
    let c = positions_with(ps, ObservationPriority::Critical, n);
    let h = positions_with(ps, ObservationPriority::High, n);
    let m = positions_with(ps, ObservationPriority::Medium, n);
    let l = positions_with(ps, ObservationPriority::Low, n);
    let all = priority_order(ps);
    lemma_positions_with(ps, ObservationPriority::Critical, n);
    lemma_positions_with(ps, ObservationPriority::High, n);
    lemma_positions_with(ps, ObservationPriority::Medium, n);
    lemma_positions_with(ps, ObservationPriority::Low, n);
    lemma_order_parts(ps);
    assert forall|k: usize| k < n implies #[trigger] all.contains(k) by {
        if ps[k as int] == ObservationPriority::Critical {
            let x = choose|x: int| 0 <= x < c.len() && c[x] == k;
            assert(all[x] == k);
        } else if ps[k as int] == ObservationPriority::High {
            let x = choose|x: int| 0 <= x < h.len() && h[x] == k;
            assert(all[c.len() + x] == k);
        } else if ps[k as int] == ObservationPriority::Medium {
            let x = choose|x: int| 0 <= x < m.len() && m[x] == k;
            assert(all[c.len() + h.len() + x] == k);
        } else {
            let x = choose|x: int| 0 <= x < l.len() && l[x] == k;
            assert(all[c.len() + h.len() + m.len() + x] == k);
        }
    }
}

/// Observations are shown highest priority first, ties in the order they
/// were made, at most `MAX_OBSERVATIONS` of them, each at most once; when
/// no more than `MAX_OBSERVATIONS` were made, all of them are shown, and
/// when more were made, none left out has a higher priority than one shown.
pub proof fn lemma_shown_order(ps: Seq<ObservationPriority>)
    requires
        ps.len() <= usize::MAX,
    ensures
        shown_order(ps).len() == if ps.len() <= MAX_OBSERVATIONS {
            ps.len()
        } else {
            MAX_OBSERVATIONS as nat
        },
        forall|i: int| 0 <= i < shown_order(ps).len() ==> #[trigger] shown_order(ps)[i] < ps.len(),
        forall|i: int, j: int|
            0 <= i < j < shown_order(ps).len() ==> priority_rank(
                ps[#[trigger] shown_order(ps)[j] as int],
            ) <= priority_rank(ps[#[trigger] shown_order(ps)[i] as int]),
        forall|i: int, j: int|
            0 <= i < j < shown_order(ps).len() && ps[#[trigger] shown_order(ps)[i] as int]
                == ps[#[trigger] shown_order(ps)[j] as int] ==> shown_order(ps)[i]
                < shown_order(ps)[j],
        forall|i: int, j: int|
            0 <= i < j < shown_order(ps).len() ==> #[trigger] shown_order(ps)[i]
                != #[trigger] shown_order(ps)[j],
        ps.len() <= MAX_OBSERVATIONS ==> forall|k: usize|
            k < ps.len() ==> #[trigger] shown_order(ps).contains(k),
        forall|k: usize, i: int|
            #![trigger shown_order(ps).contains(k), shown_order(ps)[i]]
            k < ps.len() && !shown_order(ps).contains(k) && 0 <= i < shown_order(ps).len()
                ==> priority_rank(ps[k as int]) <= priority_rank(ps[shown_order(ps)[i] as int]),
{
    let all = priority_order(ps);
    let r = shown_order(ps);
    lemma_order_parts(ps);
    lemma_priority_order_sorted(ps);
    lemma_priority_order_complete(ps);
    assert forall|i: int| 0 <= i < r.len() implies #[trigger] r[i] == all[i] by {}
    assert forall|k: usize, i: int|
        k < ps.len() && !r.contains(k) && 0 <= i < r.len() implies priority_rank(ps[k as int])
        <= priority_rank(ps[r[i] as int]) by {
        assert(all.contains(k));
        let x = choose|x: int| 0 <= x < all.len() && all[x] == k;
        if x < r.len() {
            assert(r[x] == all[x]);
            assert(r.contains(k));
        }
        assert(r[i] == all[i]);
        assert(priority_rank(ps[all[x] as int]) <= priority_rank(ps[all[i] as int]));
    }
    assert forall|i: int, j: int| 0 <= i < j < r.len() implies #[trigger] r[i] != #[trigger] r[j] by {
        assert(r[i] == all[i] && r[j] == all[j]);
    }
}

} // verus!