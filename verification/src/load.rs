//! The load driver: what it sends, and what it makes of the answers.
//!
//! It binds one transceiver ESME, keeps a window of submits in flight, and
//! reports throughput and submit→resp latency percentiles. Latencies are
//! microseconds.
use crate::numbers;
use crate::status::SmppStatus;
use vstd::prelude::*;

verus! {

/// What a run sends.
#[derive(Debug)]
pub struct DrivePlan {
    /// The window of the client session: at least 8.
    pub client_window: usize,
    /// How many submits warm the session up, outside the measurement: a window
    /// full, or fewer where fewer are to be sent at all.
    pub warmup: usize,
    /// The message body.
    pub body: Vec<u8>,
}

/// What a run sends: a body of `body_len` times the letter `x`, in a window of
/// `window`.
pub fn plan_drive(count: usize, window: usize, body_len: usize) -> (r: DrivePlan)
    ensures
        r.client_window == if window < 8 {
            8
        } else {
            window
        },
        r.warmup == if window < count {
            window
        } else {
            count
        },
        r.body@ == Seq::new(body_len as nat, |i: int| 120u8),
{
    let mut body: Vec<u8> = Vec::new();
    let mut i: usize = 0;
    while i < body_len
        invariant
            i <= body_len,
            body@ == Seq::new(i as nat, |j: int| 120u8),
        decreases body_len - i,
    {
        body.push(120);
        i = i + 1;
        assert(body@ =~= Seq::new(i as nat, |j: int| 120u8));
    }
    DrivePlan {
        client_window: if window < 8 {
            8
        } else {
            window
        },
        warmup: if window < count {
            window
        } else {
            count
        },
        body,
    }
}

/// The message id that the mock SMSC gives to its `n`th submit: the number in
/// hexadecimal.
pub fn mock_message_id(n: u64) -> (r: String)
    ensures
        r@ == numbers::hexadecimal(n as nat),
{
    numbers::hexadecimal_text(n)
}

// ── The report ───────────────────────────────────────────────────────────

/// What a run came to.
#[derive(Debug)]
pub struct Report {
    pub submitted: u64,
    pub ok: u64,
    pub errors: u64,
    /// The percentiles, where any submit was answered.
    pub latency: Option<Latency>,
}

/// Latency percentiles.
#[derive(Debug, Clone, Copy, PartialEq, Eq, Structural)]
pub struct Latency {
    pub p50: u64,
    pub p90: u64,
    pub p99: u64,
    pub p999: u64,
    pub max: u64,
}

/// Whether the numbers ascend.
pub open spec fn is_sorted(v: Seq<u64>) -> bool {
    forall|i: int, j: int| 0 <= i <= j < v.len() ==> v[i] <= v[j]
}

/// `slice::sort_unstable` puts the numbers in ascending order and keeps them all.
#[verifier::external_body]
fn sort(v: Vec<u64>) -> (r: Vec<u64>)
    ensures
        is_sorted(r@),
        r@.to_multiset() == v@.to_multiset(),
{
    let mut v = v;
    v.sort_unstable();
    v
}

/// The position of the `permille`th part of `n` sorted values: nearest rank, a
/// half rounded up.
pub open spec fn rank(n: nat, permille: nat) -> int
    recommends
        n > 0,
        permille <= 1000,
{
    (2 * permille * (n - 1) + 1000) / 2000
}

/// The value at the `permille`th part of sorted values, 0 where there are none.
pub fn percentile(sorted: &Vec<u64>, permille: u64) -> (r: u64)
    requires
        permille <= 1000,
    ensures
        sorted@.len() == 0 ==> r == 0,
        sorted@.len() > 0 ==> 0 <= rank(sorted@.len(), permille as nat) < sorted@.len() && r
            == sorted@[rank(sorted@.len(), permille as nat)],
{
    let n: usize = sorted.len();
    if n == 0 {
        return 0;
    }
    proof {
        rank_is_inside(n as nat, permille as nat);
        assert(2 * permille * (n - 1) + 1000 <= 2000 * 0xFFFF_FFFF_FFFF_FFFF) by (nonlinear_arith)
            requires
                0 <= permille <= 1000,
                1 <= n <= 0xFFFF_FFFF_FFFF_FFFF,
        ;
        assert(2 * permille * (n - 1) >= 0) by (nonlinear_arith)
            requires
                0 <= permille,
                1 <= n,
        ;
    }
    let product: u128 = 2 * permille as u128 * (n - 1) as u128;
    let index: usize = ((product + 1000) / 2000) as usize;
    sorted[index]
}

proof fn rank_is_inside(n: nat, permille: nat)
    requires
        n > 0,
        permille <= 1000,
    ensures
        0 <= rank(n, permille) < n,
{
    let m = n - 1;
    assert(0 <= 2 * permille * m <= 2000 * m) by (nonlinear_arith)
        requires
            m >= 0,
            0 <= permille <= 1000,
    ;
}

/// The percentiles of sorted values.
pub open spec fn percentiles(sorted: Seq<u64>) -> Latency {
    Latency {
        p50: sorted[rank(sorted.len(), 500)],
        p90: sorted[rank(sorted.len(), 900)],
        p99: sorted[rank(sorted.len(), 990)],
        p999: sorted[rank(sorted.len(), 999)],
        max: sorted.last(),
    }
}

/// What a run came to, from the latencies of the submits that were answered and
/// the number of those that failed.
pub fn report(latencies: &Vec<u64>, errors: u64) -> (r: Report)
    requires
        latencies@.len() + errors <= u64::MAX,
    ensures
        r.submitted == latencies@.len() + errors,
        r.ok == latencies@.len(),
        r.errors == errors,
        match r.latency {
            None => latencies@.len() == 0,
            Some(l) => latencies@.len() > 0 && exists|sorted: Seq<u64>|
                is_sorted(sorted) && #[trigger] sorted.to_multiset() == latencies@.to_multiset()
                    && sorted.len() == latencies@.len() && l == percentiles(sorted),
        },
{
    let ok: u64 = latencies.len() as u64;
    let copy: Vec<u64> = latencies.clone();
    assert(copy@ =~= latencies@);
    let sorted: Vec<u64> = sort(copy);
    proof {
        latencies@.to_multiset_ensures();
        sorted@.to_multiset_ensures();
    }
    let n: usize = sorted.len();
    let latency: Option<Latency> = if n > 0 {
        Some(
            Latency {
                p50: percentile(&sorted, 500),
                p90: percentile(&sorted, 900),
                p99: percentile(&sorted, 990),
                p999: percentile(&sorted, 999),
                max: sorted[n - 1],
            },
        )
    } else {
        None
    };
    assert(n > 0 ==> latency == Some(percentiles(sorted@)));
    Report { submitted: ok + errors, ok, errors, latency }
}

impl Report {
    /// Whether the run fails: any error does.
    pub fn failed(&self) -> (r: bool)
        ensures
            r == (self.errors > 0),
    {
        self.errors > 0
    }
}

// ── The errors, one by one ───────────────────────────────────────────────

/// How often `status` is among the errors.
pub open spec fn times(errors: Seq<SmppStatus>, status: SmppStatus) -> nat
    decreases errors.len(),
{
    if errors.len() == 0 {
        0
    } else {
        times(errors.drop_last(), status) + if errors.last() == status {
            1nat
        } else {
            0nat
        }
    }
}

/// Whether `tally` breaks the errors down: each status that came once, with how
/// often it came.
pub open spec fn is_tally(tally: Seq<(SmppStatus, u64)>, errors: Seq<SmppStatus>) -> bool {
    &&& forall|i: int, j: int|
        0 <= i < j < tally.len() ==> (#[trigger] tally[i]).0 != (#[trigger] tally[j]).0
    &&& forall|i: int|
        0 <= i < tally.len() ==> (#[trigger] tally[i]).1 == times(errors, tally[i].0) && tally[i].1
            > 0
    &&& forall|k: int|
        0 <= k < errors.len() ==> exists|i: int|
            0 <= i < tally.len() && (#[trigger] tally[i]).0 == #[trigger] errors[k]
}

/// Whether `a` is among the errors, and came before the first `b`.
pub open spec fn came_before(errors: Seq<SmppStatus>, a: SmppStatus, b: SmppStatus) -> bool {
    exists|k: int|
        0 <= k < errors.len() && #[trigger] errors[k] == a && forall|m: int|
            0 <= m <= k ==> errors[m] != b
}

/// Whether the statuses of `tally` stand in the order in which each came first.
pub open spec fn is_in_order(tally: Seq<(SmppStatus, u64)>, errors: Seq<SmppStatus>) -> bool {
    forall|i: int, j: int|
        0 <= i < j < tally.len() ==> came_before(
            errors,
            (#[trigger] tally[i]).0,
            (#[trigger] tally[j]).0,
        )
}

proof fn times_is_at_most_len(errors: Seq<SmppStatus>, status: SmppStatus)
    ensures
        times(errors, status) <= errors.len(),
    decreases errors.len(),
{
    if errors.len() > 0 {
        times_is_at_most_len(errors.drop_last(), status);
    }
}

proof fn what_did_not_come_counts_nothing(errors: Seq<SmppStatus>, status: SmppStatus)
    requires
        forall|k: int| 0 <= k < errors.len() ==> errors[k] != status,
    ensures
        times(errors, status) == 0,
    decreases errors.len(),
{
    if errors.len() > 0 {
        assert(errors[errors.len() - 1] != status);
        what_did_not_come_counts_nothing(errors.drop_last(), status);
    }
}

/// The place of `status` in a tally.
fn place_of(tally: &Vec<(SmppStatus, u64)>, status: SmppStatus) -> (r: Option<usize>)
    ensures
        match r {
            Some(i) => i < tally@.len() && tally@[i as int].0 == status,
            None => forall|i: int| 0 <= i < tally@.len() ==> (#[trigger] tally@[i]).0 != status,
        },
{
    let mut i: usize = 0;
    while i < tally.len()
        invariant
            i <= tally@.len(),
            forall|j: int| 0 <= j < i ==> (#[trigger] tally@[j]).0 != status,
        decreases tally@.len() - i,
    {
        if tally[i].0 == status {
            return Some(i);
        }
        i = i + 1;
    }
    None
}

/// The errors of a run, broken down by status, in the order in which each came
/// first.
pub fn errors_by_status(errors: &Vec<SmppStatus>) -> (tally: Vec<(SmppStatus, u64)>)
    ensures
        is_tally(tally@, errors@),
        is_in_order(tally@, errors@),
{
    let mut tally: Vec<(SmppStatus, u64)> = Vec::new();
    let mut k: usize = 0;
    while k < errors.len()
        invariant
            k <= errors@.len(),
            is_tally(tally@, errors@.take(k as int)),
            is_in_order(tally@, errors@.take(k as int)),
        decreases errors@.len() - k,
    {
        let status: SmppStatus = errors[k];
        let ghost was = tally@;
        let ghost seen = errors@.take(k as int);
        let ghost more = errors@.take(k + 1);
        proof {
            assert(more.drop_last() =~= seen);
            assert(more.last() == status);
            times_is_at_most_len(seen, status);
        }
        let ghost at: int;
        match place_of(&tally, status) {
            Some(i) => {
                let n: u64 = tally[i].1;
                tally.set(i, (status, n + 1));
                proof {
                    at = i as int;
                }
            },
            None => {
                proof {
                    assert forall|j: int| 0 <= j < seen.len() implies seen[j] != status by {
                        let i = choose|i: int|
                            0 <= i < was.len() && (#[trigger] was[i]).0 == seen[j];
                        assert(was[i].0 != status);
                    }
                    what_did_not_come_counts_nothing(seen, status);
                    at = was.len() as int;
                }
                tally.push((status, 1));
            },
        }
        assert forall|j: int| 0 <= j < more.len() implies exists|i: int|
            0 <= i < tally@.len() && (#[trigger] tally@[i]).0 == #[trigger] more[j] by {
            if j < seen.len() {
                let i = choose|i: int| 0 <= i < was.len() && (#[trigger] was[i]).0 == seen[j];
                assert(tally@[i].0 == more[j]);
            } else {
                assert(tally@[at].0 == more[j]);
            }
        }
        assert forall|i: int, j: int| 0 <= i < j < tally@.len() implies came_before(
            more,
            (#[trigger] tally@[i]).0,
            (#[trigger] tally@[j]).0,
        ) by {
            let a = tally@[i].0;
            let b = tally@[j].0;
            assert(a == was[i].0);
            if j < was.len() {
                assert(b == was[j].0);
                assert(came_before(seen, a, b));
                let first = choose|n: int|
                    0 <= n < seen.len() && #[trigger] seen[n] == a && forall|m: int|
                        0 <= m <= n ==> seen[m] != b;
                assert(more[first] == a);
                assert forall|m: int| 0 <= m <= first implies more[m] != b by {
                    assert(more[m] == seen[m]);
                }
            } else {
                assert(b == status);
                if forall|n: int| 0 <= n < seen.len() ==> seen[n] != a {
                    what_did_not_come_counts_nothing(seen, a);
                }
                let n = choose|n: int| 0 <= n < seen.len() && seen[n] == a;
                assert(more[n] == a);
                assert forall|m: int| 0 <= m <= n implies more[m] != b by {
                    assert(more[m] == seen[m]);
                    let w = choose|w: int|
                        0 <= w < was.len() && (#[trigger] was[w]).0 == seen[m];
                    assert(was[w].0 != status);
                }
            }
        }
        k = k + 1;
    }
    assert(errors@.take(errors@.len() as int) =~= errors@);
    tally
}

// ── What is promised of a report ─────────────────────────────────────────

/// A higher percentile is never the smaller one, and none is over the maximum.
pub proof fn percentiles_ascend(sorted: Seq<u64>)
    requires
        is_sorted(sorted),
        sorted.len() > 0,
    ensures
        ({
            let l = percentiles(sorted);
            l.p50 <= l.p90 <= l.p99 <= l.p999 <= l.max
        }),
{
    rank_is_inside(sorted.len(), 500);
    rank_is_inside(sorted.len(), 900);
    rank_is_inside(sorted.len(), 990);
    rank_is_inside(sorted.len(), 999);
    rank_ascends(sorted.len(), 500, 900);
    rank_ascends(sorted.len(), 900, 990);
    rank_ascends(sorted.len(), 990, 999);
}

proof fn rank_ascends(n: nat, a: nat, b: nat)
    requires
        n > 0,
        a <= b,
    ensures
        rank(n, a) <= rank(n, b),
{
    let m = n - 1;
    assert(2 * a * m <= 2 * b * m) by (nonlinear_arith)
        requires
            m >= 0,
            a <= b,
    ;
}

/// The breakdown accounts for every error: its counts add up to their number.
pub proof fn a_tally_adds_up(tally: Seq<(SmppStatus, u64)>, errors: Seq<SmppStatus>)
    requires
        is_tally(tally, errors),
    ensures
        counted(tally) == errors.len(),
    decreases tally.len(),
{
    if tally.len() == 0 {
        assert(errors.len() > 0 ==> exists|i: int|
            0 <= i < tally.len() && (#[trigger] tally[i]).0 == errors[0]);
    } else {
        let status = tally.last().0;
        let rest = without(errors, status);
        removing_takes_its_count(errors, status);
        let shorter = tally.drop_last();
        assert forall|i: int| 0 <= i < shorter.len() implies (#[trigger] shorter[i]).1 == times(
            rest,
            shorter[i].0,
        ) && shorter[i].1 > 0 by {
            assert(tally[i].0 != tally[tally.len() - 1].0);
        }
        assert forall|k: int| 0 <= k < rest.len() implies exists|i: int|
            0 <= i < shorter.len() && (#[trigger] shorter[i]).0 == #[trigger] rest[k] by {
            let m = choose|m: int| 0 <= m < errors.len() && errors[m] == rest[k];
            let i = choose|i: int| 0 <= i < tally.len() && (#[trigger] tally[i]).0 == errors[m];
            assert(shorter[i].0 == rest[k]);
        }
        a_tally_adds_up(shorter, rest);
    }
}

/// The sum of the counts of a tally.
pub open spec fn counted(tally: Seq<(SmppStatus, u64)>) -> nat
    decreases tally.len(),
{
    if tally.len() == 0 {
        0
    } else {
        counted(tally.drop_last()) + tally.last().1 as nat
    }
}

/// The errors other than `status`.
spec fn without(errors: Seq<SmppStatus>, status: SmppStatus) -> Seq<SmppStatus>
    decreases errors.len(),
{
    if errors.len() == 0 {
        Seq::empty()
    } else if errors.last() == status {
        without(errors.drop_last(), status)
    } else {
        without(errors.drop_last(), status).push(errors.last())
    }
}

proof fn removing_takes_its_count(errors: Seq<SmppStatus>, status: SmppStatus)
    ensures
        without(errors, status).len() + times(errors, status) == errors.len(),
        forall|s: SmppStatus|
            s != status ==> #[trigger] times(without(errors, status), s) == times(errors, s),
        forall|k: int|
            0 <= k < without(errors, status).len() ==> (#[trigger] without(errors, status)[k])
                != status && errors.contains(without(errors, status)[k]),
    decreases errors.len(),
{
    if errors.len() > 0 {
        let shorter = errors.drop_last();
        let last = errors.last();
        let rest = without(errors, status);
        removing_takes_its_count(shorter, status);
        if last != status {
            assert(rest.drop_last() =~= without(shorter, status));
        }
        assert forall|s: SmppStatus| s != status implies #[trigger] times(rest, s) == times(
            errors,
            s,
        ) by {
            assert(times(without(shorter, status), s) == times(shorter, s));
        }
        assert forall|k: int| 0 <= k < rest.len() implies (#[trigger] rest[k]) != status
            && errors.contains(rest[k]) by {
            if k < without(shorter, status).len() {
                let m = choose|m: int|
                    0 <= m < shorter.len() && shorter[m] == without(shorter, status)[k];
                assert(shorter.contains(without(shorter, status)[k]));
                assert(errors[m] == rest[k]);
            } else {
                assert(errors[errors.len() - 1] == rest[k]);
            }
        }
    }
}

/// A percentile stands at the nearest rank, and of two as near at the higher one.
pub proof fn a_percentile_has_the_nearest_rank(n: nat, permille: nat)
    requires
        n > 0,
        permille <= 1000,
    ensures
        rank(n, permille) * 1000 - 500 <= permille * (n - 1) < rank(n, permille) * 1000 + 500,
        0 <= rank(n, permille) < n,
{
    rank_is_inside(n, permille);
    let m = n - 1;
    let product = permille * m;
    assert(2 * permille * m == 2 * product) by (nonlinear_arith)
        requires
            product == permille * m,
    ;
}

/// How often a status came is counted error by error.
pub proof fn errors_are_counted_one_by_one(a: Seq<SmppStatus>, b: Seq<SmppStatus>, s: SmppStatus)
    ensures
        times(a + b, s) == times(a, s) + times(b, s),
        times(seq![s], s) == 1,
        forall|t: SmppStatus| t != s ==> #[trigger] times(seq![t], s) == 0,
    decreases b.len(),
{
    assert forall|t: SmppStatus| t != s implies #[trigger] times(seq![t], s) == 0 by {
        assert(seq![t].drop_last() =~= Seq::empty());
        assert(times(seq![t].drop_last(), s) == 0);
    }
    assert(seq![s].drop_last() =~= Seq::empty());
    assert(times(seq![s].drop_last(), s) == 0);
    if b.len() > 0 {
        errors_are_counted_one_by_one(a, b.drop_last(), s);
        assert((a + b).drop_last() =~= a + b.drop_last());
        assert((a + b).last() == b.last());
    } else {
        assert(a + b =~= a);
    }
}

} // verus!
