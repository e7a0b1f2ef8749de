//! Jitter and latency figures computed from a series of time intervals.

use vstd::prelude::*;

verus! {

/// The absolute difference between the interval at `i + 1` and the one at `i`.
pub open spec fn step(s: Seq<i32>, i: int) -> int {
    let d = s[i + 1] - s[i];
    if d < 0 { -d } else { d }
}

/// The sum of `step(s, i)` for `from <= i < to`.
pub open spec fn sum_steps(s: Seq<i32>, from: int, to: int) -> int
    decreases to - from,
{
    if to <= from {
        0
    } else {
        sum_steps(s, from, to - 1) + step(s, to - 1)
    }
}

/// The difference at `i` and its absolute value fit in an `i32`.
pub open spec fn step_fits(s: Seq<i32>, i: int) -> bool {
    -0x7fff_ffff <= s[i + 1] - s[i] <= 0x7fff_ffff
}

/// Every step for `from <= i < to` and their running sum fit in an `i32`:
/// the steps and the sum of them can be computed without overflow.
pub open spec fn steps_fit(s: Seq<i32>, from: int, to: int) -> bool {
    &&& forall|i: int| from <= i < to ==> #[trigger] step_fits(s, i)
    &&& sum_steps(s, from, to) <= 0x7fff_ffff
}

proof fn lemma_sum_steps_nonneg(s: Seq<i32>, from: int, to: int)
    ensures
        sum_steps(s, from, to) >= 0,
    decreases to - from,
{
    if to > from {
        lemma_sum_steps_nonneg(s, from, to - 1);
    }
}

proof fn lemma_sum_steps_mono(s: Seq<i32>, from: int, a: int, b: int)
    requires
        a <= b,
    ensures
        sum_steps(s, from, a) <= sum_steps(s, from, b),
    decreases b - a,
{
    if a < b {
        lemma_sum_steps_mono(s, from, a, b - 1);
        if b > from {
            assert(sum_steps(s, from, b) == sum_steps(s, from, b - 1) + step(s, b - 1));
        }
    }
}

/// Sums the steps of `s` for `from <= i < to`.
fn sum_of_steps(s: &[i32], from: usize, to: usize) -> (r: i32)
    requires
        from <= to + 1,
        to < s@.len(),
        steps_fit(s@, from as int, to as int),
    ensures
        r == sum_steps(s@, from as int, to as int),
{
    let mut sum: i32 = 0;
    let mut i: usize = from;
    if to < from {
        return 0;
    }
    while i < to
        invariant
            from <= i <= to,
            to < s@.len(),
            steps_fit(s@, from as int, to as int),
            sum == sum_steps(s@, from as int, i as int),
        decreases to - i,
    {
        assert(step_fits(s@, i as int));
        let d: i32 = s[i + 1] - s[i];
        let a: i32 = if d < 0 { -d } else { d };
        proof {
            lemma_sum_steps_mono(s@, from as int, i + 1, to as int);
        }
        sum = sum + a;
        i = i + 1;
    }
    sum
}

/// Whether `steps_fit(s, from, to)` holds.
fn steps_fit_check(s: &[i32], from: usize, to: usize) -> (r: bool)
    requires
        to < s@.len(),
    ensures
        r == steps_fit(s@, from as int, to as int),
{
    let mut sum: i64 = 0;
    let mut i: usize = from;
    if to < from {
        return true;
    }
    while i < to
        invariant
            from <= i <= to,
            to < s@.len(),
            forall|j: int| from <= j < i ==> #[trigger] step_fits(s@, j),
            sum == sum_steps(s@, from as int, i as int),
            sum <= 0x7fff_ffff,
        decreases to - i,
    {
        let d: i64 = s[i + 1] as i64 - s[i] as i64;
        if d < -0x7fff_ffff || d > 0x7fff_ffff {
            assert(!step_fits(s@, i as int));
            return false;
        }
        let a: i64 = if d < 0 { -d } else { d };
        sum = sum + a;
        i = i + 1;
        if sum > 0x7fff_ffff {
            proof {
                lemma_sum_steps_mono(s@, from as int, i as int, to as int);
            }
            return false;
        }
    }
    true
}

/// The smallest of `s[0]`, ..., `s[k - 1]`.
pub open spec fn min_prefix(s: Seq<i32>, k: int) -> i32
    decreases k,
{
    if k <= 1 {
        s[0]
    } else {
        let m = min_prefix(s, k - 1);
        if s[k - 1] < m { s[k - 1] } else { m }
    }
}

/// The download jitter: the steps between consecutive gaps, summed and
/// divided by the number of gaps.
pub open spec fn download_jitter_spec(s: Seq<i32>) -> int {
    sum_steps(s, 0, s.len() - 1) / (s.len() as int)
}

/// The download jitter can be computed without overflow: there is at least
/// one gap, the steps and their sum fit in an `i32`, and so does the count.
pub open spec fn download_jitter_defined(s: Seq<i32>) -> bool {
    &&& 1 <= s.len() <= 0x7fff_ffff
    &&& steps_fit(s, 0, s.len() - 1)
}

/// Whether `download_jitter` can be applied to `samples`.
pub fn download_jitter_computable(samples: &[i32]) -> (r: bool)
    ensures
        r == download_jitter_defined(samples@),
{
    let len = samples.len();
    if len == 0 || len > 0x7fff_ffff {
        return false;
    }
    steps_fit_check(samples, 0, len - 1)
}

/// The jitter of a download: the mean absolute difference between
/// consecutive gaps, the sum divided by the number of gaps, rounded down.
pub fn download_jitter(samples: &[i32]) -> (r: i32)
    requires
        download_jitter_defined(samples@),
    ensures
        r == download_jitter_spec(samples@),
        r >= 0,
        r * samples@.len() <= sum_steps(samples@, 0, samples@.len() - 1) < (r + 1)
            * samples@.len(),
{
    let len = samples.len();
    let sum = sum_of_steps(samples, 0, len - 1);
    proof {
        lemma_sum_steps_nonneg(samples@, 0, len - 1);
        lemma_download_jitter_is_mean_step(samples@);
    }
    let count = len as i32;
    sum / count
}

/// The figures of a round-trip series: the jitter counts the steps between
/// consecutive intervals from the second interval on, and divides their sum
/// by the number of intervals; the ping is the smallest interval among all
/// but the last (the only one, where there is one).
pub open spec fn interval_stats_spec(s: Seq<i32>) -> Option<(i32, i32)> {
    if s.len() == 0 {
        None
    } else {
        let jitter = sum_steps(s, 1, s.len() - 1) / (s.len() as int);
        let k = if s.len() == 1 { 1 } else { s.len() - 1 };
        Some((jitter as i32, min_prefix(s, k as int)))
    }
}

/// The round-trip figures can be computed without overflow.
pub open spec fn interval_stats_defined(s: Seq<i32>) -> bool {
    &&& s.len() <= 0x7fff_ffff
    &&& s.len() >= 1 ==> steps_fit(s, 1, s.len() - 1)
}

/// Whether `interval_stats` can be applied to `intervals`.
pub fn interval_stats_computable(intervals: &[i32]) -> (r: bool)
    ensures
        r == interval_stats_defined(intervals@),
{
    let len = intervals.len();
    if len > 0x7fff_ffff {
        return false;
    }
    if len == 0 {
        return true;
    }
    steps_fit_check(intervals, 1, len - 1)
}

/// The jitter and the ping of a series of round-trip intervals, `None` when
/// the series is empty.
pub fn interval_stats(intervals: &[i32]) -> (r: Option<(i32, i32)>)
    requires
        interval_stats_defined(intervals@),
    ensures
        r == interval_stats_spec(intervals@),
        r is None <==> intervals@.len() == 0,
        r matches Some((jitter, ping)) ==> {
            let n = intervals@.len();
            let k = if n == 1 { 1 } else { n - 1 };
            &&& jitter * n <= sum_steps(intervals@, 1, n - 1) < (jitter + 1) * n
            &&& forall|i: int| 0 <= i < k ==> ping <= #[trigger] intervals@[i]
            &&& exists|i: int| 0 <= i < k && ping == #[trigger] intervals@[i]
        },
{
    proof {
        if intervals@.len() >= 1 {
            lemma_interval_jitter_is_mean_step(intervals@);
            lemma_ping_is_smallest_interval(intervals@);
        }
    }
    let count = intervals.len();
    if count == 0 {
        return None;
    }
    let mut ping: i32 = intervals[0];
    let mut i: usize = 0;
    while i < count - 1
        invariant
            count == intervals@.len(),
            count >= 1,
            i <= count - 1,
            ping == min_prefix(intervals@, if i == 0 { 1 } else { i as int }),
        decreases count - 1 - i,
    {
        let temp = intervals[i];
        if temp < ping {
            ping = temp;
        }
        i = i + 1;
    }
    let sum = sum_of_steps(intervals, 1, count - 1);
    proof {
        lemma_sum_steps_nonneg(intervals@, 1, count - 1);
    }
    let jitter = sum / (count as i32);
    Some((jitter, ping))
}

} // verus!

verus! {

proof fn lemma_min_prefix(s: Seq<i32>, k: int)
    requires
        1 <= k <= s.len(),
    ensures
        forall|i: int| 0 <= i < k ==> min_prefix(s, k) <= #[trigger] s[i],
        exists|i: int| 0 <= i < k && min_prefix(s, k) == #[trigger] s[i],
    decreases k,
{
    if k > 1 {
        lemma_min_prefix(s, k - 1);
        let w = choose|i: int| 0 <= i < k - 1 && min_prefix(s, k - 1) == #[trigger] s[i];
        if s[k - 1] < min_prefix(s, k - 1) {
            assert(min_prefix(s, k) == s[k - 1]);
        } else {
            assert(min_prefix(s, k) == s[w]);
        }
    } else {
        assert(min_prefix(s, k) == s[0]);
    }
}

/// The ping of a non-empty series is one of the intervals it considers (all
/// but the last, or the only one) and none of them is smaller; the jitter
/// is never negative.
pub proof fn lemma_ping_is_smallest_interval(s: Seq<i32>)
    requires
        s.len() >= 1,
        interval_stats_defined(s),
    ensures
        ({
            let k = if s.len() == 1 { 1 } else { s.len() - 1 };
            &&& interval_stats_spec(s) matches Some((jitter, ping))
            &&& jitter >= 0
            &&& forall|i: int| 0 <= i < k ==> ping <= #[trigger] s[i]
            &&& exists|i: int| 0 <= i < k && ping == #[trigger] s[i]
        }),
{
    let k: int = if s.len() == 1 { 1 } else { s.len() - 1 };
    lemma_min_prefix(s, k);
    lemma_sum_steps_nonneg(s, 1, s.len() - 1);
    assert(sum_steps(s, 1, s.len() - 1) / (s.len() as int) <= sum_steps(s, 1, s.len() - 1)) by (
    nonlinear_arith)
        requires
            sum_steps(s, 1, s.len() - 1) >= 0,
            s.len() >= 1,
    ;
    assert(sum_steps(s, 1, s.len() - 1) / (s.len() as int) >= 0) by (nonlinear_arith)
        requires
            sum_steps(s, 1, s.len() - 1) >= 0,
            s.len() >= 1,
    ;
}

proof fn lemma_constant_steps(s: Seq<i32>, from: int, to: int)
    requires
        0 <= from,
        to < s.len(),
        forall|i: int, j: int| 0 <= i < s.len() && 0 <= j < s.len() ==> s[i] == s[j],
    ensures
        sum_steps(s, from, to) == 0,
    decreases to - from,
{
    if to > from {
        lemma_constant_steps(s, from, to - 1);
        assert(s[to] == s[to - 1]);
    }
}

/// A series whose intervals are all equal has no jitter, in both figures.
pub proof fn lemma_steady_series_has_no_jitter(s: Seq<i32>)
    requires
        s.len() >= 1,
        forall|i: int, j: int| 0 <= i < s.len() && 0 <= j < s.len() ==> s[i] == s[j],
        s.len() <= 0x7fff_ffff,
    ensures
        download_jitter_defined(s),
        interval_stats_defined(s),
        download_jitter_spec(s) == 0,
        interval_stats_spec(s) matches Some((jitter, ping)) && jitter == 0 && ping == s[0],
{
    lemma_constant_steps(s, 0, s.len() - 1);
    lemma_constant_steps(s, 1, s.len() - 1);
    assert forall|i: int| 0 <= i < s.len() - 1 implies #[trigger] step_fits(s, i) by {
        assert(s[i + 1] == s[i]);
    }
    lemma_ping_is_smallest_interval(s);
    let k: int = if s.len() == 1 { 1 } else { s.len() - 1 };
    lemma_min_prefix(s, k);
}

/// Division rounded down: `q` is `a / n` exactly when `q * n <= a < (q + 1) * n`.
proof fn lemma_floor_div(a: int, n: int)
    requires
        a >= 0,
        n > 0,
    ensures
        (a / n) * n <= a < (a / n + 1) * n,
        0 <= a / n <= a,
{
    let q = a / n;
    let r = a % n;
    assert(a == q * n + r && 0 <= r < n) by (nonlinear_arith)
        requires n > 0, q == a / n, r == a % n;
    assert((q + 1) * n == q * n + n) by (nonlinear_arith);
    assert(0 <= q && q <= a) by (nonlinear_arith)
        requires n > 0, a == q * n + r, 0 <= r < n, a >= 0;
}

/// The download jitter is the mean of the steps between consecutive gaps,
/// rounded down: multiplied by the number of gaps it is at most their sum,
/// and one more is above it, whatever the number of gaps.
pub proof fn lemma_download_jitter_is_mean_step(s: Seq<i32>)
    requires
        download_jitter_defined(s),
    ensures
        download_jitter_spec(s) * s.len() <= sum_steps(s, 0, s.len() - 1) < (
        download_jitter_spec(s) + 1) * s.len(),
        download_jitter_spec(s) >= 0,
{
    lemma_sum_steps_nonneg(s, 0, s.len() - 1);
    lemma_floor_div(sum_steps(s, 0, s.len() - 1), s.len() as int);
}

/// The jitter of a non-empty round-trip series is the mean of the steps
/// between consecutive intervals from the second interval on, rounded down:
/// multiplied by the number of intervals it is at most their sum, and one
/// more is above it, whatever the number of intervals.
pub proof fn lemma_interval_jitter_is_mean_step(s: Seq<i32>)
    requires
        s.len() >= 1,
        interval_stats_defined(s),
    ensures
        interval_stats_spec(s) matches Some((jitter, _ping)) && jitter * s.len() <= sum_steps(
            s,
            1,
            s.len() - 1,
        ) < (jitter + 1) * s.len(),
{
    let sum = sum_steps(s, 1, s.len() - 1);
    lemma_sum_steps_nonneg(s, 1, s.len() - 1);
    lemma_floor_div(sum, s.len() as int);
    assert(sum / (s.len() as int) <= 0x7fff_ffff);
    assert((sum / (s.len() as int)) as i32 == sum / (s.len() as int));
}

} // verus!
