//! How tightly a group of boxes agrees on mesh time.
use crate::arith::trunc_div;
use crate::Micros;
use vstd::prelude::*;

verus! {

/// The spread of mesh-time readings across boxes.
#[derive(Clone, Copy, Debug, PartialEq, Eq, Structural)]
pub struct PhaseStats {
    pub max_spread_us: Micros,
    pub mean_abs_error_us: Micros,
}

/// The sum of the readings.
pub open spec fn sum_of(t: Seq<i64>) -> int
    decreases t.len(),
{
    if t.len() == 0 {
        0
    } else {
        sum_of(t.drop_last()) + t.last()
    }
}

/// The smallest reading (0 for none).
pub open spec fn min_of(t: Seq<i64>) -> int
    decreases t.len(),
{
    if t.len() == 0 {
        0
    } else if t.len() == 1 {
        t[0] as int
    } else {
        let m = min_of(t.drop_last());
        if t.last() < m { t.last() as int } else { m }
    }
}

/// The largest reading (0 for none).
pub open spec fn max_of(t: Seq<i64>) -> int
    decreases t.len(),
{
    if t.len() == 0 {
        0
    } else if t.len() == 1 {
        t[0] as int
    } else {
        let m = max_of(t.drop_last());
        if t.last() > m { t.last() as int } else { m }
    }
}

/// The sum of the readings' distances from `mean`.
pub open spec fn abs_dev_sum(t: Seq<i64>, mean: int) -> int
    decreases t.len(),
{
    if t.len() == 0 {
        0
    } else {
        abs_dev_sum(t.drop_last(), mean) + (if t.last() >= mean { t.last() - mean } else { mean - t.last() })
    }
}

/// The readings' mean, truncated toward zero.
pub open spec fn mean_of(t: Seq<i64>) -> int {
    trunc_div(sum_of(t), if t.len() == 0 { 1 } else { t.len() as int })
}

/// Every partial sum, deviation and the spread fit in 64 bits.
pub open spec fn stats_fit(t: Seq<i64>) -> bool {
    &&& forall|k: int| 0 <= k <= t.len() ==> i64::MIN <= #[trigger] sum_of(t.subrange(0, k)) <= i64::MAX
    &&& forall|k: int| 0 <= k <= t.len() ==> i64::MIN < #[trigger] abs_dev_sum(t.subrange(0, k), mean_of(t)) <= i64::MAX
    &&& forall|k: int| 0 <= k < t.len() ==> i64::MIN < #[trigger] t[k] - mean_of(t) <= i64::MAX
    &&& i64::MIN <= max_of(t) - min_of(t) <= i64::MAX
}

/// The spread (largest minus smallest) and the mean absolute deviation.
pub open spec fn spec_stats(t: Seq<i64>) -> PhaseStats {
    PhaseStats {
        max_spread_us: (max_of(t) - min_of(t)) as i64,
        mean_abs_error_us: trunc_div(abs_dev_sum(t, mean_of(t)), if t.len() == 0 { 1 } else { t.len() as int }) as i64,
    }
}

pub fn phase_stats_of(times: &[Micros]) -> (r: PhaseStats)
    requires
        stats_fit(times@),
        times@.len() <= i64::MAX,
    ensures
        r == spec_stats(times@),
{
    let n = times.len();
    let ghost t = times@;
    let mut min: i64 = 0;
    let mut max: i64 = 0;
    let mut sum: i64 = 0;
    let mut i: usize = 0;
    assert(t.subrange(0, 0) =~= Seq::<i64>::empty());
    while i < n
        invariant
            n == t.len(),
            t == times@,
            i <= n,
            stats_fit(t),
            sum == sum_of(t.subrange(0, i as int)),
            min == min_of(t.subrange(0, i as int)),
            max == max_of(t.subrange(0, i as int)),
        decreases n - i,
    {
        let v = times[i];
        assert(t.subrange(0, i + 1).drop_last() == t.subrange(0, i as int));
        assert(i64::MIN <= sum_of(t.subrange(0, i + 1)) <= i64::MAX);
        sum = sum + v;
        if i == 0 || v < min {
            min = v;
        }
        if i == 0 || v > max {
            max = v;
        }
        i = i + 1;
    }
    assert(t.subrange(0, n as int) == t);
    let count: i64 = if n == 0 {
        1
    } else {
        n as i64
    };
    let mean = sum / count;
    assert(mean == mean_of(t));
    let mut dev: i64 = 0;
    let mut j: usize = 0;
    while j < n
        invariant
            n == t.len(),
            t == times@,
            j <= n,
            stats_fit(t),
            mean == mean_of(t),
            dev == abs_dev_sum(t.subrange(0, j as int), mean_of(t)),
        decreases n - j,
    {
        let v = times[j];
        assert(t.subrange(0, j + 1).drop_last() == t.subrange(0, j as int));
        assert(i64::MIN < abs_dev_sum(t.subrange(0, j + 1), mean_of(t)) <= i64::MAX);
        assert(i64::MIN < t[j as int] - mean_of(t) <= i64::MAX);
        let d = v - mean;
        let a = if d < 0 {
            -d
        } else {
            d
        };
        dev = dev + a;
        j = j + 1;
    }
    assert(i64::MIN < abs_dev_sum(t.subrange(0, n as int), mean_of(t)) <= i64::MAX);
    PhaseStats { max_spread_us: max - min, mean_abs_error_us: dev / count }
}

proof fn lemma_abs_dev_nonneg(t: Seq<i64>, mean: int)
    ensures
        abs_dev_sum(t, mean) >= 0,
    decreases t.len(),
{
    if t.len() > 0 {
        lemma_abs_dev_nonneg(t.drop_last(), mean);
    }
}

/// The phase statistics of the readings, when every partial sum, deviation
/// and the spread fit in 64 bits; none otherwise.
pub fn checked_phase_stats(times: &[Micros]) -> (r: Option<PhaseStats>)
    requires
        times@.len() <= i64::MAX,
    ensures
        r is Some <==> stats_fit(times@),
        r matches Some(st) ==> st == spec_stats(times@),
{
    let n = times.len();
    let ghost t = times@;
    let lo: i128 = i64::MIN as i128;
    let hi: i128 = i64::MAX as i128;
    let mut sum: i128 = 0;
    let mut min: i128 = 0;
    let mut max: i128 = 0;
    let mut i: usize = 0;
    assert(t.subrange(0, 0) =~= Seq::<i64>::empty());
    while i < n
        invariant
            n == t.len(),
            t == times@,
            lo == i64::MIN,
            hi == i64::MAX,
            i <= n,
            sum == sum_of(t.subrange(0, i as int)),
            lo <= sum <= hi,
            min == min_of(t.subrange(0, i as int)),
            max == max_of(t.subrange(0, i as int)),
            lo <= min <= hi,
            lo <= max <= hi,
            forall|k: int| 0 <= k <= i ==> i64::MIN <= #[trigger] sum_of(t.subrange(0, k)) <= i64::MAX,
        decreases n - i,
    {
        let v = times[i] as i128;
        assert(t.subrange(0, i + 1).drop_last() == t.subrange(0, i as int));
        let next = sum + v;
        if next < lo || next > hi {
            assert(!(i64::MIN <= sum_of(t.subrange(0, i + 1)) <= i64::MAX));
            return None;
        }
        sum = next;
        if i == 0 || v < min {
            min = v;
        }
        if i == 0 || v > max {
            max = v;
        }
        i = i + 1;
    }
    assert(t.subrange(0, n as int) == t);
    let count: i128 = if n == 0 {
        1
    } else {
        n as i128
    };
    let mean = sum / count;
    assert(mean == mean_of(t));
    let mut dev: i128 = 0;
    let mut j: usize = 0;
    while j < n
        invariant
            n == t.len(),
            t == times@,
            lo == i64::MIN,
            hi == i64::MAX,
            j <= n,
            mean == mean_of(t),
            lo <= mean <= hi,
            dev == abs_dev_sum(t.subrange(0, j as int), mean_of(t)),
            0 <= dev <= hi,
            forall|k: int| 0 <= k <= j ==> i64::MIN < #[trigger] abs_dev_sum(t.subrange(0, k), mean_of(t)) <= i64::MAX,
            forall|k: int| 0 <= k < j ==> i64::MIN < #[trigger] t[k] - mean_of(t) <= i64::MAX,
        decreases n - j,
    {
        let v = times[j] as i128;
        assert(t.subrange(0, j + 1).drop_last() == t.subrange(0, j as int));
        let d = v - mean;
        if d <= lo || d > hi {
            assert(!(i64::MIN < t[j as int] - mean_of(t) <= i64::MAX));
            return None;
        }
        let a = if d < 0 {
            -d
        } else {
            d
        };
        if dev + a > hi {
            assert(!(abs_dev_sum(t.subrange(0, j + 1), mean_of(t)) <= i64::MAX));
            return None;
        }
        dev = dev + a;
        j = j + 1;
        proof {
            lemma_abs_dev_nonneg(t.subrange(0, j as int), mean_of(t));
        }
    }
    assert(t.subrange(0, n as int) == t);
    if max - min < lo || max - min > hi {
        return None;
    }
    Some(phase_stats_of(times))
}

} // verus!
