use vstd::prelude::*;

use crate::config::Config;

verus! {

/// `a / b` rounded up, for `a >= 0` and `b > 0`.
pub open spec fn ceil_div(a: int, b: int) -> int {
    (a + b - 1) / b
}

/// `1 + 2 + ... + n`.
pub open spec fn triangle(n: int) -> int {
    n * (n + 1) / 2
}

/// A call count taken as at least one, so that a warmup that made no call
/// never leads to a division by zero.
pub open spec fn at_least_one(x: int) -> int {
    if x < 1 {
        1
    } else {
        x
    }
}

/// `x` saturated to the range of `usize`.
pub open spec fn saturate(x: int) -> usize {
    if x > usize::MAX {
        usize::MAX
    } else {
        x as usize
    }
}

/// Numerator of the mean call time of a warmup of `iters` calls in `time`
/// nanoseconds: the mean is `mean_ps_num(time, iters) / at_least_one(iters)`
/// picoseconds. It is the measured mean, raised to one picosecond when it
/// is smaller (a zero warmup time included), so it is never zero.
pub open spec fn mean_ps_num(time: int, iters: int) -> int {
    let i = at_least_one(iters);
    if 1000 * time < i {
        i
    } else {
        1000 * time
    }
}

/// The target in picoseconds, over the same denominator as `mean_ps_num`.
pub open spec fn target_work(target: int, iters: int) -> int {
    1000 * target * at_least_one(iters)
}

/// The factor `d` of a linear ramp: the least `d >= 1` such that
/// `(d + 2d + ... + n d) * mean >= target`, for the clamped mean call time.
pub open spec fn linear_factor(target: int, n: int, time: int, iters: int) -> int {
    let d = ceil_div(target_work(target, iters), mean_ps_num(time, iters) * triangle(n));
    if d < 1 {
        1
    } else {
        d
    }
}

/// The constant batch size: the least `s >= 1` such that `n s * mean >= target`,
/// for the clamped mean call time.
pub open spec fn flat_size(target: int, n: int, time: int, iters: int) -> int {
    let s = ceil_div(target_work(target, iters), mean_ps_num(time, iters) * n);
    if s < 1 {
        1
    } else {
        s
    }
}

/// How the batch sizes of a run progress.
#[derive(Debug, Clone, Copy, PartialEq, Eq, Structural)]
pub enum SamplingMode {
    /// The k-th batch (from one) holds `k * sampling_factor` calls.
    Linear { sampling_factor: usize },
    /// Every batch holds `sample_size` calls.
    Flat { sample_size: usize },
}

/// The mode chosen for `n` samples aiming at `target` nanoseconds in total,
/// after a warmup that made `iters` calls in `time` nanoseconds.
pub open spec fn decided_mode(target: int, n: int, time: int, iters: int) -> SamplingMode {
    if linear_factor(target, n, time, iters) == 1 {
        SamplingMode::Flat { sample_size: saturate(flat_size(target, n, time, iters)) }
    } else {
        SamplingMode::Linear { sampling_factor: saturate(linear_factor(target, n, time, iters)) }
    }
}

/// Size of the k-th batch, counted from one.
pub open spec fn size_at(mode: SamplingMode, k: int) -> int {
    match mode {
        SamplingMode::Linear { sampling_factor } => k * sampling_factor,
        SamplingMode::Flat { sample_size } => sample_size as int,
    }
}

/// Number of calls in the first `n` batches together.
pub open spec fn batch_total(mode: SamplingMode, n: nat) -> int
    decreases n,
{
    if n == 0 {
        0
    } else {
        batch_total(mode, (n - 1) as nat) + size_at(mode, n as int)
    }
}

/// The step by which the batch total can move: a whole ramp for a linear
/// mode, one call per batch for a flat one.
pub open spec fn rounding_unit(mode: SamplingMode, n: int) -> int {
    match mode {
        SamplingMode::Linear { .. } => triangle(n),
        SamplingMode::Flat { .. } => n,
    }
}

proof fn lemma_ceil_div_bounds(a: int, b: int)
    requires
        a >= 0,
        b > 0,
    ensures
        ceil_div(a, b) >= 0,
        ceil_div(a, b) * b >= a,
        (ceil_div(a, b) - 1) * b < a || ceil_div(a, b) == 0,
        a == 0 ==> ceil_div(a, b) == 0,
        ceil_div(a, b) <= a,
{
    let c = ceil_div(a, b);
    assert(c * b >= a && c * b < a + b) by (nonlinear_arith)
        requires
            c == (a + b - 1) / b,
            a >= 0,
            b > 0,
    ;
    assert((c - 1) * b == c * b - b) by (nonlinear_arith);
    if a == 0 {
        assert((b - 1) / b == 0) by (nonlinear_arith)
            requires
                b > 0,
        ;
    }
    if a >= 1 {
        assert(c <= a) by (nonlinear_arith)
            requires
                c * b < a + b,
                b >= 1,
                a >= 1,
        ;
    }
}

proof fn lemma_ceil_div_exec(a: int, b: int)
    requires
        a >= 0,
        b > 0,
    ensures
        ceil_div(a, b) == a / b + (if a % b == 0 {
            0int
        } else {
            1int
        }),
{
    assert(ceil_div(a, b) == a / b + (if a % b == 0 {
        0int
    } else {
        1int
    })) by (nonlinear_arith)
        requires
            a >= 0,
            b > 0,
    ;
}

proof fn lemma_ceil_div_nested(a: int, t: int, m: int)
    requires
        a >= 0,
        t > 0,
        m > 0,
    ensures
        ceil_div(ceil_div(a, t), m) == ceil_div(a, t * m),
{
    let q = ceil_div(a, t);
    let x = ceil_div(q, m);
    let y = ceil_div(a, t * m);
    assert(t * m > 0) by (nonlinear_arith)
        requires
            t > 0,
            m > 0,
    ;
    lemma_ceil_div_bounds(a, t);
    lemma_ceil_div_bounds(q, m);
    lemma_ceil_div_bounds(a, t * m);
    // x * m * t >= q * t >= a, so y <= x.
    assert(x * (t * m) >= a) by (nonlinear_arith)
        requires
            x * m >= q,
            q * t >= a,
            t > 0,
    ;
    // y * m * t >= a, so y * m >= q, so x <= y.
    if q == 0 {
        assert(y * m >= 0) by (nonlinear_arith)
            requires
                y >= 0,
                m > 0,
        ;
    } else if y * m < q {
        assert((y * m) * t <= (q - 1) * t) by (nonlinear_arith)
            requires
                y * m <= q - 1,
                t > 0,
        ;
        assert(y * (t * m) == (y * m) * t) by (nonlinear_arith);
    }
    if x > y {
        assert((x - 1) * m >= q) by (nonlinear_arith)
            requires
                y * m >= q,
                x - 1 >= y,
                m > 0,
        ;
    }
    if y > x {
        assert((y - 1) * (t * m) >= a) by (nonlinear_arith)
            requires
                x * (t * m) >= a,
                y - 1 >= x,
                t * m > 0,
        ;
    }
}

proof fn lemma_ceil_div_scale(a: int, b: int, k: int)
    requires
        a >= 0,
        b > 0,
        k > 0,
    ensures
        ceil_div(k * a, k * b) == ceil_div(a, b),
{
    let c = ceil_div(a, b);
    assert(k * a >= 0 && k * b > 0) by (nonlinear_arith)
        requires
            a >= 0,
            b > 0,
            k > 0,
    ;
    lemma_ceil_div_bounds(a, b);
    lemma_ceil_div_bounds(k * a, k * b);
    let c2 = ceil_div(k * a, k * b);
    assert(c2 * b >= a) by (nonlinear_arith)
        requires
            c2 * (k * b) >= k * a,
            k > 0,
    ;
    assert((c2 - 1) * b < a || c2 == 0) by (nonlinear_arith)
        requires
            (c2 - 1) * (k * b) < k * a || c2 == 0,
            k > 0,
    ;
    if c2 < c {
        assert(false) by (nonlinear_arith)
            requires
                c2 <= c - 1,
                c2 >= 0,
                c2 * b >= a,
                (c - 1) * b < a || c == 0,
                b > 0,
        ;
    }
    if c < c2 {
        assert(false) by (nonlinear_arith)
            requires
                c <= c2 - 1,
                c >= 0,
                c * b >= a,
                (c2 - 1) * b < a || c2 == 0,
                b > 0,
        ;
    }
}

/// `a / b` rounded up.
fn ceil_div_u128(a: u128, b: u128) -> (r: u128)
    requires
        b > 0,
    ensures
        r == ceil_div(a as int, b as int),
{
    proof {
        lemma_ceil_div_exec(a as int, b as int);
        lemma_ceil_div_bounds(a as int, b as int);
    }
    if a % b == 0 {
        a / b
    } else {
        a / b + 1
    }
}

/// `x` saturated to the range of `usize`.
fn saturate_u128(x: u128) -> (r: usize)
    ensures
        r == saturate(x as int),
{
    if x > usize::MAX as u128 {
        usize::MAX
    } else {
        x as usize
    }
}

proof fn lemma_batch_total(mode: SamplingMode, n: nat)
    ensures
        batch_total(mode, n) == match mode {
            SamplingMode::Linear { sampling_factor } => sampling_factor * triangle(n as int),
            SamplingMode::Flat { sample_size } => sample_size * n,
        },
    decreases n,
{
    if n == 0 {
        assert(triangle(0) == 0);
    } else {
        lemma_batch_total(mode, (n - 1) as nat);
        let k = n as int;
        match mode {
            SamplingMode::Linear { sampling_factor } => {
                let f = sampling_factor as int;
                assert(k * (k + 1) == (k - 1) * k + 2 * k) by (nonlinear_arith);
                assert(triangle(k) == triangle(k - 1) + k);
                assert(f * triangle(k - 1) + k * f == f * triangle(k)) by (nonlinear_arith)
                    requires
                        triangle(k) == triangle(k - 1) + k,
                ;
            },
            SamplingMode::Flat { sample_size } => {
                let s = sample_size as int;
                assert(s * (k - 1) + s == s * k) by (nonlinear_arith);
            },
        }
    }
}

/// The batches of the chosen mode, times the mean call time, reach the
/// target, and would fall short of it with one rounding unit fewer calls:
/// `total * mean >= target` and `(total - unit) * mean < target`, unless
/// the total is a single unit. Both sides are over the clamped mean call
/// time, `mean_ps_num / iters` picoseconds (at least one), and the target in
/// picoseconds. Stated where the chosen factor fits in `usize`.
pub proof fn lemma_decided_mode_meets_target(target: u64, n: usize, time: u64, iters: u64)
    requires
        n >= 1,
        linear_factor(target as int, n as int, time as int, iters as int) <= usize::MAX,
    ensures
        ({
            let mode = decided_mode(target as int, n as int, time as int, iters as int);
            let total = batch_total(mode, n as nat);
            let unit = rounding_unit(mode, n as int);
            let t = mean_ps_num(time as int, iters as int);
            let work = target_work(target as int, iters as int);
            &&& total * t >= work
            &&& total == unit || (total - unit) * t < work
        }),
{
    let mode = decided_mode(target as int, n as int, time as int, iters as int);
    let t = mean_ps_num(time as int, iters as int);
    let work = target_work(target as int, iters as int);
    let nn = n as int;
    let tri = triangle(nn);
    assert(tri >= 1 && 2 * tri <= nn * (nn + 1)) by (nonlinear_arith)
        requires
            nn >= 1,
            tri == nn * (nn + 1) / 2,
    ;
    assert(work >= 0) by (nonlinear_arith)
        requires
            work == 1000 * target * at_least_one(iters as int),
            target >= 0,
            at_least_one(iters as int) >= 1,
    ;
    lemma_batch_total(mode, n as nat);
    let d = linear_factor(target as int, nn, time as int, iters as int);
    if d == 1 {
        let tn = t * nn;
        assert(tn > 0) by (nonlinear_arith)
            requires
                tn == t * nn,
                t >= 1,
                nn >= 1,
        ;
        lemma_ceil_div_bounds(work, tn);
        let tt = t * tri;
        assert(tt > 0) by (nonlinear_arith)
            requires
                tt == t * tri,
                t >= 1,
                tri >= 1,
        ;
        lemma_ceil_div_bounds(work, tt);
        let s = flat_size(target as int, nn, time as int, iters as int);
        // The ramp with factor one already reaches the target, so the flat
        // size is at most `n` and fits.
        let c = ceil_div(work, tt);
        assert(work <= tt) by (nonlinear_arith)
            requires
                0 <= c <= 1,
                c * tt >= work,
                tt > 0,
        ;
        if s >= 2 {
            assert(s <= nn) by (nonlinear_arith)
                requires
                    (s - 1) * tn < work,
                    work <= tt,
                    tt == t * tri,
                    tn == t * nn,
                    2 * tri <= nn * (nn + 1),
                    t >= 1,
                    nn >= 1,
            ;
        }
        assert(batch_total(mode, n as nat) == s * nn);
        assert(s * nn * t == s * tn) by (nonlinear_arith)
            requires
                tn == t * nn,
        ;
        assert((s * nn - nn) * t == (s - 1) * tn) by (nonlinear_arith)
            requires
                tn == t * nn,
        ;
        assert(mode == SamplingMode::Flat { sample_size: s as usize });
        assert(rounding_unit(mode, nn) == nn);
        assert(s * tn >= work);
        if s != 1 {
            assert(s == ceil_div(work, tn));
            assert((s - 1) * tn < work);
        }
    } else {
        let tt = t * tri;
        assert(tt > 0) by (nonlinear_arith)
            requires
                tt == t * tri,
                t >= 1,
                tri >= 1,
        ;
        lemma_ceil_div_bounds(work, tt);
        assert(d == ceil_div(work, tt));
        assert(mode == SamplingMode::Linear { sampling_factor: d as usize });
        assert(rounding_unit(mode, nn) == tri);
        assert(batch_total(mode, n as nat) == d * tri);
        assert(d * tri * t == d * tt) by (nonlinear_arith)
            requires
                tt == t * tri,
        ;
        assert((d * tri - tri) * t == (d - 1) * tt) by (nonlinear_arith)
            requires
                tt == t * tri,
        ;
    }
}

impl SamplingMode {
    /// Chooses how batch sizes progress so that the samples of a run take
    /// about `config.sample_time_ns` together, from a warmup that made
    /// `warmup_iters` calls in `warmup_ns` nanoseconds. The mean call time
    /// is raised to one picosecond when it is smaller, a zero warmup time
    /// included; a call count of zero is taken as one.
    pub fn decide_mode(config: &Config, warmup_ns: u64, warmup_iters: u64) -> (r: Self)
        requires
            config.wf(),
        ensures
            r == decided_mode(
                config.sample_time_ns as int,
                config.sample_count as int,
                warmup_ns as int,
                warmup_iters as int,
            ),
    {
        let iters: u128 = if warmup_iters == 0 {
            1
        } else {
            warmup_iters as u128
        };
        let target = config.sample_time_ns as u128;
        let n = config.sample_count as u128;
        assert(n * (n + 1) <= u64::MAX * (u64::MAX + 1)) by (nonlinear_arith)
            requires
                n <= u64::MAX,
        ;
        let tri = n * (n + 1) / 2;
        proof {
            assert(tri >= 1) by (nonlinear_arith)
                requires
                    n >= 1,
                    tri == n * (n + 1) / 2,
            ;
        }
        let ghost tw = target_work(target as int, warmup_iters as int);
        let ghost mean = mean_ps_num(warmup_ns as int, warmup_iters as int);
        // `per_time` is the target over the clamped mean, rounded up.
        let per_time: u128 = if warmup_ns as u128 * 1000 >= iters {
            let time = warmup_ns as u128;
            assert(target * iters <= u64::MAX * u64::MAX) by (nonlinear_arith)
                requires
                    target <= u64::MAX,
                    iters <= u64::MAX,
            ;
            let work = target * iters;
            proof {
                let (w, t) = (work as int, time as int);
                assert(tw == 1000 * w && mean == 1000 * t) by (nonlinear_arith)
                    requires
                        tw == 1000 * (target as int) * (iters as int),
                        w == target * iters,
                        mean == 1000 * t,
                ;
                assert(t >= 1);
                assert(t * tri > 0 && t * n > 0) by (nonlinear_arith)
                    requires
                        t >= 1,
                        tri >= 1,
                        n >= 1,
                ;
                lemma_ceil_div_nested(w, t, tri as int);
                lemma_ceil_div_nested(w, t, n as int);
                assert(1000 * (t * tri) == mean * tri && 1000 * (t * n) == mean * n) by (
                nonlinear_arith)
                    requires
                        mean == 1000 * t,
                ;
                lemma_ceil_div_scale(w, t * tri, 1000);
                lemma_ceil_div_scale(w, t * n, 1000);
            }
            ceil_div_u128(work, time)
        } else {
            proof {
                let (x, ii) = (1000 * target as int, iters as int);
                assert(tw == ii * x && mean == ii) by (nonlinear_arith)
                    requires
                        tw == 1000 * (target as int) * ii,
                        x == 1000 * target,
                        mean == ii,
                ;
                lemma_ceil_div_scale(x, tri as int, ii);
                lemma_ceil_div_scale(x, n as int, ii);
                lemma_ceil_div_bounds(x, 1);
                assert(ceil_div(x, 1) == x);
                lemma_ceil_div_nested(x, 1, tri as int);
                lemma_ceil_div_nested(x, 1, n as int);
            }
            target * 1000
        };
        proof {
            assert(ceil_div(per_time as int, tri as int) == ceil_div(tw, mean * tri));
            assert(ceil_div(per_time as int, n as int) == ceil_div(tw, mean * n));
        }
        let d = ceil_div_u128(per_time, tri);
        let factor = if d < 1 {
            1
        } else {
            d
        };
        if factor == 1 {
            let s = ceil_div_u128(per_time, n);
            let size = if s < 1 {
                1
            } else {
                s
            };
            SamplingMode::Flat { sample_size: saturate_u128(size) }
        } else {
            SamplingMode::Linear { sampling_factor: saturate_u128(factor) }
        }
    }

    /// The batch sizes of a run of `config.sample_count` samples: `size` for
    /// each of a flat mode; `k * factor` for the k-th (from one) of a linear
    /// mode, which rise strictly when the factor is positive.
    pub fn sample_sizes(&self, config: &Config) -> (r: Vec<usize>)
        requires
            *self matches SamplingMode::Linear { sampling_factor } ==> config.sample_count
                * sampling_factor <= usize::MAX,
        ensures
            r@.len() == config.sample_count,
            forall|k: int| 0 <= k < r@.len() ==> r@[k] == size_at(*self, k + 1),
            *self matches SamplingMode::Flat { sample_size } ==> forall|k: int|
                0 <= k < r@.len() ==> r@[k] == sample_size,
            *self matches SamplingMode::Linear { sampling_factor } ==> forall|k: int|
                0 <= k < r@.len() ==> r@[k] == (k + 1) * sampling_factor,
            *self matches SamplingMode::Linear { sampling_factor } && sampling_factor > 0
                ==> forall|i: int, j: int| 0 <= i < j < r@.len() ==> r@[i] < r@[j],
    {
        let n = config.sample_count;
        let mut sizes: Vec<usize> = Vec::with_capacity(n);
        let mut k: usize = 0;
        while k < n
            invariant
                k <= n,
                n == config.sample_count,
                sizes@.len() == k,
                forall|i: int| 0 <= i < k ==> sizes@[i] == size_at(*self, i + 1),
                *self matches SamplingMode::Linear { sampling_factor } ==> n * sampling_factor
                    <= usize::MAX,
            decreases n - k,
        {
            let size = match self {
                SamplingMode::Linear { sampling_factor } => {
                    assert((k + 1) * *sampling_factor <= n * *sampling_factor) by (nonlinear_arith)
                        requires
                            k + 1 <= n,
                    ;
                    (k + 1) * *sampling_factor
                },
                SamplingMode::Flat { sample_size } => *sample_size,
            };
            sizes.push(size);
            k = k + 1;
        }
        proof {
            if let SamplingMode::Linear { sampling_factor } = *self {
                if sampling_factor > 0 {
                    assert forall|i: int, j: int| 0 <= i < j < sizes@.len() implies sizes@[i]
                        < sizes@[j] by {
                        let f = sampling_factor as int;
                        assert((i + 1) * f < (j + 1) * f) by (nonlinear_arith)
                            requires
                                i < j,
                                f > 0,
                        ;
                    }
                }
            }
        }
        sizes
    }
}

} // verus!
