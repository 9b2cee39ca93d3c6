//! Synthesis of normalised one-dimensional Gaussian kernels in fixed point.
//!
//! A weight of `KERNEL_ONE` (2^32) stands for 1.0. The Gaussian factor
//! `exp(-t)` with `t = x^2 / (2 sigma^2)` is formed as `(1 - t/1024)^1024`,
//! by ten successive squarings in units of 1/65536. Every tap then gets one
//! unit, the rest of `KERNEL_ONE` is shared out in proportion to those
//! factors, and what rounding leaves over goes to the centre tap: the weights
//! are all positive and add up to exactly `KERNEL_ONE`.
use vstd::prelude::*;

verus! {

/// The fixed-point unit of kernel weights.
pub const KERNEL_ONE: u64 = 4_294_967_296;

/// Largest radius a positive `i32` sigma (in thousandths) gives.
pub const MAX_RADIUS: u64 = 6_442_451;

/// The kernel radius for a sigma in thousandths: `ceil(3 * sigma)`.
pub open spec fn radius_for(sigma: int) -> int {
    (3 * sigma + 999) / 1000
}

/// Fixed-point `1 - t/1024`, floored at zero, for `t = d^2 / (2 sigma^2)`
/// and sigma in thousandths.
pub open spec fn gauss_base(d: int, sigma: int) -> int {
    let drop = d * d * 32_000_000 / (sigma * sigma);
    if drop >= 65536 {
        0
    } else {
        65536 - drop
    }
}

/// `k` successive fixed-point squarings of `v`.
pub open spec fn square_steps(v: int, k: nat) -> int
    decreases k,
{
    if k == 0 {
        v
    } else {
        let u = square_steps(v, (k - 1) as nat);
        u * u / 65536
    }
}

/// Unnormalised weight of tap `i` of a kernel of radius `r`.
pub open spec fn raw_weight(r: int, sigma: int, i: int) -> int {
    let d = if i >= r {
        i - r
    } else {
        r - i
    };
    square_steps(gauss_base(d, sigma), 10)
}

/// Sum of the first `n` unnormalised weights.
pub open spec fn raw_sum(r: int, sigma: int, n: int) -> int
    decreases n,
{
    if n <= 0 {
        0
    } else {
        raw_sum(r, sigma, n - 1) + raw_weight(r, sigma, n - 1)
    }
}

/// Tap `i`: one unit, plus its share, rounded down, of the `KERNEL_ONE`
/// units left once every tap of a radius-`r` kernel has one.
pub open spec fn scaled_weight(r: int, sigma: int, i: int) -> int {
    1 + raw_weight(r, sigma, i) * (KERNEL_ONE - (2 * r + 1)) / raw_sum(r, sigma, 2 * r + 1)
}

pub open spec fn scaled_sum(r: int, sigma: int, n: int) -> int
    decreases n,
{
    if n <= 0 {
        0
    } else {
        scaled_sum(r, sigma, n - 1) + scaled_weight(r, sigma, n - 1)
    }
}

/// Final weight of tap `i`: its scaled weight, with what rounding left over
/// given to the centre tap.
pub open spec fn kernel_weight(r: int, sigma: int, i: int) -> int {
    if i == r {
        scaled_weight(r, sigma, i) + KERNEL_ONE - scaled_sum(r, sigma, 2 * r + 1)
    } else {
        scaled_weight(r, sigma, i)
    }
}

/// The Gaussian kernel for a sigma in thousandths.
///
/// It approximates the normalised `exp(-x^2 / (2 sigma^2))`: the factor
/// `(1 - t/1024)^1024`, floored at each of its ten squarings in units of
/// 1/65536, is about 1% below `exp(-t)` at the kernel's edge, and can reach
/// 0 there for small sigmas. Every tap still gets at least one unit of
/// `KERNEL_ONE`, so all weights are positive; they are symmetric and sum to
/// exactly `KERNEL_ONE`.
pub open spec fn gaussian_kernel_spec(sigma: int) -> Seq<u64> {
    let r = radius_for(sigma);
    Seq::new((2 * r + 1) as nat, |i: int| kernel_weight(r, sigma, i) as u64)
}

/// Sum of the first `n` entries of `s`.
pub open spec fn seq_sum(s: Seq<u64>, n: int) -> int
    decreases n,
{
    if n <= 0 {
        0
    } else {
        seq_sum(s, n - 1) + s[n - 1]
    }
}

pub open spec fn kernel_sum(s: Seq<u64>) -> int {
    seq_sum(s, s.len() as int)
}

proof fn lemma_square_steps_bounded(v: int, k: nat)
    requires
        0 <= v <= 65536,
    ensures
        0 <= square_steps(v, k) <= 65536,
        v == 65536 ==> square_steps(v, k) == 65536,
    decreases k,
{
    if k > 0 {
        lemma_square_steps_bounded(v, (k - 1) as nat);
        let u = square_steps(v, (k - 1) as nat);
        assert(0 <= u * u <= 65536 * 65536) by (nonlinear_arith)
            requires
                0 <= u <= 65536,
        ;
    }
}

proof fn lemma_seq_sum_update(s: Seq<u64>, n: int, j: int, v: u64)
    requires
        0 <= j < n <= s.len(),
    ensures
        seq_sum(s.update(j, v), n) == seq_sum(s, n) - s[j] + v,
    decreases n,
{
    if n - 1 > j {
        lemma_seq_sum_update(s, n - 1, j, v);
    } else {
        assert(seq_sum(s.update(j, v), n - 1) == seq_sum(s, n - 1)) by {
            lemma_seq_sum_prefix_unchanged(s, s.update(j, v), n - 1);
        }
    }
}

proof fn lemma_seq_sum_bounds_entry(s: Seq<u64>, n: int, j: int)
    requires
        0 <= j < n <= s.len(),
    ensures
        s[j] <= seq_sum(s, n),
    decreases n,
{
    lemma_seq_sum_nonneg(s, n - 1);
    if j < n - 1 {
        lemma_seq_sum_bounds_entry(s, n - 1, j);
    }
}

proof fn lemma_seq_sum_nonneg(s: Seq<u64>, n: int)
    requires
        n <= s.len(),
    ensures
        seq_sum(s, n) >= 0,
    decreases n,
{
    if n > 0 {
        lemma_seq_sum_nonneg(s, n - 1);
    }
}

proof fn lemma_seq_sum_prefix_unchanged(a: Seq<u64>, b: Seq<u64>, n: int)
    requires
        0 <= n <= a.len(),
        n <= b.len(),
        forall|i: int| 0 <= i < n ==> a[i] == b[i],
    ensures
        seq_sum(a, n) == seq_sum(b, n),
    decreases n,
{
    if n > 0 {
        lemma_seq_sum_prefix_unchanged(a, b, n - 1);
    }
}

/// Fixed-point Gaussian factor for distance `d` from the centre.
fn gauss_weight(d: u64, sigma: u64) -> (w: u64)
    requires
        0 < sigma <= i32::MAX,
        d <= MAX_RADIUS,
    ensures
        w as int == square_steps(gauss_base(d as int, sigma as int), 10),
        w <= 65536,
{
    let d2 = d as u128;
    let s2 = sigma as u128;
    assert(d2 * d2 * 32_000_000 <= 6_442_451 * 6_442_451 * 32_000_000) by (nonlinear_arith)
        requires
            d2 <= 6_442_451,
    ;
    assert(0 < s2 * s2 <= 0x8000_0000 * 0x8000_0000) by (nonlinear_arith)
        requires
            0 < s2 <= 0x8000_0000,
    ;
    let drop: u128 = d2 * d2 * 32_000_000 / (s2 * s2);
    let mut v: u64 = if drop >= 65536 {
        0
    } else {
        (65536 - drop) as u64
    };
    let mut k: u64 = 0;
    while k < 10
        invariant
            k <= 10,
            v as int == square_steps(gauss_base(d as int, sigma as int), k as nat),
            v <= 65536,
        decreases 10 - k,
    {
        assert(v * v <= 65536 * 65536) by (nonlinear_arith)
            requires
                v <= 65536,
        ;
        v = v * v / 65536;
        k = k + 1;
    }
    v
}

/// Builds the normalised Gaussian kernel for `sigma` (in thousandths): its
/// length is `2r + 1` with `r = ceil(3 sigma)`, and its weights add up to
/// exactly `KERNEL_ONE`.
pub fn create_gaussian_kernel(sigma: i32) -> (kernel: Vec<u64>)
    requires
        0 < sigma,
    ensures
        kernel@ == gaussian_kernel_spec(sigma as int),
        kernel@.len() == 2 * radius_for(sigma as int) + 1,
        kernel_sum(kernel@) == KERNEL_ONE,
        forall|i: int| 0 <= i < kernel@.len() ==> 1 <= #[trigger] kernel@[i] <= KERNEL_ONE,
{
    let s = sigma as u64;
    let r: u64 = (3 * s + 999) / 1000;
    let size: u64 = 2 * r + 1;
    let ghost ri = r as int;
    let ghost si = s as int;
    let mut raw: Vec<u64> = Vec::with_capacity(size as usize);
    let mut total: u64 = 0;
    let mut i: u64 = 0;
    while i < size
        invariant
            r == radius_for(si),
            ri == r,
            si == s,
            0 < s <= i32::MAX,
            size == 2 * r + 1,
            r <= MAX_RADIUS,
            i <= size,
            raw@.len() == i,
            forall|j: int| 0 <= j < i ==> raw@[j] == raw_weight(ri, si, j),
            forall|j: int| 0 <= j < i ==> raw@[j] <= 65536,
            total == raw_sum(ri, si, i as int),
            total <= i * 65536,
            i > r ==> total >= 65536,
        decreases size - i,
    {
        let d = if i >= r {
            i - r
        } else {
            r - i
        };
        let w = gauss_weight(d, s);
        if i == r {
            proof {
                assert(0int * 0 * 32_000_000 / (si * si) == 0) by (nonlinear_arith)
                    requires
                        si > 0,
                ;
                assert(gauss_base(0, si) == 65536);
                lemma_square_steps_bounded(65536, 10);
            }
        }
        raw.push(w);
        total = total + w;
        i = i + 1;
    }
    let pool: u64 = KERNEL_ONE - size;
    let mut kernel: Vec<u64> = Vec::with_capacity(size as usize);
    let mut scaled_total: u64 = 0;
    let mut i: u64 = 0;
    while i < size
        invariant
            r == radius_for(si),
            ri == r,
            si == s,
            size == 2 * r + 1,
            r <= MAX_RADIUS,
            pool == KERNEL_ONE - size,
            raw@.len() == size,
            forall|j: int| 0 <= j < size ==> raw@[j] == raw_weight(ri, si, j),
            forall|j: int| 0 <= j < size ==> raw@[j] <= 65536,
            total == raw_sum(ri, si, size as int),
            65536 <= total <= size * 65536,
            i <= size,
            kernel@.len() == i,
            forall|j: int| 0 <= j < i ==> kernel@[j] == scaled_weight(ri, si, j),
            forall|j: int| 0 <= j < i ==> 1 <= #[trigger] kernel@[j] <= pool + 1,
            scaled_total == scaled_sum(ri, si, i as int),
            scaled_total == seq_sum(kernel@, i as int),
            (scaled_total - i) * total <= pool * raw_sum(ri, si, i as int),
            scaled_total <= i * (pool + 1),
        decreases size - i,
    {
        let a = raw[i as usize];
        assert(a * pool <= 65536 * pool) by (nonlinear_arith)
            requires
                a <= 65536,
        ;
        let q = a * pool / total;
        assert(q * total <= a * pool && q <= pool) by (nonlinear_arith)
            requires
                q as int == (a as int) * (pool as int) / (total as int),
                total >= 65536,
                a <= 65536,
        ;
        assert((scaled_total + q + 1 - (i + 1)) * total <= pool * (raw_sum(ri, si, i as int) + a))
            by (nonlinear_arith)
            requires
                (scaled_total - i) * total <= pool * raw_sum(ri, si, i as int),
                q * total <= a * pool,
        ;
        assert(scaled_total + q + 1 <= (i + 1) * (pool + 1) <= 12_884_903 * 4_294_967_296)
            by (nonlinear_arith)
            requires
                scaled_total <= i * (pool + 1),
                q <= pool,
                i + 1 <= 12_884_903,
                pool + 1 <= 4_294_967_296,
        ;
        let wgt = q + 1;
        proof {
            lemma_seq_sum_prefix_unchanged(kernel@, kernel@.push(wgt), i as int);
        }
        kernel.push(wgt);
        scaled_total = scaled_total + wgt;
        i = i + 1;
    }
    assert(scaled_total - size <= pool) by (nonlinear_arith)
        requires
            (scaled_total - size) * total <= pool * total,
            total >= 65536,
    ;
    let centre = kernel[r as usize] + (KERNEL_ONE - scaled_total);
    proof {
        lemma_seq_sum_update(kernel@, size as int, r as int, centre);
    }
    kernel.set(r as usize, centre);
    proof {
        assert forall|j: int| 0 <= j < kernel@.len() implies 1 <= #[trigger] kernel@[j] <= KERNEL_ONE by {
            lemma_seq_sum_bounds_entry(kernel@, size as int, j);
        }
    }
    assert(kernel@ =~= gaussian_kernel_spec(sigma as int));
    kernel
}

} // verus!
