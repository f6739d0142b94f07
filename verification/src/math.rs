//! Stateless scalar analysis utilities over fixed-point amplitudes.
//!
//! A sample value `n` stands for the normalized amplitude `n / 2^31`.
//! Vertical bounds are rationals `(numerator, denominator)`.

use vstd::prelude::*;
use vstd::arithmetic::div_mod::lemma_fundamental_div_mod_converse_div;
use vstd::arithmetic::mul::{lemma_mul_is_distributive_add_other_way, lemma_mul_upper_bound};

verus! {

/// One full scale unit: the denominator of the fixed-point amplitude format.
pub const FULL_SCALE: u64 = 0x8000_0000;

/// Clamp `v` into `[lo, hi]` (mathematical model; meaningful when `lo <= hi`).
pub open spec fn clamped(v: int, lo: int, hi: int) -> int {
    if v < lo {
        lo
    } else if v > hi {
        hi
    } else {
        v
    }
}

/// Standard clamp on fixed-point amplitudes.
pub fn clip(value: i64, min: i64, max: i64) -> (r: i64)
    requires
        min <= max,
    ensures
        r == clamped(value as int, min as int, max as int),
{
    if value < min {
        min
    } else if value > max {
        max
    } else {
        value
    }
}

/// The symmetric vertical bound derived from an observed amplitude extent,
/// as a rational `(numerator, denominator)`: the display range is
/// `[-num/den, +num/den]`.
///
/// With `m` the larger magnitude of the two inputs: amplitudes quieter than
/// `10^-6` of full scale are floored to a hundredth of full scale, anything
/// louder is inflated by five percent of headroom.
pub open spec fn autoscale_spec(min_n: int, max_n: int) -> (int, int) {
    let m = vstd::math::max(vstd::math::abs(min_n) as int, vstd::math::abs(max_n) as int);
    if m * 1000000 < FULL_SCALE {
        (1, 100)
    } else {
        (21 * m, 20 * FULL_SCALE)
    }
}

/// Derive a symmetric vertical display range `[-num/den, +num/den]` from an
/// observed `(min, max)` amplitude pair.
pub fn autoscale_symmetric(min_n: i64, max_n: i64) -> (r: (u64, u64))
    requires
        -(FULL_SCALE as int) <= min_n <= FULL_SCALE,
        -(FULL_SCALE as int) <= max_n <= FULL_SCALE,
    ensures
        (r.0 as int, r.1 as int) == autoscale_spec(min_n as int, max_n as int),
{
    let abs_min: u64 = if min_n < 0 {
        (-min_n) as u64
    } else {
        min_n as u64
    };
    let abs_max: u64 = if max_n < 0 {
        (-max_n) as u64
    } else {
        max_n as u64
    };
    let m: u64 = if abs_min >= abs_max {
        abs_min
    } else {
        abs_max
    };
    if m * 1000000 < FULL_SCALE {
        (1, 100)
    } else {
        (21 * m, 20 * FULL_SCALE)
    }
}

/// The largest magnitude in a sequence of samples; zero for an empty one.
pub open spec fn peak_spec(s: Seq<i32>) -> int
    decreases s.len(),
{
    if s.len() == 0 {
        0
    } else {
        vstd::math::max(peak_spec(s.drop_last()), vstd::math::abs(s.last() as int) as int)
    }
}

/// A peak is the magnitude of some sample, so it never exceeds full scale.
pub proof fn lemma_peak_range(s: Seq<i32>)
    ensures
        0 <= peak_spec(s) <= FULL_SCALE,
    decreases s.len(),
{
    if s.len() > 0 {
        lemma_peak_range(s.drop_last());
    }
}

/// The largest magnitude found in `samples[lo..hi]`.
fn peak_range(samples: &[i32], lo: usize, hi: usize) -> (r: u32)
    requires
        lo <= hi <= samples@.len(),
    ensures
        r == peak_spec(samples@.subrange(lo as int, hi as int)),
{
    let mut acc: u32 = 0;
    assert(samples@.subrange(lo as int, lo as int) =~= Seq::<i32>::empty());
    let mut i = lo;
    while i < hi
        invariant
            lo <= i <= hi <= samples@.len(),
            acc == peak_spec(samples@.subrange(lo as int, i as int)),
        decreases hi - i,
    {
        let v = samples[i];
        proof {
            assert(samples@.subrange(lo as int, i + 1).drop_last() =~= samples@.subrange(
                lo as int,
                i as int,
            ));
            assert(samples@.subrange(lo as int, i + 1).last() == samples@[i as int]);
        }
        let m: u32 = if v < 0 {
            (-(v as i64)) as u32
        } else {
            v as u32
        };
        if m > acc {
            acc = m;
        }
        i = i + 1;
    }
    acc
}

/// The largest magnitude found in `samples`; zero for an empty input.
pub fn peak(samples: &[i32]) -> (r: u32)
    ensures
        r == peak_spec(samples@),
{
    let n = samples.len();
    let r = peak_range(samples, 0, n);
    proof {
        assert(samples@.subrange(0, n as int) =~= samples@);
    }
    r
}

/// Number of consecutive windows of `window` samples needed to cover `len`
/// samples (the last window may be shorter); zero windows when `window` is
/// zero.
pub open spec fn chunk_count(len: int, window: int) -> int {
    if window <= 0 {
        0
    } else {
        (len + window - 1) / window
    }
}

/// The peak of each consecutive window of `window` samples (the last window
/// may be shorter); empty when `window` is zero.
pub fn windowed_peak(samples: &[i32], window: usize) -> (r: Vec<u32>)
    ensures
        r@.len() == chunk_count(samples@.len() as int, window as int),
        forall|k: int|
            0 <= k < r@.len() ==> r@[k] == peak_spec(
                samples@.subrange(
                    k * window,
                    vstd::math::min((k + 1) * window, samples@.len() as int),
                ),
            ),
{
    let mut out: Vec<u32> = Vec::new();
    if window == 0 {
        return out;
    }
    let n = samples.len();
    let mut start: usize = 0;
    assert(out@.len() * window == 0) by {
        vstd::arithmetic::mul::lemma_mul_by_zero_is_zero(window as int);
    }
    while start < n
        invariant
            window >= 1,
            n == samples@.len(),
            start == vstd::math::min(out@.len() * window, n as int),
            out@.len() >= 1 ==> (out@.len() - 1) * window < n,
            forall|k: int|
                0 <= k < out@.len() ==> out@[k] == peak_spec(
                    samples@.subrange(
                        k * window,
                        vstd::math::min((k + 1) * window, samples@.len() as int),
                    ),
                ),
        decreases n - start,
    {
        let ghost k = out@.len() as int;
        proof {
            lemma_mul_is_distributive_add_other_way(window as int, k, 1);
            assert((k + 1) * window == k * window + window);
            assert(start == k * window);
        }
        let end = if n - start < window {
            n
        } else {
            start + window
        };
        let p = peak_range(samples, start, end);
        out.push(p);
        start = end;
    }
    proof {
        let w = window as int;
        let c = out@.len() as int;
        if c == 0 {
            assert(n == 0);
            lemma_fundamental_div_mod_converse_div(n + w - 1, w, 0, w - 1);
        } else {
            lemma_mul_is_distributive_add_other_way(w, c - 1, 1);
            assert(c * w == (c - 1) * w + w);
            lemma_fundamental_div_mod_converse_div(n + w - 1, w, c, n + w - 1 - c * w);
        }
    }
    out
}

/// The rescaled sample `v * target / current`, truncated toward zero and
/// saturated into the 32-bit sample range.
pub open spec fn rescaled(v: int, target: int, current: int) -> int {
    let q = if v >= 0 {
        (v * target) / current
    } else {
        -(((-v) * target) / current)
    };
    if q > i32::MAX {
        i32::MAX as int
    } else if q < i32::MIN {
        i32::MIN as int
    } else {
        q
    }
}

/// Scale every sample in place so that the loudest reaches `target_peak`
/// (fixed-point, like the samples).  Returns the applied gain as the
/// rational `(target_peak, current_peak)`, or `None` without touching the
/// samples when the input is empty, the target is zero, or the input is
/// silent.
pub fn normalize_to_peak(samples: &mut Vec<i32>, target_peak: u32) -> (r: Option<(u32, u32)>)
    ensures
        final(samples)@.len() == old(samples)@.len(),
        (old(samples)@.len() == 0 || target_peak == 0 || peak_spec(old(samples)@) == 0) ==> {
            &&& r is None
            &&& final(samples)@ == old(samples)@
        },
        (old(samples)@.len() > 0 && target_peak > 0 && peak_spec(old(samples)@) > 0) ==> {
            &&& r == Option::<(u32, u32)>::Some((target_peak, peak_spec(old(samples)@) as u32))
            &&& forall|k: int|
                0 <= k < old(samples)@.len() ==> final(samples)@[k] == rescaled(
                    old(samples)@[k] as int,
                    target_peak as int,
                    peak_spec(old(samples)@),
                )
        },
{
    if samples.len() == 0 || target_peak == 0 {
        return None;
    }
    let n = samples.len();
    let current = peak_range(samples.as_slice(), 0, n);
    proof {
        assert(samples@.subrange(0, n as int) =~= samples@);
        lemma_peak_range(samples@);
    }
    if current == 0 {
        return None;
    }
    let mut i: usize = 0;
    while i < n
        invariant
            n == samples@.len() == old(samples)@.len(),
            i <= n,
            current == peak_spec(old(samples)@),
            current >= 1,
            target_peak >= 1,
            forall|k: int|
                0 <= k < i ==> samples@[k] == rescaled(
                    old(samples)@[k] as int,
                    target_peak as int,
                    current as int,
                ),
            forall|k: int| i <= k < n ==> samples@[k] == old(samples)@[k],
        decreases n - i,
    {
        let v = samples[i];
        let w: i32;
        if v >= 0 {
            proof {
                lemma_mul_upper_bound(v as int, 0x7fff_ffffint, target_peak as int, 0xffff_ffffint);
            }
            let q = ((v as u64) * (target_peak as u64)) / (current as u64);
            w = if q > (i32::MAX as u64) {
                i32::MAX
            } else {
                q as i32
            };
        } else {
            let mag = (-(v as i64)) as u64;
            proof {
                lemma_mul_upper_bound(mag as int, 0x8000_0000int, target_peak as int, 0xffff_ffffint);
            }
            let q = (mag * (target_peak as u64)) / (current as u64);
            w = if q >= 0x8000_0000u64 {
                i32::MIN
            } else {
                -(q as i32)
            };
        }
        samples.set(i, w);
        i = i + 1;
    }
    Some((target_peak, current))
}

/// The symmetric bound does not depend on which side of zero the extent lies:
/// flipping the sign of both inputs (and swapping them, so that the pair stays
/// ordered) leaves the derived range unchanged.
pub proof fn lemma_autoscale_sign_flip(min_n: int, max_n: int)
    ensures
        autoscale_spec(min_n, max_n) == autoscale_spec(-max_n, -min_n),
{
}

} // verus!
