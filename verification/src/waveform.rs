//! Downsampling engine: collapse a sample range into per-column
//! (min, max) amplitude extents.

use vstd::prelude::*;
use vstd::arithmetic::div_mod::{lemma_div_is_ordered, lemma_div_multiples_vanish, lemma_div_of0,
    lemma_div_pos_is_pos};
use vstd::arithmetic::mul::{lemma_mul_inequality, lemma_mul_is_commutative, lemma_mul_nonnegative,
    lemma_mul_upper_bound};

verus! {

/// The amplitude extent of one display column's slice of samples.
/// `has_data == false` means the slice was empty and the column must be
/// rendered blank, not as zero amplitude.
#[derive(Clone, Copy, Debug, PartialEq, Eq, Structural)]
pub struct MinMax {
    pub min: i32,
    pub max: i32,
    pub has_data: bool,
}

/// The bucket a column gets when its slice holds no samples.
pub open spec fn empty_bucket() -> MinMax {
    MinMax { min: 0, max: 0, has_data: false }
}

/// Smallest value of a non-empty sequence of samples.
pub open spec fn seq_min(s: Seq<i32>) -> int
    recommends
        s.len() > 0,
    decreases s.len(),
{
    if s.len() <= 1 {
        s[0] as int
    } else {
        vstd::math::min(seq_min(s.drop_last()), s.last() as int)
    }
}

/// Largest value of a non-empty sequence of samples.
pub open spec fn seq_max(s: Seq<i32>) -> int
    recommends
        s.len() > 0,
    decreases s.len(),
{
    if s.len() <= 1 {
        s[0] as int
    } else {
        vstd::math::max(seq_max(s.drop_last()), s.last() as int)
    }
}

/// The extent of a non-empty sample sequence is an ordered pair of sample
/// values, so it always fits the sample type.
pub proof fn lemma_seq_extent_range(s: Seq<i32>)
    requires
        s.len() > 0,
    ensures
        i32::MIN <= seq_min(s) <= seq_max(s) <= i32::MAX,
    decreases s.len(),
{
    if s.len() > 1 {
        lemma_seq_extent_range(s.drop_last());
    }
}

/// The end of a requested range, clamped to the sequence length.
pub open spec fn clamped_end(end: int, n: int) -> int {
    vstd::math::min(end, n)
}

/// The (min, max) extent of the requested range after clamping its end to the
/// sequence length; `None` when the clamped range is empty.
pub open spec fn range_spec(s: Seq<i32>, start: int, end: int) -> Option<(i32, i32)> {
    let e = clamped_end(end, s.len() as int);
    if start >= e {
        None
    } else {
        Some(
            (
                seq_min(s.subrange(start, e)) as i32,
                seq_max(s.subrange(start, e)) as i32,
            ),
        )
    }
}

/// Left boundary of bucket `i` when `len` samples starting at `start` are
/// split into `buckets` buckets; the right boundary of bucket `i` is the left
/// boundary of bucket `i + 1`.
pub open spec fn bucket_bound(start: int, len: int, buckets: int, i: int) -> int {
    start + (len * i) / buckets
}

/// The bucket of column `i` for the request `(start, end)` over samples `s`.
pub open spec fn bucket_spec(s: Seq<i32>, start: int, end: int, buckets: int, i: int) -> MinMax {
    let e = clamped_end(end, s.len() as int);
    if start >= e {
        empty_bucket()
    } else {
        let lo = bucket_bound(start, e - start, buckets, i);
        let hi = bucket_bound(start, e - start, buckets, i + 1);
        if lo >= hi {
            empty_bucket()
        } else {
            MinMax {
                min: seq_min(s.subrange(lo, hi)) as i32,
                max: seq_max(s.subrange(lo, hi)) as i32,
                has_data: true,
            }
        }
    }
}

/// Bucket boundaries are monotone and stay within `[start, start + len]`.
pub proof fn lemma_bucket_bounds(start: int, len: int, buckets: int, i: int, j: int)
    requires
        0 < buckets,
        0 <= len,
        0 <= i <= j <= buckets,
    ensures
        start <= bucket_bound(start, len, buckets, i) <= bucket_bound(start, len, buckets, j)
            <= start + len,
{
    lemma_mul_nonnegative(len, i);
    lemma_div_pos_is_pos(len * i, buckets);
    lemma_mul_inequality(i, j, len);
    lemma_mul_is_commutative(len, i);
    lemma_mul_is_commutative(len, j);
    lemma_div_is_ordered(len * i, len * j, buckets);
    lemma_mul_inequality(j, buckets, len);
    lemma_mul_is_commutative(len, buckets);
    lemma_div_is_ordered(len * j, len * buckets, buckets);
    lemma_div_multiples_vanish(len, buckets);
    assert(buckets * len == len * buckets);
}

/// For any positive bucket count the boundary formula exactly partitions
/// `[start, start + len)`: the first boundary is `start`, the last boundary is
/// `start + len`, and boundaries are monotone.  Since the slice of bucket `i`
/// is `[bound(i), bound(i + 1))`, consecutive buckets are contiguous and
/// non-overlapping, and together they cover the range with no gap.
pub proof fn lemma_bucket_partition(start: int, len: int, buckets: int)
    requires
        0 < buckets,
        0 <= len,
    ensures
        bucket_bound(start, len, buckets, 0) == start,
        bucket_bound(start, len, buckets, buckets) == start + len,
        forall|i: int, j: int|
            0 <= i <= j <= buckets ==> bucket_bound(start, len, buckets, i) <= bucket_bound(
                start,
                len,
                buckets,
                j,
            ),
{
    lemma_div_of0(buckets);
    assert(len * 0 == 0);
    lemma_div_multiples_vanish(len, buckets);
    assert(buckets * len == len * buckets) by {
        lemma_mul_is_commutative(len, buckets);
    }
    assert forall|i: int, j: int| 0 <= i <= j <= buckets implies bucket_bound(
        start,
        len,
        buckets,
        i,
    ) <= bucket_bound(start, len, buckets, j) by {
        lemma_bucket_bounds(start, len, buckets, i, j);
    }
}

/// Scan `samples[lo..hi]` once, returning its (min, max) extent.
fn scan_extent(samples: &[i32], lo: usize, hi: usize) -> (r: (i32, i32))
    requires
        lo < hi <= samples@.len(),
    ensures
        r.0 == seq_min(samples@.subrange(lo as int, hi as int)),
        r.1 == seq_max(samples@.subrange(lo as int, hi as int)),
{
    let mut mn = samples[lo];
    let mut mx = samples[lo];
    assert(samples@.subrange(lo as int, lo + 1) =~= seq![samples@[lo as int]]);
    let mut i = lo + 1;
    while i < hi
        invariant
            lo < i <= hi <= samples@.len(),
            mn == seq_min(samples@.subrange(lo as int, i as int)),
            mx == seq_max(samples@.subrange(lo as int, i as int)),
        decreases hi - i,
    {
        let v = samples[i];
        proof {
            let pre = samples@.subrange(lo as int, i as int);
            let post = samples@.subrange(lo as int, i + 1);
            assert(post.drop_last() =~= pre);
            assert(post.last() == samples@[i as int]);
            lemma_seq_extent_range(pre);
        }
        if v < mn {
            mn = v;
        }
        if v > mx {
            mx = v;
        }
        i = i + 1;
    }
    (mn, mx)
}

/// Reduce the requested sample range to its overall (min, max) extent, or
/// `None` when the range is empty or lies beyond the end of the samples.
pub fn range_min_max_i32(samples: &[i32], start: usize, end: usize) -> (r: Option<(i32, i32)>)
    ensures
        r == range_spec(samples@, start as int, end as int),
{
    let n = samples.len();
    let e = if end > n {
        n
    } else {
        end
    };
    if start >= e {
        return None;
    }
    let (mn, mx) = scan_extent(samples, start, e);
    proof {
        lemma_seq_extent_range(samples@.subrange(start as int, e as int));
    }
    Some((mn, mx))
}

/// Collapse the requested sample range into exactly `buckets` display columns.
///
/// Bucket `i` covers the slice `[bound(i), bound(i + 1))` of the clamped
/// range, so the buckets are contiguous, non-overlapping, and exactly cover
/// `[start, min(end, samples.len()))`; a bucket whose slice is empty (or an
/// entirely empty request) yields `has_data == false`.
#[verifier::loop_isolation(false)]
pub fn bucket_min_max_i32(samples: &[i32], start: usize, end: usize, buckets: usize) -> (out: Vec<
    MinMax,
>)
    ensures
        out@.len() == buckets,
        forall|i: int|
            0 <= i < buckets ==> out@[i] == bucket_spec(
                samples@,
                start as int,
                end as int,
                buckets as int,
                i,
            ),
{
    let mut out: Vec<MinMax> = Vec::new();
    if buckets == 0 {
        return out;
    }
    let n = samples.len();
    let e = if end > n {
        n
    } else {
        end
    };
    if start >= e {
        let mut b: usize = 0;
        while b < buckets
            invariant
                b <= buckets,
                out@.len() == b,
                forall|j: int| 0 <= j < b ==> out@[j] == empty_bucket(),
            decreases buckets - b,
        {
            out.push(MinMax { min: 0, max: 0, has_data: false });
            b = b + 1;
        }
        return out;
    }
    let len = e - start;
    let mut b: usize = 0;
    while b < buckets
        invariant
            b <= buckets,
            out@.len() == b,
            forall|j: int|
                0 <= j < b ==> out@[j] == bucket_spec(
                    samples@,
                    start as int,
                    end as int,
                    buckets as int,
                    j,
                ),
        decreases buckets - b,
    {
        proof {
            lemma_mul_upper_bound(
                len as int,
                0xffff_ffff_ffff_ffffint,
                b as int,
                0xffff_ffff_ffff_ffffint,
            );
            lemma_mul_upper_bound(
                len as int,
                0xffff_ffff_ffff_ffffint,
                b as int + 1,
                0x1_0000_0000_0000_0000int,
            );
            lemma_bucket_bounds(start as int, len as int, buckets as int, b as int, b as int + 1);
        }
        let lo_off = ((len as u128 * b as u128) / (buckets as u128)) as usize;
        let hi_off = ((len as u128 * (b as u128 + 1)) / (buckets as u128)) as usize;
        let lo = start + lo_off;
        let hi = start + hi_off;
        assert(lo == bucket_bound(start as int, len as int, buckets as int, b as int));
        assert(hi == bucket_bound(start as int, len as int, buckets as int, b as int + 1));
        if lo >= hi {
            out.push(MinMax { min: 0, max: 0, has_data: false });
        } else {
            let (mn, mx) = scan_extent(samples, lo, hi);
            proof {
                lemma_seq_extent_range(samples@.subrange(lo as int, hi as int));
            }
            out.push(MinMax { min: mn, max: mx, has_data: true });
        }
        b = b + 1;
    }
    out
}

} // verus!
