//! Real-time loudness bars.
//!
//! While recording, normalized samples accumulate in a bounded window;
//! once the window is full, it is split into nine chunks and each chunk's
//! root-mean-square level is computed, amplified by a fixed gain and
//! clamped to full scale. Samples are Q1.31 fixed-point values and the
//! emitted bars are Q1.31 magnitudes: `0x80000000` stands for 1.0.

use vstd::arithmetic::div_mod::lemma_div_is_ordered;
use vstd::arithmetic::div_mod::lemma_div_multiples_vanish;
use vstd::arithmetic::div_mod::lemma_div_pos_is_pos;
use vstd::arithmetic::div_mod::lemma_fundamental_div_mod;
use vstd::arithmetic::div_mod::lemma_mod_division_less_than_divisor;
use vstd::prelude::*;

verus! {

/// Number of loudness bars per emission.
pub const NUM_BARS: usize = 9;

/// Samples accumulated before one emission.
pub const LEVEL_BUFFER_SIZE: usize = 512;

/// The bar value standing for 1.0.
pub const LEVEL_FULL_SCALE: u32 = 0x80000000;

/// Fixed gain applied to each root-mean-square value.
pub const AMPLITUDE_MULTIPLIER: u32 = 8;

/// Floor of the square root of `x` (zero for negative arguments).
pub open spec fn isqrt_spec(x: int) -> int
    decreases x,
{
    if x <= 0 {
        0
    } else {
        let p = isqrt_spec(x - 1);
        if (p + 1) * (p + 1) <= x {
            p + 1
        } else {
            p
        }
    }
}

/// The floor square root is nonnegative and brackets its argument.
pub proof fn lemma_isqrt_bounds(x: int)
    requires
        x >= 0,
    ensures
        isqrt_spec(x) >= 0,
        isqrt_spec(x) * isqrt_spec(x) <= x,
        x < (isqrt_spec(x) + 1) * (isqrt_spec(x) + 1),
    decreases x,
{
    if x > 0 {
        lemma_isqrt_bounds(x - 1);
        let p = isqrt_spec(x - 1);
        assert(p * p <= x - 1);
        assert(x - 1 < (p + 1) * (p + 1));
        if (p + 1) * (p + 1) <= x {
            assert(isqrt_spec(x) == p + 1);
            assert(x == (p + 1) * (p + 1));
            assert(x < (p + 2) * (p + 2)) by (nonlinear_arith)
                requires
                    x == (p + 1) * (p + 1),
                    p >= 0,
            {
            }
        } else {
            assert(isqrt_spec(x) == p);
        }
    }
}

/// Any nonnegative value bracketed the same way is the floor square root.
pub proof fn lemma_isqrt_unique(x: int, r: int)
    requires
        x >= 0,
        r >= 0,
        r * r <= x,
        x < (r + 1) * (r + 1),
    ensures
        r == isqrt_spec(x),
{
    lemma_isqrt_bounds(x);
    let s = isqrt_spec(x);
    if r < s {
        assert((r + 1) * (r + 1) <= s * s) by (nonlinear_arith)
            requires
                0 <= r + 1 <= s,
        {
        }
    }
    if s < r {
        assert((s + 1) * (s + 1) <= r * r) by (nonlinear_arith)
            requires
                0 <= s + 1 <= r,
        {
        }
    }
}

/// Sum of the squares of the samples.
pub open spec fn sum_sq(s: Seq<i32>) -> int
    decreases s.len(),
{
    if s.len() == 0 {
        0
    } else {
        sum_sq(s.drop_last()) + s.last() * s.last()
    }
}

/// A square of a sample is bounded by 2^62, so partial sums are bounded
/// by the length times 2^62, and sums are never negative.
pub proof fn lemma_sum_sq_bounds(s: Seq<i32>)
    ensures
        0 <= sum_sq(s) <= s.len() * 0x4000000000000000,
    decreases s.len(),
{
    if s.len() > 0 {
        lemma_sum_sq_bounds(s.drop_last());
        let v = s.last() as int;
        assert(0 <= v * v <= 0x4000000000000000) by (nonlinear_arith)
            requires
                -0x80000000 <= v <= 0x7fffffff,
        {
        }
        assert((s.len() - 1) * 0x4000000000000000 + 0x4000000000000000 == s.len()
            * 0x4000000000000000) by (nonlinear_arith);
    }
}

/// Sum of squares of a constant sequence.
pub proof fn lemma_sum_sq_constant(s: Seq<i32>, c: i32)
    requires
        forall|i: int| 0 <= i < s.len() ==> s[i] == c,
    ensures
        sum_sq(s) == s.len() * (c as int * c as int),
    decreases s.len(),
{
    if s.len() > 0 {
        lemma_sum_sq_constant(s.drop_last(), c);
        assert((s.len() - 1) * (c as int * c as int) + c as int * c as int == s.len() * (c as int
            * c as int)) by (nonlinear_arith);
    }
}

/// One loudness bar: root mean square of the chunk, amplified by the
/// fixed gain, clamped to full scale.
pub open spec fn bar_of_chunk(c: Seq<i32>) -> u32 {
    let mean = sum_sq(c) / c.len() as int;
    let rms = isqrt_spec(mean);
    if AMPLITUDE_MULTIPLIER * rms >= LEVEL_FULL_SCALE {
        LEVEL_FULL_SCALE
    } else {
        (AMPLITUDE_MULTIPLIER * rms) as u32
    }
}

/// The nine bars of a window: the window is split into nine chunks of
/// `len / 9` samples (any remainder at the end is not inspected) and
/// each chunk yields one bar.
pub open spec fn spec_audio_levels(s: Seq<i32>) -> Seq<u32> {
    let cs = s.len() as int / 9;
    Seq::new(9, |i: int| bar_of_chunk(s.subrange(i * cs, (i + 1) * cs)))
}

/// Floor square root of a 64-bit value, by binary search.
pub fn isqrt64(x: u64) -> (r: u64)
    ensures
        r == isqrt_spec(x as int),
{
    let mut lo: u64 = 0;
    let mut hi: u64 = 0x100000000;
    proof {
        assert((0x100000000int + 1) * (0x100000000int + 1) > x as int) by (nonlinear_arith)
            requires
                x as int <= 0xffffffffffffffffint,
        {
        }
    }
    while lo < hi
        invariant
            lo <= hi <= 0x100000000,
            lo as int * lo as int <= x as int,
            (hi as int + 1) * (hi as int + 1) > x as int,
        decreases hi - lo,
    {
        let mid: u64 = lo + (hi - lo + 1) / 2;
        proof {
            lemma_div_pos_is_pos(hi as int - lo as int + 1, 2);
            lemma_div_is_ordered(hi as int - lo as int + 1, 2 * (hi as int - lo as int), 2);
            lemma_div_multiples_vanish(hi as int - lo as int, 2);
        }
        proof {
            assert((mid as int) * (mid as int) <= 0x100000000int * 0x100000000int)
                by (nonlinear_arith)
                requires
                    0 <= (mid as int) <= 0x100000000int,
            {
            }
        }
        let sq: u128 = (mid as u128) * (mid as u128);
        if sq <= x as u128 {
            lo = mid;
        } else {
            hi = mid - 1;
        }
    }
    proof {
        lemma_isqrt_unique(x as int, lo as int);
    }
    lo
}

/// Computes the nine loudness bars of a window, mirroring
/// `spec_audio_levels`; windows shorter than nine samples yield nothing.
pub fn compute_audio_levels(buffer: &Vec<i32>) -> (r: Option<Vec<u32>>)
    ensures
        match r {
            Some(levels) => buffer@.len() >= 9 && levels@ == spec_audio_levels(buffer@),
            None => buffer@.len() < 9,
        },
{
    let len = buffer.len();
    if len == 0 {
        return None;
    }
    let cs = len / NUM_BARS;
    if cs == 0 {
        proof {
            lemma_fundamental_div_mod(len as int, 9);
            lemma_mod_division_less_than_divisor(len as int, 9);
        }
        return None;
    }
    proof {
        lemma_fundamental_div_mod(len as int, 9);
        lemma_mod_division_less_than_divisor(len as int, 9);
        assert(9 * (len as int / 9) <= len as int);
    }
    let mut levels: Vec<u32> = Vec::new();
    let mut i: usize = 0;
    while i < 9
        invariant
            len == buffer@.len() <= usize::MAX,
            cs == len as int / 9,
            cs >= 1,
            9 * (cs as int) <= len as int,
            i <= 9,
            levels@.len() == i,
            forall|k: int| 0 <= k < i ==> levels@[k] == bar_of_chunk(
                buffer@.subrange(k * (cs as int), (k + 1) * (cs as int)),
            ),
        decreases 9 - i,
    {
        proof {
            assert((i as int + 1) * (cs as int) <= 9 * (cs as int)) by (nonlinear_arith)
                requires
                    0 <= i < 9,
                    cs >= 1,
            {
            }
            assert((i as int) * (cs as int) + cs as int == (i as int + 1) * (cs as int))
                by (nonlinear_arith);
            assert((i as int) * (cs as int) >= 0) by (nonlinear_arith)
                requires
                    i >= 0,
                    cs >= 1,
            {
            }
        }
        let start: usize = i * cs;
        let end: usize = (i + 1) * cs;
        let ghost chunk = buffer@.subrange(start as int, end as int);
        let mut sum: u128 = 0;
        let mut j: usize = start;
        while j < end
            invariant
                len == buffer@.len() <= usize::MAX,
                start <= j <= end <= len,
                chunk == buffer@.subrange(start as int, end as int),
                sum == sum_sq(buffer@.subrange(start as int, j as int)),
                sum <= (j as int - start as int) * 0x4000000000000000,
            decreases end - j,
        {
            let v = buffer[j];
            proof {
                assert(0 <= (v as int) * (v as int) <= 0x4000000000000000) by (nonlinear_arith)
                    requires
                        -0x80000000 <= (v as int) <= 0x7fffffff,
                {
                }
                assert(buffer@.subrange(start as int, j as int + 1).drop_last() == buffer@.subrange(
                    start as int,
                    j as int,
                )) by {
                    assert(buffer@.subrange(start as int, j as int + 1).drop_last() =~= buffer@
                        .subrange(start as int, j as int));
                }
                assert((j as int - start as int) * 0x4000000000000000 + 0x4000000000000000 == (
                j as int + 1 - start as int) * 0x4000000000000000) by (nonlinear_arith);
            }
            let sq: i64 = (v as i64) * (v as i64);
            sum = sum + sq as u128;
            j += 1;
        }
        proof {
            assert(buffer@.subrange(start as int, end as int) == chunk);
            lemma_sum_sq_bounds(chunk);
            assert(end as int - start as int == cs as int) by (nonlinear_arith)
                requires
                    start as int == (i as int) * (cs as int),
                    end as int == (i as int + 1) * (cs as int),
            {
            }
            assert(sum <= (cs as int) * 0x4000000000000000);
        }
        let count: u128 = (end - start) as u128;
        let mean: u128 = sum / count;
        proof {
            assert(chunk.len() == cs as int);
            assert(mean == sum_sq(chunk) / (cs as int));
            assert(mean <= 0x4000000000000000) by {
                lemma_div_is_ordered(
                    sum as int,
                    (cs as int) * 0x4000000000000000,
                    cs as int,
                );
                lemma_div_multiples_vanish(0x4000000000000000, cs as int);
            }
        }
        let rms: u64 = isqrt64(mean as u64);
        proof {
            lemma_isqrt_bounds(mean as int);
            assert(rms as int * rms as int <= 0x4000000000000000);
            assert(rms <= 0x80000000) by (nonlinear_arith)
                requires
                    rms as int * rms as int <= 0x4000000000000000,
            {
            }
        }
        let amplified: u64 = 8 * rms;
        let bar: u32 = if amplified >= 0x80000000 {
            0x80000000u32
        } else {
            amplified as u32
        };
        levels.push(bar);
        i += 1;
    }
    proof {
        assert(levels@ =~= spec_audio_levels(buffer@));
    }
    Some(levels)
}

/// All-zero window: every emitted loudness value is zero.
pub proof fn lemma_levels_all_zero(s: Seq<i32>)
    requires
        s.len() >= 9,
        forall|i: int| 0 <= i < s.len() ==> s[i] == 0,
    ensures
        forall|i: int| 0 <= i < 9 ==> spec_audio_levels(s)[i] == 0,
{
    let cs = s.len() as int / 9;
    lemma_fundamental_div_mod(s.len() as int, 9);
    lemma_mod_division_less_than_divisor(s.len() as int, 9);
    assert(cs >= 1) by {
        lemma_div_is_ordered(9, s.len() as int, 9);
        vstd::arithmetic::div_mod::lemma_div_by_self(9);
    }
    assert forall|i: int| 0 <= i < 9 implies spec_audio_levels(s)[i] == 0 by {
        assert((i + 1) * cs <= 9 * cs) by (nonlinear_arith)
            requires
                0 <= i < 9,
                cs >= 0,
        {
        }
        assert(i * cs >= 0) by (nonlinear_arith)
            requires
                i >= 0,
                cs >= 0,
        {
        }
        assert(i * cs + cs == (i + 1) * cs) by (nonlinear_arith);
        let c = s.subrange(i * cs, (i + 1) * cs);
        assert(c.len() == cs);
        lemma_sum_sq_constant(c, 0);
        assert(sum_sq(c) == 0);
        assert(sum_sq(c) / c.len() as int == 0) by {
            vstd::arithmetic::div_mod::lemma_basic_div(0, cs);
        }
        assert(isqrt_spec(0) == 0);
    }
}

/// Full-scale window: every emitted loudness value clamps to full scale.
pub proof fn lemma_levels_full_scale(s: Seq<i32>)
    requires
        s.len() >= 9,
        forall|i: int| 0 <= i < s.len() ==> s[i] == 0x7fffffff,
    ensures
        forall|i: int| 0 <= i < 9 ==> spec_audio_levels(s)[i] == LEVEL_FULL_SCALE,
{
    let cs = s.len() as int / 9;
    lemma_fundamental_div_mod(s.len() as int, 9);
    lemma_mod_division_less_than_divisor(s.len() as int, 9);
    assert(cs >= 1) by {
        lemma_div_is_ordered(9, s.len() as int, 9);
        vstd::arithmetic::div_mod::lemma_div_by_self(9);
    }
    assert forall|i: int| 0 <= i < 9 implies spec_audio_levels(s)[i] == LEVEL_FULL_SCALE by {
        assert((i + 1) * cs <= 9 * cs) by (nonlinear_arith)
            requires
                0 <= i < 9,
                cs >= 0,
        {
        }
        assert(i * cs >= 0 && i * cs + cs == (i + 1) * cs) by (nonlinear_arith)
            requires
                i >= 0,
                cs >= 0,
        {
        }
        let c = s.subrange(i * cs, (i + 1) * cs);
        assert(c.len() == cs);
        lemma_sum_sq_constant(c, 0x7fffffff);
        let v = 0x7fffffffint;
        assert(sum_sq(c) == cs * (v * v));
        assert(sum_sq(c) / cs == v * v) by {
            lemma_div_multiples_vanish(v * v, cs);
            assert(cs * (v * v) == (v * v) * cs) by (nonlinear_arith);
        }
        assert(isqrt_spec(v * v) == v) by {
            assert((v + 1) * (v + 1) > v * v) by (nonlinear_arith)
                requires
                    v == 0x7fffffffint,
            {
            }
            lemma_isqrt_unique(v * v, v);
        }
        assert(8 * v >= 0x80000000);
    }
}


/// The bounded accumulation window owned by the active stream callback:
/// normalized samples collect here, and each time the window reaches its
/// capacity the nine loudness bars are emitted and the window is cleared.
pub struct LevelWindow {
    pub samples: Vec<i32>,
}

impl LevelWindow {
    /// An empty window.
    pub fn new() -> (w: LevelWindow)
        ensures
            w.samples@.len() == 0,
    {
        LevelWindow { samples: Vec::new() }
    }

    /// Accumulates one frame of normalized samples. Once the window
    /// holds at least `LEVEL_BUFFER_SIZE` samples, the loudness bars of
    /// the whole window are emitted and the window is cleared; otherwise
    /// nothing is emitted and the samples are kept.
    pub fn accumulate_frame(&mut self, frame: &Vec<i32>) -> (emitted: Option<Vec<u32>>)
        requires
            old(self).samples@.len() + frame@.len() <= usize::MAX,
        ensures
            ({
                let joined = old(self).samples@ + frame@;
                if joined.len() >= 512 {
                    emitted matches Some(l) && l@ == spec_audio_levels(joined)
                        && final(self).samples@.len() == 0
                } else {
                    emitted is None && final(self).samples@ == joined
                }
            }),
    {
        let n = frame.len();
        let mut k: usize = 0;
        while k < n
            invariant
                n == frame@.len(),
                old(self).samples@.len() + n <= usize::MAX,
                k <= n,
                self.samples@ == old(self).samples@ + frame@.take(k as int),
            decreases n - k,
        {
            self.samples.push(frame[k]);
            proof {
                assert(self.samples@ =~= old(self).samples@ + frame@.take(k as int + 1));
            }
            k += 1;
        }
        proof {
            assert(old(self).samples@ + frame@.take(n as int) =~= old(self).samples@ + frame@);
        }
        if self.samples.len() >= LEVEL_BUFFER_SIZE {
            let levels = compute_audio_levels(&self.samples);
            self.samples = Vec::new();
            match levels {
                Some(l) => Some(l),
                None => {
                    proof {
                        assert(false);
                    }
                    None
                },
            }
        } else {
            None
        }
    }
}

} // verus!

