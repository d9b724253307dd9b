//! Audio-format normalization: arbitrary-channel, arbitrary-rate PCM into
//! the canonical 16 kHz / mono / 16-bit form required by the inference
//! engines.
//!
//! Samples travel through the pipeline as Q1.31 fixed-point values: an
//! `i32` whose mathematical value is the integer divided by 2^31, so the
//! representable range is [-1.0, 1.0). Every supported source encoding is
//! converted into this form exactly (16-bit and 32-bit integers) or by
//! truncation of an IEEE 754 bit pattern (32-bit floats), channels are
//! downmixed by the arithmetic mean, and the result is scaled to 16-bit
//! PCM. Resampling itself is floating-point work done outside the
//! library; this module computes the chunk plan the resampler consumes
//! and the exact output length its result is held to.

use crate::wav::SpecWavHeader;
use crate::wav::WavSampleFormat;
use crate::wav::canonical_wav;
use crate::wav::decode_sample_bits;
use crate::wav::decode_samples_i16;
use crate::wav::decode_samples_i32;
use crate::wav::encode_canonical_wav;
use crate::wav::le32;
use crate::wav::lemma_canonical_wav_parses;
use crate::wav::lemma_parse_wav_valid;
use crate::wav::parse_wav_header;
use crate::wav::sample_i16_at;
use crate::wav::sample_i32_at;
use crate::wav::spec_is_canonical_format;
use crate::wav::spec_parse_wav;
use vstd::arithmetic::div_mod::lemma_div_is_ordered;
use vstd::arithmetic::div_mod::lemma_fundamental_div_mod;
use vstd::arithmetic::power2::lemma2_to64;
use vstd::arithmetic::power2::lemma_pow2_strictly_increases;
use vstd::arithmetic::power2::pow2;
use vstd::prelude::*;

verus! {

/// Errors surfaced by normalization and transcription.
#[derive(Debug, Clone)]
pub enum TranscriptionError {
    /// Malformed WAV bytes or an unsupported bit depth.
    AudioReadError { message: String },
    /// The source sample rate implies a resampling ratio above 8x.
    UnsupportedSampleRateError { sample_rate: u32 },
    /// The external decoder tool is not installed.
    ExternalToolNotFoundError { message: String },
    /// The external decoder tool ran and failed.
    ConversionFailedError { message: String },
    /// Loading a model into an inference engine failed.
    ModelLoadError { message: String },
    /// The loaded engine is not of the variant the caller expected.
    EngineTypeMismatchError { message: String },
    /// The inference call itself failed.
    InferenceError { message: String },
}

/// Truncating integer division (rounds toward zero), for positive `b`.
pub open spec fn div_trunc(a: int, b: int) -> int {
    if a >= 0 {
        a / b
    } else {
        -((-a) / b)
    }
}

/// A 16-bit sample as a Q1.31 value: `v / 32768 == (v * 65536) / 2^31`.
pub open spec fn q31_of_i16(v: i16) -> int {
    v * 65536
}

/// An unsigned (offset-binary) 16-bit sample as a Q1.31 value:
/// `(v - 32768) / 32768`.
pub open spec fn q31_of_u16(v: u16) -> int {
    (v - 32768) * 65536
}

/// An IEEE 754 single-precision bit pattern as a Q1.31 value: the float's
/// magnitude times 2^31, truncated, saturated at the ends of the range.
/// Exponent zero (zeros and subnormals) collapses to 0; magnitudes of
/// 1.0 and above (exponent 127 and up, infinities and NaN payloads
/// included) saturate.
pub open spec fn q31_of_f32_bits(bits: u32) -> int {
    let sign = bits / 0x80000000;
    let e = (bits / 0x800000) % 256;
    let m = bits % 0x800000;
    if e == 0 {
        0
    } else if e >= 127 {
        if sign == 1 {
            -0x80000000
        } else {
            0x7fffffff
        }
    } else {
        let mag = if e >= 119 {
            (0x800000 + m) * pow2((e - 119) as nat)
        } else {
            (0x800000 + m) / pow2((119 - e) as nat) as int
        };
        if sign == 1 {
            -mag
        } else {
            mag
        }
    }
}

/// A Q1.31 value scaled to a 16-bit sample: clamped to [-1.0, 1.0] (a
/// no-op on this range) and scaled by 32767, truncating toward zero.
pub open spec fn q31_to_i16_spec(q: i32) -> int {
    div_trunc(q * 32767, 0x80000000)
}

/// 2 raised to `k`, as a machine integer.
fn pow2_u64(k: u32) -> (p: u64)
    requires
        k <= 62,
    ensures
        p == pow2(k as nat),
{
    proof {
        lemma2_to64();
    }
    let mut p: u64 = 1;
    let mut i: u32 = 0;
    while i < k
        invariant
            i <= k <= 62,
            p == pow2(i as nat),
        decreases k - i,
    {
        proof {
            vstd::arithmetic::power2::lemma2_to64_rest();
            if (i as nat) < 61 {
                lemma_pow2_strictly_increases(i as nat, 61);
            }
            assert(p <= 0x2000000000000000);
        }
        p = p * 2;
        i = i + 1;
        proof {
            assert(pow2(i as nat) == 2 * pow2((i - 1) as nat)) by {
                vstd::arithmetic::power2::lemma_pow2_unfold(i as nat);
            }
        }
    }
    p
}

/// Converts a 16-bit sample to Q1.31, exactly.
pub fn q31_from_i16(v: i16) -> (q: i32)
    ensures
        q == q31_of_i16(v),
{
    (v as i32) * 65536
}

/// Converts an unsigned offset-binary 16-bit sample to Q1.31, exactly.
pub fn q31_from_u16(v: u16) -> (q: i32)
    ensures
        q == q31_of_u16(v),
{
    ((v as i32) - 32768) * 65536
}

/// Converts an IEEE 754 single-precision bit pattern to Q1.31.
pub fn q31_from_f32_bits(bits: u32) -> (q: i32)
    ensures
        q == q31_of_f32_bits(bits),
{
    let sign = bits >= 0x80000000;
    proof {
        assert(bits / 0x80000000 == if bits >= 0x80000000 { 1int } else { 0int });
    }
    let e: u32 = (bits / 0x800000) % 256;
    let m: u32 = bits % 0x800000;
    if e == 0 {
        0
    } else if e >= 127 {
        if sign {
            i32::MIN
        } else {
            i32::MAX
        }
    } else if e >= 119 {
        let p = pow2_u64(e - 119);
        proof {
            lemma2_to64();
            if ((e - 119) as nat) < 7 {
                lemma_pow2_strictly_increases((e - 119) as nat, 7);
            }
            assert(p <= pow2(7));
        }
        proof {
            assert((0x800000 + m as int) * (p as int) <= 0xffffffint * 128) by (nonlinear_arith)
                requires
                    (m as int) <= 0x7fffff,
                    0 <= (p as int),
                    (p as int) <= 128,
            {
            }
        }
        let mag: u64 = (0x800000u64 + m as u64) * p;
        if sign {
            -(mag as i32)
        } else {
            mag as i32
        }
    } else {
        let sh: u32 = 119 - e;
        if sh >= 24 {
            proof {
                lemma2_to64();
                if sh > 24 {
                    lemma_pow2_strictly_increases(24, sh as nat);
                }
                assert((0x800000 + m as int) < pow2(sh as nat) as int);
                vstd::arithmetic::div_mod::lemma_basic_div(
                    0x800000 + m as int,
                    pow2(sh as nat) as int,
                );
            }
            0
        } else {
            let p = pow2_u64(sh);
            proof {
                vstd::arithmetic::power2::lemma_pow2_pos(sh as nat);
            }
            let mag: u64 = (0x800000u64 + m as u64) / p;
            proof {
                assert(mag <= 0xffffff) by {
                    vstd::arithmetic::div_mod::lemma_div_is_ordered_by_denominator(
                        0x800000 + m as int,
                        1,
                        p as int,
                    );
                }
            }
            if sign {
                -(mag as i32)
            } else {
                mag as i32
            }
        }
    }
}

/// Scales a Q1.31 value to a 16-bit sample.
pub fn q31_to_i16(q: i32) -> (s: i16)
    ensures
        s == q31_to_i16_spec(q),
{
    let wide: i64 = (q as i64) * 32767;
    let t: i64 = if wide >= 0 {
        ((wide as u64) / 0x80000000) as i64
    } else {
        -((((-wide) as u64) / 0x80000000) as i64)
    };
    proof {
        assert(t == div_trunc(q as int * 32767, 0x80000000));
        assert(-32768 <= t <= 32767) by {
            if wide >= 0 {
                lemma_div_is_ordered(wide as int, 0x7fffffffint * 32767, 0x80000000int);
            } else {
                lemma_div_is_ordered(-(wide as int), 0x80000000int * 32767, 0x80000000int);
            }
        }
    }
    t as i16
}


/// Sum of the first `j` samples of the `i`-th interleaved frame of
/// `ch` channels.
pub open spec fn frame_sum(s: Seq<i32>, ch: int, i: int, j: int) -> int
    decreases j,
{
    if j <= 0 {
        0
    } else {
        frame_sum(s, ch, i, j - 1) + s[i * ch + (j - 1)]
    }
}

/// Arithmetic mean of the `i`-th frame, truncated toward zero.
pub open spec fn frame_mean(s: Seq<i32>, ch: int, i: int) -> int {
    div_trunc(frame_sum(s, ch, i, ch), ch)
}

/// The interleaved samples downmixed to mono by the per-frame arithmetic
/// mean; a trailing partial frame is dropped.
pub open spec fn spec_downmix(s: Seq<i32>, ch: int) -> Seq<i32> {
    Seq::new((s.len() as int / ch) as nat, |i: int| frame_mean(s, ch, i) as i32)
}

/// A single-channel stream passes through the downmix unchanged: each
/// frame is one sample and its mean is that sample.
pub proof fn lemma_downmix_mono_identity(s: Seq<i32>)
    ensures
        spec_downmix(s, 1) == s,
{
    assert forall|i: int| 0 <= i < s.len() implies frame_mean(s, 1, i) == s[i] by {
        assert(frame_sum(s, 1, i, 1) == frame_sum(s, 1, i, 0) + s[i * 1 + 0]);
        assert(i * 1 + 0 == i) by (nonlinear_arith);
        vstd::arithmetic::div_mod::lemma_div_basics(s[i] as int);
        vstd::arithmetic::div_mod::lemma_div_basics(-(s[i] as int));
    }
    assert(spec_downmix(s, 1) =~= s);
}

/// Downmixes interleaved samples to mono by the arithmetic mean of each
/// frame of `channels` samples.
pub fn downmix_to_mono(samples: &Vec<i32>, channels: u16) -> (r: Vec<i32>)
    requires
        channels >= 1,
    ensures
        r@ == spec_downmix(samples@, channels as int),
{
    let ch: usize = channels as usize;
    let total = samples.len();
    let n: usize = total / ch;
    proof {
        lemma_fundamental_div_mod(total as int, ch as int);
        vstd::arithmetic::div_mod::lemma_mod_division_less_than_divisor(total as int, ch as int);
        assert((total as int / ch as int) * ch <= total as int) by (nonlinear_arith)
            requires
                total as int == ch as int * (total as int / ch as int) + (total as int % (
                ch as int)),
                (total as int % (ch as int)) >= 0,
            {
            }
    }
    let mut r: Vec<i32> = Vec::new();
    let mut i: usize = 0;
    while i < n
        invariant
            ch == channels as int,
            1 <= ch <= 65535,
            n == samples@.len() as int / ch as int,
            n * ch <= samples@.len() <= usize::MAX,
            total == samples@.len(),
            i <= n,
            r@.len() == i,
            forall|k: int| 0 <= k < i ==> r@[k] == frame_mean(samples@, ch as int, k) as i32,
        decreases n - i,
    {
        let mut sum: i64 = 0;
        let mut j: usize = 0;
        proof {
            assert(i * ch + ch <= n * ch) by (nonlinear_arith)
                requires
                    0 <= i < n,
                    0 < ch,
                {
                }
        }
        while j < ch
            invariant
                ch == channels as int,
                1 <= ch <= 65535,
                total == samples@.len() <= usize::MAX,
                i * ch + ch <= samples@.len(),
                j <= ch,
                sum == frame_sum(samples@, ch as int, i as int, j as int),
                -((j as int) * 0x80000000) <= sum <= (j as int) * 0x7fffffff,
            decreases ch - j,
        {
            let v = samples[i * ch + j];
            proof {
                assert((j as int) * 0x80000000 + 0x80000000 == (j as int + 1) * 0x80000000)
                    by (nonlinear_arith);
                assert((j as int) * 0x7fffffff + 0x7fffffff == (j as int + 1) * 0x7fffffff)
                    by (nonlinear_arith);
            }
            sum = sum + v as i64;
            j += 1;
        }
        let mean: i64 = if sum >= 0 {
            ((sum as u64) / (ch as u64)) as i64
        } else {
            -((((-sum) as u64) / (ch as u64)) as i64)
        };
        proof {
            assert(mean == frame_mean(samples@, ch as int, i as int)) by {
                assert(mean == div_trunc(sum as int, ch as int));
            }
            assert(-0x80000000 <= mean <= 0x7fffffff) by {
                if sum >= 0 {
                    lemma_div_is_ordered(sum as int, (ch as int) * 0x7fffffff, ch as int);
                    vstd::arithmetic::div_mod::lemma_div_multiples_vanish(0x7fffffff, ch as int);
                } else {
                    lemma_div_is_ordered(-(sum as int), (ch as int) * 0x80000000, ch as int);
                    vstd::arithmetic::div_mod::lemma_div_multiples_vanish(0x80000000, ch as int);
                }
            }
        }
        r.push(mean as i32);
        i += 1;
    }
    proof {
        assert(r@ =~= spec_downmix(samples@, channels as int));
    }
    r
}

/// The number of samples the pipeline expects from resampling `n` input
/// samples at `rate` Hz to 16 kHz: `n * 16000 / rate` rounded to the
/// nearest integer, half away from zero.
pub open spec fn spec_resample_len(n: int, rate: int) -> int {
    (2 * n * 16000 + rate) / (2 * rate)
}

/// The planned length is within half a sample of the exact rational
/// `n * 16000 / rate` -- the rounding is exact, never off by one.
pub proof fn lemma_resample_len_is_round(n: int, rate: int)
    requires
        n >= 0,
        rate >= 1,
    ensures
        2 * rate * spec_resample_len(n, rate) <= 2 * (n * 16000) + rate,
        2 * rate * spec_resample_len(n, rate) > 2 * (n * 16000) - rate,
{
    let a = 2 * n * 16000 + rate;
    let d = 2 * rate;
    let k = a / d;
    lemma_fundamental_div_mod(a, d);
    vstd::arithmetic::div_mod::lemma_mod_division_less_than_divisor(a, d);
    assert(d * k == a - a % d);
    assert(2 * rate * k == d * k) by (nonlinear_arith)
        requires
            d == 2 * rate,
    {
    }
}

/// The planned length never exceeds eight times the input length plus
/// one, so it fits a machine word whenever the input does.
pub proof fn lemma_resample_len_bound(n: int, rate: int)
    requires
        n >= 0,
        rate >= 2000,
    ensures
        0 <= spec_resample_len(n, rate) <= 8 * n + 1,
{
    let a = 2 * n * 16000 + rate;
    let d = 2 * rate;
    assert(a <= d * (8 * n + 1)) by (nonlinear_arith)
        requires
            n >= 0,
            rate >= 2000,
            a == 2 * n * 16000 + rate,
            d == 2 * rate,
        {
        }
    lemma_div_is_ordered(a, d * (8 * n + 1), d);
    vstd::arithmetic::div_mod::lemma_div_multiples_vanish(8 * n + 1, d);
    vstd::arithmetic::div_mod::lemma_div_pos_is_pos(a, d);
}

/// Computes the expected resampled length, exactly as specified.
pub fn expected_resample_len(n: usize, rate: u32) -> (r: usize)
    requires
        rate >= 2000,
        8 * (n as int) + 1 <= usize::MAX,
    ensures
        r == spec_resample_len(n as int, rate as int),
{
    let num: u128 = 2 * (n as u128) * 16000 + rate as u128;
    let den: u128 = 2 * (rate as u128);
    let q: u128 = num / den;
    proof {
        lemma_resample_len_bound(n as int, rate as int);
    }
    q as usize
}

/// The `i`-th input chunk handed to the resampler: 1024 samples, the
/// last chunk zero-padded past the end of the input.
pub open spec fn spec_resample_chunk(s: Seq<i32>, i: int) -> Seq<i32> {
    Seq::new(
        1024,
        |j: int|
            if i * 1024 + j < s.len() {
                s[i * 1024 + j]
            } else {
                0i32
            },
    )
}

/// How many 1024-sample chunks cover `n` samples.
pub open spec fn spec_num_chunks(n: int) -> int {
    (n + 1023) / 1024
}

/// Splits the mono samples into fixed 1024-sample chunks for the
/// resampler, zero-padding the final chunk.
pub fn chunk_for_resample(mono: &Vec<i32>) -> (chunks: Vec<Vec<i32>>)
    requires
        mono@.len() + 1023 <= usize::MAX,
    ensures
        chunks@.len() == spec_num_chunks(mono@.len() as int),
        forall|i: int| 0 <= i < chunks@.len() ==> #[trigger] chunks@[i]@ == spec_resample_chunk(
            mono@,
            i,
        ),
{
    let n = mono.len();
    let num: usize = (n + 1023) / 1024;
    let mut chunks: Vec<Vec<i32>> = Vec::new();
    let mut c: usize = 0;
    while c < num
        invariant
            n == mono@.len(),
            n + 1023 <= usize::MAX,
            num == spec_num_chunks(n as int),
            c <= num,
            chunks@.len() == c,
            forall|i: int| 0 <= i < c ==> #[trigger] chunks@[i]@ == spec_resample_chunk(mono@, i),
        decreases num - c,
    {
        let mut chunk: Vec<i32> = Vec::new();
        let mut j: usize = 0;
        proof {
            assert(c * 1024 + 1024 <= num as int * 1024) by (nonlinear_arith)
                requires
                    0 <= c < num,
                {
                }
            assert(num as int * 1024 <= n + 1023 + 1024) by {
                lemma_fundamental_div_mod(n as int + 1023, 1024);
                vstd::arithmetic::div_mod::lemma_mod_division_less_than_divisor(
                    n as int + 1023,
                    1024,
                );
            }
        }
        while j < 1024
            invariant
                n == mono@.len(),
                c as int * 1024 + 1024 <= n + 1023 + 1024 <= usize::MAX + 2048,
                j <= 1024,
                chunk@.len() == j,
                forall|k: int| 0 <= k < j ==> chunk@[k] == spec_resample_chunk(mono@, c as int)[k],
            decreases 1024 - j,
        {
            let pos128: u128 = c as u128 * 1024 + j as u128;
            if pos128 < n as u128 {
                chunk.push(mono[pos128 as usize]);
            } else {
                chunk.push(0);
            }
            j += 1;
        }
        chunks.push(chunk);
        proof {
            assert(chunks@[c as int]@ =~= spec_resample_chunk(mono@, c as int));
        }
        c += 1;
    }
    chunks
}


/// Upper bound on the byte length of an input container: keeps every
/// derived sample count inside the 32-bit container size field and the
/// machine word.
pub const MAX_INPUT_BYTES: usize = 0x10000000;

/// The bit depths the pure conversion can decode.
pub open spec fn spec_supported_depth(h: SpecWavHeader) -> bool {
    h.bits_per_sample == 16 || h.bits_per_sample == 32
}

/// The input's samples as Q1.31 values, per the header's encoding.
pub open spec fn spec_decoded_q31(b: Seq<u8>, h: SpecWavHeader) -> Seq<i32> {
    if h.format_tag == 1 && h.bits_per_sample == 16 {
        Seq::new(
            (h.data_len / 2) as nat,
            |k: int| (q31_of_i16(sample_i16_at(b, h.data_off + 2 * k))) as i32,
        )
    } else if h.format_tag == 1 && h.bits_per_sample == 32 {
        Seq::new((h.data_len / 4) as nat, |k: int| sample_i32_at(b, h.data_off + 4 * k))
    } else {
        Seq::new(
            (h.data_len / 4) as nat,
            |k: int| (q31_of_f32_bits(le32(b, h.data_off + 4 * k) as u32)) as i32,
        )
    }
}

/// The decoded input downmixed to one channel.
pub open spec fn spec_mono_q31(b: Seq<u8>, h: SpecWavHeader) -> Seq<i32> {
    spec_downmix(spec_decoded_q31(b, h), h.channels)
}

/// A Q1.31 value as the 16-bit sample the canonical container stores.
pub open spec fn i16_of_q31(q: i32) -> i16 {
    q31_to_i16_spec(q) as i16
}

/// The mono stream scaled to 16-bit samples.
pub open spec fn spec_mono_i16(b: Seq<u8>, h: SpecWavHeader) -> Seq<i16> {
    spec_mono_q31(b, h).map(|k: int, q: i32| i16_of_q31(q))
}

/// A job the caller hands to the resampler: fixed-size input chunks and
/// the exact output length the result is truncated to.
pub struct ResampleJob {
    pub chunks: Vec<Vec<i32>>,
    pub expected_len: usize,
    pub source_rate: u32,
}

/// What the pure conversion tiers decided.
pub enum ConversionOutcome {
    /// Tier 1: the input is already canonical and is used unchanged.
    AlreadyCanonical,
    /// Tier 2 finished without resampling: the canonical container.
    Finished(Vec<u8>),
    /// Tier 2 needs the resampler: the prepared job.
    NeedsResample(ResampleJob),
}

/// Converts a batch of 16-bit signed samples to normalized Q1.31 values.
pub fn q31_vec_of_i16(v: &Vec<i16>) -> (r: Vec<i32>)
    ensures
        r@ == v@.map(|k: int, x: i16| (q31_of_i16(x)) as i32),
{
    let mut r: Vec<i32> = Vec::new();
    let mut k: usize = 0;
    let n = v.len();
    while k < n
        invariant
            n == v@.len(),
            k <= n,
            r@.len() == k,
            forall|j: int| 0 <= j < k ==> r@[j] == (q31_of_i16(v@[j])) as i32,
        decreases n - k,
    {
        r.push(q31_from_i16(v[k]));
        k += 1;
    }
    proof {
        assert(r@ =~= v@.map(|k: int, x: i16| (q31_of_i16(x)) as i32));
    }
    r
}

/// Converts a batch of unsigned offset-binary samples to Q1.31 values.
pub fn q31_vec_of_u16(v: &Vec<u16>) -> (r: Vec<i32>)
    ensures
        r@ == v@.map(|k: int, x: u16| (q31_of_u16(x)) as i32),
{
    let mut r: Vec<i32> = Vec::new();
    let mut k: usize = 0;
    let n = v.len();
    while k < n
        invariant
            n == v@.len(),
            k <= n,
            r@.len() == k,
            forall|j: int| 0 <= j < k ==> r@[j] == (q31_of_u16(v@[j])) as i32,
        decreases n - k,
    {
        r.push(q31_from_u16(v[k]));
        k += 1;
    }
    proof {
        assert(r@ =~= v@.map(|k: int, x: u16| (q31_of_u16(x)) as i32));
    }
    r
}

/// Converts a batch of float bit patterns to Q1.31 values.
pub fn q31_vec_of_f32_bits(v: &Vec<u32>) -> (r: Vec<i32>)
    ensures
        r@ == v@.map(|k: int, x: u32| (q31_of_f32_bits(x)) as i32),
{
    let mut r: Vec<i32> = Vec::new();
    let mut k: usize = 0;
    let n = v.len();
    while k < n
        invariant
            n == v@.len(),
            k <= n,
            r@.len() == k,
            forall|j: int| 0 <= j < k ==> r@[j] == (q31_of_f32_bits(v@[j])) as i32,
        decreases n - k,
    {
        r.push(q31_from_f32_bits(v[k]));
        k += 1;
    }
    proof {
        assert(r@ =~= v@.map(|k: int, x: u32| (q31_of_f32_bits(x)) as i32));
    }
    r
}

fn i16_vec_from_q31(v: &Vec<i32>) -> (r: Vec<i16>)
    ensures
        r@ == v@.map(|k: int, q: i32| i16_of_q31(q)),
{
    let mut r: Vec<i16> = Vec::new();
    let mut k: usize = 0;
    let n = v.len();
    while k < n
        invariant
            n == v@.len(),
            k <= n,
            r@.len() == k,
            forall|j: int| 0 <= j < k ==> r@[j] == i16_of_q31(v@[j]),
        decreases n - k,
    {
        r.push(q31_to_i16(v[k]));
        k += 1;
    }
    proof {
        assert(r@ =~= v@.map(|k: int, q: i32| i16_of_q31(q)));
    }
    r
}

/// True exactly when the bytes already are a canonical container:
/// 16 kHz, mono, 16-bit integer PCM (the tier-1 fast-path check).
pub fn is_valid_wav_format(audio: &Vec<u8>) -> (r: bool)
    ensures
        r == spec_is_canonical_format(audio@),
{
    match parse_wav_header(audio) {
        Some(h) => {
            let is_int = match h.spec.sample_format {
                WavSampleFormat::Int => true,
                WavSampleFormat::Float => false,
            };
            is_int && h.spec.channels == 1 && h.spec.sample_rate == 16000
                && h.spec.bits_per_sample == 16
        },
        None => false,
    }
}

/// Pure conversion of a WAV container toward the canonical form (the
/// tier-2 strategy): decode samples to Q1.31, downmix to mono by the
/// arithmetic mean, and either finish (input already at 16 kHz) or
/// prepare the resampling job. Inputs whose rate would need more than an
/// 8x ratio are rejected; so are bit depths other than 16 and 32.
pub fn convert_audio_rust(audio: &Vec<u8>) -> (r: Result<ConversionOutcome, TranscriptionError>)
    requires
        audio@.len() <= MAX_INPUT_BYTES,
    ensures
        match r {
            Ok(ConversionOutcome::Finished(out)) => spec_parse_wav(audio@) matches Some(h)
                && spec_supported_depth(h) && h.sample_rate == 16000 && out@ == canonical_wav(
                spec_mono_i16(audio@, h),
            ) && spec_is_canonical_format(out@),
            Ok(ConversionOutcome::NeedsResample(job)) => spec_parse_wav(audio@) matches Some(h)
                && spec_supported_depth(h) && h.sample_rate != 16000 && h.sample_rate >= 2000
                && job.source_rate == h.sample_rate && job.expected_len == spec_resample_len(
                spec_mono_q31(audio@, h).len() as int,
                h.sample_rate,
            ) && job.chunks@.len() == spec_num_chunks(spec_mono_q31(audio@, h).len() as int) && (
            forall|i: int|
                0 <= i < job.chunks@.len() ==> #[trigger] job.chunks@[i]@ == spec_resample_chunk(
                    spec_mono_q31(audio@, h),
                    i,
                )),
            Ok(ConversionOutcome::AlreadyCanonical) => false,
            Err(TranscriptionError::AudioReadError { .. }) => spec_parse_wav(audio@) is None || (
            spec_parse_wav(audio@) matches Some(h) && !spec_supported_depth(h)),
            Err(TranscriptionError::UnsupportedSampleRateError { sample_rate }) => spec_parse_wav(
                audio@,
            ) matches Some(h) && spec_supported_depth(h) && h.sample_rate != 16000
                && h.sample_rate < 2000 && sample_rate == h.sample_rate,
            Err(_) => false,
        },
{
    proof {
        lemma_parse_wav_valid(audio@);
    }
    let h = match parse_wav_header(audio) {
        Some(h) => h,
        None => {
            return Err(
                TranscriptionError::AudioReadError { message: "failed to parse WAV data".to_owned() },
            );
        },
    };
    let bits = h.spec.bits_per_sample;
    if !(bits == 16 || bits == 32) {
        return Err(
            TranscriptionError::AudioReadError { message: "unsupported bit depth".to_owned() },
        );
    }
    let is_int = match h.spec.sample_format {
        WavSampleFormat::Int => true,
        WavSampleFormat::Float => false,
    };
    proof {
        lemma_fundamental_div_mod(h.data_len as int, 2);
        lemma_fundamental_div_mod(h.data_len as int, 4);
        vstd::arithmetic::div_mod::lemma_mod_division_less_than_divisor(h.data_len as int, 2);
        vstd::arithmetic::div_mod::lemma_mod_division_less_than_divisor(h.data_len as int, 4);
    }
    let decoded: Vec<i32> = if is_int && bits == 16 {
        let raw = decode_samples_i16(audio, h.data_off, h.data_len / 2);
        let q = q31_vec_of_i16(&raw);
        proof {
            assert(q@ =~= spec_decoded_q31(audio@, spec_parse_wav(audio@)->Some_0));
        }
        q
    } else if is_int {
        let q = decode_samples_i32(audio, h.data_off, h.data_len / 4);
        proof {
            assert(q@ =~= spec_decoded_q31(audio@, spec_parse_wav(audio@)->Some_0));
        }
        q
    } else {
        let raw = decode_sample_bits(audio, h.data_off, h.data_len / 4);
        let q = q31_vec_of_f32_bits(&raw);
        proof {
            assert(q@ =~= spec_decoded_q31(audio@, spec_parse_wav(audio@)->Some_0));
        }
        q
    };
    let mono = downmix_to_mono(&decoded, h.spec.channels);
    proof {
        assert(mono@ == spec_mono_q31(audio@, spec_parse_wav(audio@)->Some_0));
        vstd::arithmetic::div_mod::lemma_div_nonincreasing(
            decoded@.len() as int,
            h.spec.channels as int,
        );
    }
    let rate = h.spec.sample_rate;
    if rate == 16000 {
        let samples = i16_vec_from_q31(&mono);
        let out = encode_canonical_wav(&samples);
        proof {
            lemma_canonical_wav_parses(samples@);
        }
        Ok(ConversionOutcome::Finished(out))
    } else if rate < 2000 {
        Err(TranscriptionError::UnsupportedSampleRateError { sample_rate: rate })
    } else {
        let expected_len = expected_resample_len(mono.len(), rate);
        let chunks = chunk_for_resample(&mono);
        Ok(ConversionOutcome::NeedsResample(ResampleJob { chunks, expected_len, source_rate: rate }))
    }
}

/// The tiered conversion front end: tier 1 returns canonical input
/// unchanged; otherwise tier 2 runs the pure conversion. An error tells
/// the caller to fall back to the external decoder tool.
pub fn convert_audio_for_whisper(audio: &Vec<u8>) -> (r: Result<
    ConversionOutcome,
    TranscriptionError,
>)
    requires
        audio@.len() <= MAX_INPUT_BYTES,
    ensures
        (r matches Ok(o) && o is AlreadyCanonical) <==> spec_is_canonical_format(audio@),
        !spec_is_canonical_format(audio@) ==> match r {
            Ok(ConversionOutcome::Finished(out)) => spec_parse_wav(audio@) matches Some(h)
                && spec_supported_depth(h) && h.sample_rate == 16000 && out@ == canonical_wav(
                spec_mono_i16(audio@, h),
            ) && spec_is_canonical_format(out@),
            Ok(ConversionOutcome::NeedsResample(job)) => spec_parse_wav(audio@) matches Some(h)
                && spec_supported_depth(h) && h.sample_rate != 16000 && h.sample_rate >= 2000
                && job.source_rate == h.sample_rate && job.expected_len == spec_resample_len(
                spec_mono_q31(audio@, h).len() as int,
                h.sample_rate,
            ) && job.chunks@.len() == spec_num_chunks(spec_mono_q31(audio@, h).len() as int) && (
            forall|i: int|
                0 <= i < job.chunks@.len() ==> #[trigger] job.chunks@[i]@ == spec_resample_chunk(
                    spec_mono_q31(audio@, h),
                    i,
                )),
            Ok(ConversionOutcome::AlreadyCanonical) => false,
            Err(TranscriptionError::AudioReadError { .. }) => spec_parse_wav(audio@) is None || (
            spec_parse_wav(audio@) matches Some(h) && !spec_supported_depth(h)),
            Err(TranscriptionError::UnsupportedSampleRateError { sample_rate }) => spec_parse_wav(
                audio@,
            ) matches Some(h) && spec_supported_depth(h) && h.sample_rate != 16000
                && h.sample_rate < 2000 && sample_rate == h.sample_rate,
            Err(_) => false,
        },
{
    if is_valid_wav_format(audio) {
        return Ok(ConversionOutcome::AlreadyCanonical);
    }
    convert_audio_rust(audio)
}

/// Truncates the resampled stream to the planned length and encodes the
/// canonical container. The truncation removes the artifacts of the
/// zero-padded final chunk; when the resampler returned at least
/// `expected_len` samples the output holds exactly `expected_len`.
pub fn finish_resample(samples: &Vec<i16>, expected_len: usize) -> (out: Vec<u8>)
    requires
        44 + 2 * (expected_len as int) <= u32::MAX,
    ensures
        out@ == canonical_wav(
            samples@.take(vstd::math::min(samples@.len() as int, expected_len as int)),
        ),
        spec_is_canonical_format(out@),
{
    let n = samples.len();
    let m: usize = if n <= expected_len {
        n
    } else {
        expected_len
    };
    let mut kept: Vec<i16> = Vec::new();
    let mut k: usize = 0;
    while k < m
        invariant
            m <= samples@.len(),
            k <= m,
            kept@ == samples@.take(k as int),
        decreases m - k,
    {
        kept.push(samples[k]);
        proof {
            assert(kept@ =~= samples@.take(k as int + 1));
        }
        k += 1;
    }
    let out = encode_canonical_wav(&kept);
    proof {
        lemma_canonical_wav_parses(kept@);
    }
    out
}

/// Extracts the 16-bit samples of a WAV container (the form handed to
/// the inference engines). Zero-length audio yields an empty sequence,
/// not an error; containers that are not 16-bit integer PCM are errors.
pub fn extract_samples_from_wav(wav: &Vec<u8>) -> (r: Result<Vec<i16>, TranscriptionError>)
    ensures
        match r {
            Ok(samples) => spec_parse_wav(wav@) matches Some(h) && h.format_tag == 1
                && h.bits_per_sample == 16 && samples@ == crate::wav::samples_i16(
                wav@,
                h.data_off,
                h.data_len / 2,
            ),
            Err(TranscriptionError::AudioReadError { .. }) => match spec_parse_wav(wav@) {
                Some(h) => !(h.format_tag == 1 && h.bits_per_sample == 16),
                None => true,
            },
            Err(_) => false,
        },
{
    proof {
        lemma_parse_wav_valid(wav@);
    }
    let h = match parse_wav_header(wav) {
        Some(h) => h,
        None => {
            return Err(
                TranscriptionError::AudioReadError { message: "failed to parse WAV data".to_owned() },
            );
        },
    };
    let is_int = match h.spec.sample_format {
        WavSampleFormat::Int => true,
        WavSampleFormat::Float => false,
    };
    if !(is_int && h.spec.bits_per_sample == 16) {
        return Err(
            TranscriptionError::AudioReadError { message: "expected 16-bit integer PCM".to_owned() },
        );
    }
    proof {
        lemma_fundamental_div_mod(h.data_len as int, 2);
        vstd::arithmetic::div_mod::lemma_mod_division_less_than_divisor(h.data_len as int, 2);
    }
    Ok(decode_samples_i16(wav, h.data_off, h.data_len / 2))
}

/// Resampling length law: the planned output length is exactly the
/// rounded rational `n * 16000 / rate` -- within half a sample either
/// way -- and the finished container declares exactly that many samples
/// whenever the resampler returned at least that many.
pub proof fn lemma_resample_output_length(samples: Seq<i16>, n: int, rate: int)
    requires
        n >= 0,
        rate >= 2000,
        samples.len() >= spec_resample_len(n, rate),
        44 + 2 * spec_resample_len(n, rate) <= u32::MAX,
    ensures
        ({
            let e = spec_resample_len(n, rate);
            let out = canonical_wav(samples.take(e));
            &&& spec_parse_wav(out) matches Some(h) && h.data_len == 2 * e
            &&& 2 * rate * e <= 2 * (n * 16000) + rate
            &&& 2 * rate * e > 2 * (n * 16000) - rate
        }),
{
    let e = spec_resample_len(n, rate);
    lemma_resample_len_is_round(n, rate);
    lemma_resample_len_bound(n, rate);
    lemma_canonical_wav_parses(samples.take(e));
}

/// Every container the pure conversion emits is canonical: 16 kHz, one
/// channel, 16-bit integer PCM, whatever the source encoding and channel
/// count were.
pub proof fn lemma_normalized_output_canonical(samples: Seq<i16>)
    requires
        44 + 2 * samples.len() <= u32::MAX,
    ensures
        spec_is_canonical_format(canonical_wav(samples)),
{
    lemma_canonical_wav_parses(samples);
}

} // verus!


