//! The WAV sink: an append-only writer that accepts raw sample batches in
//! one of three encodings (16-bit signed, 16-bit unsigned offset-binary,
//! 32-bit float bit patterns) and produces a valid WAV container on
//! finalize, its header fields filled with the final byte counts.
//!
//! The sink accumulates sample bytes in memory; the session driver holds
//! it behind its own lock and writes the finalized container to disk.
//! The audio callback's whole per-frame duty — write the batch to the
//! sink in its native encoding, accumulate normalized samples into the
//! level window, emit loudness bars when the window fills — is the
//! `handle_frame_*` family at the end of this module.

use crate::levels::LevelWindow;
use crate::levels::spec_audio_levels;
use crate::normalize::q31_of_f32_bits;
use crate::normalize::q31_of_i16;
use crate::normalize::q31_of_u16;
use crate::normalize::q31_vec_of_f32_bits;
use crate::normalize::q31_vec_of_i16;
use crate::normalize::q31_vec_of_u16;
use crate::wav::SpecWavHeader;
use crate::wav::encode_wav_header;
use crate::wav::lemma_header_wav_parses;
use crate::wav::push_le32;
use crate::wav::push_sample_bytes_i16;
use crate::wav::sample_bytes_i16;
use crate::wav::spec_parse_wav;
use crate::wav::u32b;
use crate::wav::wav_header_bytes;
use vstd::prelude::*;

verus! {

/// The on-disk sample encoding a sink writes.
#[derive(Clone, Copy, Debug, PartialEq, Eq, Structural)]
pub enum SinkEncoding {
    /// 16-bit signed integer PCM (format tag 1).
    Int16,
    /// 32-bit IEEE float samples (format tag 3).
    Float32,
}

/// The container format tag of an encoding.
pub open spec fn sink_tag(e: SinkEncoding) -> int {
    if e is Int16 {
        1
    } else {
        3
    }
}

/// Bits per sample of an encoding.
pub open spec fn sink_bits(e: SinkEncoding) -> int {
    if e is Int16 {
        16
    } else {
        32
    }
}

/// An unsigned offset-binary 16-bit sample as the signed sample stored
/// in the container.
pub open spec fn i16_of_u16_offset(u: u16) -> i16 {
    (u - 32768) as i16
}

/// The little-endian byte image of 32-bit sample bit patterns.
pub open spec fn sample_bytes_u32(s: Seq<u32>) -> Seq<u8> {
    Seq::new(4 * s.len(), |i: int| u32b(s[i / 4] as int, i % 4))
}

/// The append-only WAV sink.
pub struct WavSink {
    pub sample_rate: u32,
    pub channels: u16,
    pub encoding: SinkEncoding,
    /// Sample payload bytes written so far.
    pub data: Vec<u8>,
    pub finalized: bool,
}

impl WavSink {
    /// Well-formedness: the header fields fit the container's 16- and
    /// 32-bit fields.
    pub open spec fn wf(&self) -> bool {
        &&& self.channels >= 1
        &&& self.sample_rate >= 1
        &&& (self.channels as int) * (sink_bits(self.encoding) / 8) <= 65535
        &&& (self.sample_rate as int) * ((self.channels as int) * (sink_bits(self.encoding) / 8))
            <= u32::MAX
    }

    /// Bytes of one interleaved frame.
    pub open spec fn block_align(&self) -> int {
        (self.channels as int) * (sink_bits(self.encoding) / 8)
    }

    /// A fresh sink for one recording session.
    pub fn new(sample_rate: u32, channels: u16, encoding: SinkEncoding) -> (s: WavSink)
        requires
            channels >= 1,
            sample_rate >= 1,
            (channels as int) * (if encoding is Int16 { 2int } else { 4int }) <= 65535,
            (sample_rate as int) * ((channels as int) * (if encoding is Int16 {
                2int
            } else {
                4int
            })) <= u32::MAX,
        ensures
            s.wf(),
            s.sample_rate == sample_rate,
            s.channels == channels,
            s.encoding == encoding,
            s.data@.len() == 0,
            !s.finalized,
    {
        WavSink { sample_rate, channels, encoding, data: Vec::new(), finalized: false }
    }

    /// Appends a batch of 16-bit signed samples in their native encoding.
    pub fn write_samples_i16(&mut self, samples: &Vec<i16>)
        requires
            old(self).encoding is Int16,
            !old(self).finalized,
            old(self).data@.len() + 2 * samples@.len() <= usize::MAX,
        ensures
            final(self).data@ == old(self).data@ + sample_bytes_i16(samples@),
            final(self).sample_rate == old(self).sample_rate,
            final(self).channels == old(self).channels,
            final(self).encoding == old(self).encoding,
            final(self).finalized == old(self).finalized,
    {
        push_sample_bytes_i16(&mut self.data, samples);
    }

    /// Appends a batch of unsigned offset-binary 16-bit samples,
    /// converting each to the signed sample the container stores.
    pub fn write_samples_u16(&mut self, samples: &Vec<u16>)
        requires
            old(self).encoding is Int16,
            !old(self).finalized,
            old(self).data@.len() + 2 * samples@.len() <= usize::MAX,
        ensures
            final(self).data@ == old(self).data@ + sample_bytes_i16(
                samples@.map(|k: int, u: u16| i16_of_u16_offset(u)),
            ),
            final(self).sample_rate == old(self).sample_rate,
            final(self).channels == old(self).channels,
            final(self).encoding == old(self).encoding,
            final(self).finalized == old(self).finalized,
    {
        let signed = i16_vec_from_u16_offset(samples);
        push_sample_bytes_i16(&mut self.data, &signed);
    }

    /// Appends a batch of 32-bit float samples given as raw bit patterns.
    pub fn write_samples_f32_bits(&mut self, samples: &Vec<u32>)
        requires
            old(self).encoding is Float32,
            !old(self).finalized,
            old(self).data@.len() + 4 * samples@.len() <= usize::MAX,
        ensures
            final(self).data@ == old(self).data@ + sample_bytes_u32(samples@),
            final(self).sample_rate == old(self).sample_rate,
            final(self).channels == old(self).channels,
            final(self).encoding == old(self).encoding,
            final(self).finalized == old(self).finalized,
    {
        let n = samples.len();
        let mut k: usize = 0;
        while k < n
            invariant
                n == samples@.len(),
                old(self).data@.len() + 4 * n <= usize::MAX,
                k <= n,
                self.data@ == old(self).data@ + sample_bytes_u32(samples@.take(k as int)),
                self.sample_rate == old(self).sample_rate,
                self.channels == old(self).channels,
                self.encoding == old(self).encoding,
                self.finalized == old(self).finalized,
            decreases n - k,
        {
            push_le32(&mut self.data, samples[k]);
            proof {
                assert(self.data@ =~= old(self).data@ + sample_bytes_u32(
                    samples@.take(k as int + 1),
                ));
            }
            k += 1;
        }
        proof {
            assert(samples@.take(n as int) =~= samples@);
        }
    }

    /// Finalizes the container: the 44-byte header with the final byte
    /// counts, followed by everything written. The result parses back to
    /// exactly the sink's format and payload length.
    pub fn finalize(&mut self) -> (out: Vec<u8>)
        requires
            old(self).wf(),
            !old(self).finalized,
            44 + old(self).data@.len() <= u32::MAX,
        ensures
            out@ == wav_header_bytes(
                sink_tag(old(self).encoding),
                old(self).channels as int,
                old(self).sample_rate as int,
                sink_bits(old(self).encoding),
                old(self).data@.len() as int,
            ) + old(self).data@,
            spec_parse_wav(out@) == Some(
                SpecWavHeader {
                    format_tag: sink_tag(old(self).encoding),
                    channels: old(self).channels as int,
                    sample_rate: old(self).sample_rate as int,
                    bits_per_sample: sink_bits(old(self).encoding),
                    data_off: 44,
                    data_len: old(self).data@.len() as int,
                },
            ),
            final(self).finalized,
            final(self).data@ == old(self).data@,
            final(self).sample_rate == old(self).sample_rate,
            final(self).channels == old(self).channels,
            final(self).encoding == old(self).encoding,
    {
        let tag: u16 = match self.encoding {
            SinkEncoding::Int16 => 1,
            SinkEncoding::Float32 => 3,
        };
        let bits: u16 = match self.encoding {
            SinkEncoding::Int16 => 16,
            SinkEncoding::Float32 => 32,
        };
        let mut out = encode_wav_header(
            tag,
            self.channels,
            self.sample_rate,
            bits,
            self.data.len() as u32,
        );
        let n = self.data.len();
        let mut k: usize = 0;
        while k < n
            invariant
                n == self.data@.len(),
                out@.len() == 44 + k,
                k <= n,
                out@ == wav_header_bytes(
                    sink_tag(self.encoding),
                    self.channels as int,
                    self.sample_rate as int,
                    sink_bits(self.encoding),
                    n as int,
                ) + self.data@.take(k as int),
            decreases n - k,
        {
            let byte = self.data[k];
            out.push(byte);
            proof {
                assert(out@ =~= wav_header_bytes(
                    sink_tag(self.encoding),
                    self.channels as int,
                    self.sample_rate as int,
                    sink_bits(self.encoding),
                    n as int,
                ) + self.data@.take(k as int + 1));
            }
            k += 1;
        }
        proof {
            assert(self.data@.take(n as int) =~= self.data@);
            lemma_header_wav_parses(
                sink_tag(self.encoding),
                self.channels as int,
                self.sample_rate as int,
                sink_bits(self.encoding),
                self.data@,
            );
        }
        self.finalized = true;
        out
    }

    /// The sink's metadata: sample rate, channel count, and the number of
    /// whole frames written so far.
    pub fn get_metadata(&self) -> (r: (u32, u16, u64))
        requires
            self.wf(),
    ensures
            r.0 == self.sample_rate,
            r.1 == self.channels,
            r.2 == self.data@.len() as int / self.block_align(),
    {
        let bytes_per_sample: u64 = match self.encoding {
            SinkEncoding::Int16 => 2,
            SinkEncoding::Float32 => 4,
        };
        let block_align: u64 = (self.channels as u64) * bytes_per_sample;
        let frames: u64 = (self.data.len() as u64) / block_align;
        (self.sample_rate, self.channels, frames)
    }
}

/// Converts a batch of unsigned offset-binary samples to signed samples.
fn i16_vec_from_u16_offset(v: &Vec<u16>) -> (r: Vec<i16>)
    ensures
        r@ == v@.map(|k: int, u: u16| i16_of_u16_offset(u)),
{
    let mut r: Vec<i16> = Vec::new();
    let mut k: usize = 0;
    let n = v.len();
    while k < n
        invariant
            n == v@.len(),
            k <= n,
            r@.len() == k,
            forall|j: int| 0 <= j < k ==> r@[j] == i16_of_u16_offset(v@[j]),
        decreases n - k,
    {
        let u = v[k];
        let s: i16 = ((u as i32) - 32768) as i16;
        r.push(s);
        k += 1;
    }
    proof {
        assert(r@ =~= v@.map(|k: int, u: u16| i16_of_u16_offset(u)));
    }
    r
}

/// One audio-callback step for a 16-bit signed frame: the batch is
/// written to the sink in its native encoding and accumulated, as
/// normalized samples, into the level window; when the window fills, the
/// nine loudness bars are returned for emission.
pub fn handle_frame_i16(sink: &mut WavSink, window: &mut LevelWindow, frame: &Vec<i16>) -> (levels:
    Option<Vec<u32>>)
    requires
        old(sink).encoding is Int16,
        !old(sink).finalized,
        old(sink).data@.len() + 2 * frame@.len() <= usize::MAX,
        old(window).samples@.len() + frame@.len() <= usize::MAX,
    ensures
        final(sink).data@ == old(sink).data@ + sample_bytes_i16(frame@),
        final(sink).sample_rate == old(sink).sample_rate,
        final(sink).channels == old(sink).channels,
        final(sink).encoding == old(sink).encoding,
        final(sink).finalized == old(sink).finalized,
        ({
            let joined = old(window).samples@ + frame@.map(|k: int, x: i16| (q31_of_i16(x)) as i32);
            if joined.len() >= 512 {
                levels matches Some(l) && l@ == spec_audio_levels(joined)
                    && final(window).samples@.len() == 0
            } else {
                levels is None && final(window).samples@ == joined
            }
        }),
{
    sink.write_samples_i16(frame);
    let q = q31_vec_of_i16(frame);
    window.accumulate_frame(&q)
}

/// One audio-callback step for an unsigned 16-bit frame.
pub fn handle_frame_u16(sink: &mut WavSink, window: &mut LevelWindow, frame: &Vec<u16>) -> (levels:
    Option<Vec<u32>>)
    requires
        old(sink).encoding is Int16,
        !old(sink).finalized,
        old(sink).data@.len() + 2 * frame@.len() <= usize::MAX,
        old(window).samples@.len() + frame@.len() <= usize::MAX,
    ensures
        final(sink).data@ == old(sink).data@ + sample_bytes_i16(
            frame@.map(|k: int, u: u16| i16_of_u16_offset(u)),
        ),
        final(sink).sample_rate == old(sink).sample_rate,
        final(sink).channels == old(sink).channels,
        final(sink).encoding == old(sink).encoding,
        final(sink).finalized == old(sink).finalized,
        ({
            let joined = old(window).samples@ + frame@.map(|k: int, x: u16| (q31_of_u16(x)) as i32);
            if joined.len() >= 512 {
                levels matches Some(l) && l@ == spec_audio_levels(joined)
                    && final(window).samples@.len() == 0
            } else {
                levels is None && final(window).samples@ == joined
            }
        }),
{
    sink.write_samples_u16(frame);
    let q = q31_vec_of_u16(frame);
    window.accumulate_frame(&q)
}

/// One audio-callback step for a 32-bit float frame given as bits.
pub fn handle_frame_f32_bits(sink: &mut WavSink, window: &mut LevelWindow, frame: &Vec<u32>) -> (levels:
    Option<Vec<u32>>)
    requires
        old(sink).encoding is Float32,
        !old(sink).finalized,
        old(sink).data@.len() + 4 * frame@.len() <= usize::MAX,
        old(window).samples@.len() + frame@.len() <= usize::MAX,
    ensures
        final(sink).data@ == old(sink).data@ + sample_bytes_u32(frame@),
        final(sink).sample_rate == old(sink).sample_rate,
        final(sink).channels == old(sink).channels,
        final(sink).encoding == old(sink).encoding,
        final(sink).finalized == old(sink).finalized,
        ({
            let joined = old(window).samples@ + frame@.map(
                |k: int, x: u32| (q31_of_f32_bits(x)) as i32,
            );
            if joined.len() >= 512 {
                levels matches Some(l) && l@ == spec_audio_levels(joined)
                    && final(window).samples@.len() == 0
            } else {
                levels is None && final(window).samples@ == joined
            }
        }),
{
    sink.write_samples_f32_bits(frame);
    let q = q31_vec_of_f32_bits(frame);
    window.accumulate_frame(&q)
}

} // verus!
