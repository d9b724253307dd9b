//! WAV (RIFF/WAVE) container codec.
//!
//! The parser walks the chunk list of a RIFF/WAVE file, reads the `fmt `
//! chunk and locates the `data` chunk; the encoder produces the canonical
//! container used throughout the pipeline: 16 kHz, mono, 16-bit signed PCM.
//! Both directions are specified against one spec-level parse function, so
//! the encoder is proved to produce bytes that parse back to exactly the
//! canonical format and samples.

use vstd::prelude::*;

verus! {

/// Sample encoding declared by a WAV `fmt ` chunk.
#[derive(Clone, Copy, Debug, PartialEq, Eq, Structural)]
pub enum WavSampleFormat {
    /// Integer PCM (format tag 1).
    Int,
    /// IEEE 754 float samples (format tag 3).
    Float,
}

/// The fields of a parsed WAV header that the pipeline reads.
#[derive(Clone, Copy, Debug, PartialEq, Eq, Structural)]
pub struct WavSpec {
    pub channels: u16,
    pub sample_rate: u32,
    pub bits_per_sample: u16,
    pub sample_format: WavSampleFormat,
}

/// A parsed WAV file: its format plus where the sample payload lies.
#[derive(Clone, Copy, Debug, PartialEq, Eq, Structural)]
pub struct WavHeader {
    pub spec: WavSpec,
    /// Byte offset of the first sample in the file.
    pub data_off: usize,
    /// Byte length of the sample payload.
    pub data_len: usize,
}

/// Spec-level counterpart of `WavHeader`, over unbounded integers.
pub struct SpecWavHeader {
    pub format_tag: int,
    pub channels: int,
    pub sample_rate: int,
    pub bits_per_sample: int,
    pub data_off: int,
    pub data_len: int,
}

/// Little-endian 16-bit value at byte offset `i`.
pub open spec fn le16(b: Seq<u8>, i: int) -> int {
    b[i] + 256 * b[i + 1]
}

/// Little-endian 32-bit value at byte offset `i`.
pub open spec fn le32(b: Seq<u8>, i: int) -> int {
    b[i] + 256 * b[i + 1] + 65536 * b[i + 2] + 16777216 * b[i + 3]
}

/// The ASCII bytes of "RIFF".
pub open spec fn riff_tag() -> Seq<u8> {
    seq![0x52u8, 0x49u8, 0x46u8, 0x46u8]
}

/// The ASCII bytes of "WAVE".
pub open spec fn wave_tag() -> Seq<u8> {
    seq![0x57u8, 0x41u8, 0x56u8, 0x45u8]
}

/// The ASCII bytes of "fmt ".
pub open spec fn fmt_tag() -> Seq<u8> {
    seq![0x66u8, 0x6du8, 0x74u8, 0x20u8]
}

/// The ASCII bytes of "data".
pub open spec fn data_tag() -> Seq<u8> {
    seq![0x64u8, 0x61u8, 0x74u8, 0x61u8]
}

/// Scans the chunk list from offset `o` for the first chunk whose
/// four-byte identifier is `id`, skipping other chunks (each padded to an
/// even length, as RIFF requires). Returns the offset of the chunk's
/// payload; the chunk's size must fit inside the file.
pub open spec fn scan_chunk(b: Seq<u8>, o: int, id: Seq<u8>) -> Option<int>
    decreases b.len() - o,
{
    if !(0 <= o && o + 8 <= b.len()) {
        None
    } else if b.subrange(o, o + 4) == id {
        if o + 8 + le32(b, o + 4) <= b.len() {
            Some(o + 8)
        } else {
            None
        }
    } else {
        let sz = le32(b, o + 4);
        let next = o + 8 + sz + (sz % 2);
        if next + 8 <= b.len() {
            scan_chunk(b, next, id)
        } else {
            None
        }
    }
}

/// Whether the fields read from a `fmt ` chunk describe a file the
/// pipeline can hold: integer or float samples, at least one channel, a
/// positive rate, and 32-bit samples when they are floats.
pub open spec fn spec_fmt_fields_valid(tag: int, channels: int, rate: int, bits: int) -> bool {
    &&& (tag == 1 || tag == 3)
    &&& channels >= 1
    &&& rate >= 1
    &&& bits >= 1
    &&& (tag == 3 ==> bits == 32)
}

/// The effective format tag of a `fmt ` chunk: the tag itself, or, for
/// the extensible format (0xFFFE), the first two bytes of the sub-format
/// identifier. A too-short extensible chunk yields an invalid tag.
pub open spec fn effective_format_tag(b: Seq<u8>, f: int, fmt_size: int) -> int {
    if le16(b, f) == 0xFFFE {
        if fmt_size >= 40 {
            le16(b, f + 24)
        } else {
            -1
        }
    } else {
        le16(b, f)
    }
}

/// Spec-level parse of a RIFF/WAVE file: the RIFF/WAVE magic, then a
/// `fmt ` chunk of at least 16 bytes, then a `data` chunk after it.
pub open spec fn spec_parse_wav(b: Seq<u8>) -> Option<SpecWavHeader> {
    if b.len() < 12 || b.subrange(0, 4) != riff_tag() || b.subrange(8, 12) != wave_tag() {
        None
    } else {
        match scan_chunk(b, 12, fmt_tag()) {
            None => None,
            Some(f) => {
                let fmt_size = le32(b, f - 4);
                if fmt_size < 16 {
                    None
                } else {
                    let tag = effective_format_tag(b, f, fmt_size);
                    let channels = le16(b, f + 2);
                    let rate = le32(b, f + 4);
                    let bits = le16(b, f + 14);
                    if !spec_fmt_fields_valid(tag, channels, rate, bits) {
                        None
                    } else {
                        match scan_chunk(b, f + fmt_size + fmt_size % 2, data_tag()) {
                            None => None,
                            Some(d) => Some(
                                SpecWavHeader {
                                    format_tag: tag,
                                    channels: channels,
                                    sample_rate: rate,
                                    bits_per_sample: bits,
                                    data_off: d,
                                    data_len: le32(b, d - 4),
                                },
                            ),
                        }
                    }
                }
            },
        }
    }
}

/// The exec header seen as a spec header.
pub open spec fn spec_of_header(h: WavHeader) -> SpecWavHeader {
    SpecWavHeader {
        format_tag: if h.spec.sample_format is Int {
            1
        } else {
            3
        },
        channels: h.spec.channels as int,
        sample_rate: h.spec.sample_rate as int,
        bits_per_sample: h.spec.bits_per_sample as int,
        data_off: h.data_off as int,
        data_len: h.data_len as int,
    }
}

/// Whether the exec result mirrors the spec-level parse.
pub open spec fn parse_result_matches(r: Option<WavHeader>, s: Option<SpecWavHeader>) -> bool {
    match r {
        Some(h) => s == Some(spec_of_header(h)),
        None => s is None,
    }
}

/// Reads the little-endian 16-bit value at offset `i`.
pub fn read_le16(b: &Vec<u8>, i: usize) -> (r: u16)
    requires
        i + 2 <= b@.len(),
    ensures
        r == le16(b@, i as int),
{
    let n = b.len();
    b[i] as u16 + 256 * (b[i + 1] as u16)
}

/// Reads the little-endian 32-bit value at offset `i`.
pub fn read_le32(b: &Vec<u8>, i: usize) -> (r: u32)
    requires
        i + 4 <= b@.len(),
    ensures
        r == le32(b@, i as int),
{
    let n = b.len();
    b[i] as u32 + 256 * (b[i + 1] as u32) + 65536 * (b[i + 2] as u32) + 16777216 * (b[i + 3]
        as u32)
}

/// True when the four bytes at offset `o` are the chunk identifier
/// `(t0, t1, t2, t3)`.
fn tag_at(b: &Vec<u8>, o: usize, t0: u8, t1: u8, t2: u8, t3: u8) -> (r: bool)
    requires
        o + 4 <= b@.len(),
    ensures
        r == (b@.subrange(o as int, o as int + 4) == seq![t0, t1, t2, t3]),
{
    let n = b.len();
    let hit = b[o] == t0 && b[o + 1] == t1 && b[o + 2] == t2 && b[o + 3] == t3;
    proof {
        if hit {
            assert(b@.subrange(o as int, o as int + 4) =~= seq![t0, t1, t2, t3]);
        } else {
            assert(b@.subrange(o as int, o as int + 4) != seq![t0, t1, t2, t3]) by {
                if b@.subrange(o as int, o as int + 4) == seq![t0, t1, t2, t3] {
                    assert(b@.subrange(o as int, o as int + 4)[0] == t0);
                    assert(b@.subrange(o as int, o as int + 4)[1] == t1);
                    assert(b@.subrange(o as int, o as int + 4)[2] == t2);
                    assert(b@.subrange(o as int, o as int + 4)[3] == t3);
                }
            }
        }
    }
    hit
}

/// Walks the chunk list from `start`, implementing `scan_chunk` for the
/// identifier `(t0, t1, t2, t3)`.
fn scan_chunk_exec(b: &Vec<u8>, start: usize, t0: u8, t1: u8, t2: u8, t3: u8) -> (r: Option<
    usize,
>)
    ensures
        match r {
            Some(p) => scan_chunk(b@, start as int, seq![t0, t1, t2, t3]) == Some(p as int),
            None => scan_chunk(b@, start as int, seq![t0, t1, t2, t3]) is None,
        },
{
    let ghost id = seq![t0, t1, t2, t3];
    let mut o = start;
    loop
        invariant
            id == seq![t0, t1, t2, t3],
            scan_chunk(b@, start as int, id) == scan_chunk(b@, o as int, id),
        decreases b@.len() - o,
    {
        if b.len() < 8 || o > b.len() - 8 {
            return None;
        }
        if tag_at(b, o, t0, t1, t2, t3) {
            let sz = read_le32(b, o + 4);
            proof {
                assert(0 <= o as int && o as int + 8 <= b@.len());
                assert(b@.subrange(o as int, o as int + 4) == id);
                assert(scan_chunk(b@, o as int, id) == if o + 8 + le32(b@, o as int + 4)
                    <= b@.len() {
                    Some(o as int + 8)
                } else {
                    None::<int>
                });
            }
            if sz as u64 <= (b.len() - (o + 8)) as u64 {
                return Some(o + 8);
            } else {
                return None;
            }
        }
        let sz = read_le32(b, o + 4);
        let next128: u128 = o as u128 + 8 + sz as u128 + (sz as u128 % 2);
        if next128 + 8 <= b.len() as u128 {
            o = next128 as usize;
        } else {
            return None;
        }
    }
}

/// Parses the bytes of a WAV file, mirroring `spec_parse_wav`: `None`
/// exactly when the bytes are not a RIFF/WAVE file whose `fmt ` and
/// `data` chunks the pipeline can hold.
pub fn parse_wav_header(b: &Vec<u8>) -> (r: Option<WavHeader>)
    ensures
        parse_result_matches(r, spec_parse_wav(b@)),
{
    if b.len() < 12 {
        return None;
    }
    if !tag_at(b, 0, 0x52, 0x49, 0x46, 0x46) {
        return None;
    }
    if !tag_at(b, 8, 0x57, 0x41, 0x56, 0x45) {
        return None;
    }
    let f = match scan_chunk_exec(b, 12, 0x66, 0x6d, 0x74, 0x20) {
        Some(f) => f,
        None => {
            return None;
        },
    };
    proof {
        scan_chunk_in_bounds(b@, 12, fmt_tag());
    }
    let fmt_size = read_le32(b, f - 4);
    if fmt_size < 16 {
        return None;
    }
    let raw_tag = read_le16(b, f);
    let tag: u16 = if raw_tag == 0xFFFE {
        if fmt_size >= 40 {
            read_le16(b, f + 24)
        } else {
            return None;
        }
    } else {
        raw_tag
    };
    proof {
        assert(tag == effective_format_tag(b@, f as int, fmt_size as int));
    }
    let channels = read_le16(b, f + 2);
    let rate = read_le32(b, f + 4);
    let bits = read_le16(b, f + 14);
    let fields_ok = (tag == 1 || tag == 3) && channels >= 1 && rate >= 1 && bits >= 1 && (tag != 3
        || bits == 32);
    if !fields_ok {
        return None;
    }
    let next128: u128 = f as u128 + fmt_size as u128 + (fmt_size as u128 % 2);
    if next128 > b.len() as u128 {
        // No data chunk can start at or beyond the end of the file.
        proof {
            scan_chunk_none_out_of_range(b@, f + fmt_size + fmt_size % 2, data_tag());
        }
        return None;
    }
    let d = match scan_chunk_exec(b, next128 as usize, 0x64, 0x61, 0x74, 0x61) {
        Some(d) => d,
        None => {
            return None;
        },
    };
    proof {
        scan_chunk_in_bounds(b@, f + fmt_size + fmt_size % 2, data_tag());
    }
    let data_len = read_le32(b, d - 4);
    Some(
        WavHeader {
            spec: WavSpec {
                channels,
                sample_rate: rate,
                bits_per_sample: bits,
                sample_format: if tag == 1 {
                    WavSampleFormat::Int
                } else {
                    WavSampleFormat::Float
                },
            },
            data_off: d,
            data_len: data_len as usize,
        },
    )
}

/// A found chunk lies inside the file: its payload offset is at least 8
/// past the scan start, and the declared size fits before the end.
pub proof fn scan_chunk_in_bounds(b: Seq<u8>, o: int, id: Seq<u8>)
    ensures
        match scan_chunk(b, o, id) {
            Some(p) => {
                &&& o + 8 <= p
                &&& p + le32(b, p - 4) <= b.len()
                &&& 0 <= le32(b, p - 4)
                &&& b.subrange(p - 8, p - 4) == id
            },
            None => true,
        },
    decreases b.len() - o,
{
    if 0 <= o && o + 8 <= b.len() {
        if b.subrange(o, o + 4) == id {
        } else {
            let sz = le32(b, o + 4);
            let next = o + 8 + sz + (sz % 2);
            if next + 8 <= b.len() {
                scan_chunk_in_bounds(b, next, id);
            }
        }
    }
}

/// Scanning from beyond the end of the file finds nothing.
pub proof fn scan_chunk_none_out_of_range(b: Seq<u8>, o: int, id: Seq<u8>)
    requires
        o + 8 > b.len(),
    ensures
        scan_chunk(b, o, id) is None,
{
}

/// The 16-bit signed sample stored little-endian at byte offset `i`.
pub open spec fn sample_i16_at(b: Seq<u8>, i: int) -> i16 {
    let v = le16(b, i);
    if v >= 32768 {
        (v - 65536) as i16
    } else {
        v as i16
    }
}

/// The 32-bit signed sample stored little-endian at byte offset `i`.
pub open spec fn sample_i32_at(b: Seq<u8>, i: int) -> i32 {
    let v = le32(b, i);
    if v >= 0x80000000 {
        (v - 0x100000000) as i32
    } else {
        v as i32
    }
}

/// The `count` 16-bit samples stored consecutively from `off`.
pub open spec fn samples_i16(b: Seq<u8>, off: int, count: int) -> Seq<i16> {
    Seq::new(count as nat, |k: int| sample_i16_at(b, off + 2 * k))
}

/// The `count` 32-bit samples stored consecutively from `off`.
pub open spec fn samples_i32(b: Seq<u8>, off: int, count: int) -> Seq<i32> {
    Seq::new(count as nat, |k: int| sample_i32_at(b, off + 4 * k))
}

/// The `count` 32-bit sample bit patterns stored consecutively from `off`
/// (used for IEEE float samples, which the pipeline carries as raw bits).
pub open spec fn sample_bits_u32(b: Seq<u8>, off: int, count: int) -> Seq<u32> {
    Seq::new(count as nat, |k: int| le32(b, off + 4 * k) as u32)
}

/// Reads `count` 16-bit signed samples starting at byte offset `off`.
pub fn decode_samples_i16(b: &Vec<u8>, off: usize, count: usize) -> (r: Vec<i16>)
    requires
        off + 2 * count <= b@.len(),
    ensures
        r@ == samples_i16(b@, off as int, count as int),
{
    let n = b.len();
    let mut r: Vec<i16> = Vec::new();
    let mut k: usize = 0;
    while k < count
        invariant
            off + 2 * count <= b@.len(),
            b@.len() <= usize::MAX,
            k <= count,
            r@ == samples_i16(b@, off as int, k as int),
        decreases count - k,
    {
        let v = read_le16(b, off + 2 * k);
        let s: i16 = if v >= 32768 {
            ((v as i32) - 65536) as i16
        } else {
            v as i16
        };
        r.push(s);
        proof {
            assert(r@ =~= samples_i16(b@, off as int, k as int + 1));
        }
        k += 1;
    }
    r
}

/// Reads `count` 32-bit signed samples starting at byte offset `off`.
pub fn decode_samples_i32(b: &Vec<u8>, off: usize, count: usize) -> (r: Vec<i32>)
    requires
        off + 4 * count <= b@.len(),
    ensures
        r@ == samples_i32(b@, off as int, count as int),
{
    let n = b.len();
    let mut r: Vec<i32> = Vec::new();
    let mut k: usize = 0;
    while k < count
        invariant
            off + 4 * count <= b@.len(),
            b@.len() <= usize::MAX,
            k <= count,
            r@ == samples_i32(b@, off as int, k as int),
        decreases count - k,
    {
        let v = read_le32(b, off + 4 * k);
        let s: i32 = if v >= 0x80000000 {
            ((v as i64) - 0x100000000) as i32
        } else {
            v as i32
        };
        r.push(s);
        proof {
            assert(r@ =~= samples_i32(b@, off as int, k as int + 1));
        }
        k += 1;
    }
    r
}

/// Reads `count` 32-bit sample bit patterns starting at byte offset `off`.
pub fn decode_sample_bits(b: &Vec<u8>, off: usize, count: usize) -> (r: Vec<u32>)
    requires
        off + 4 * count <= b@.len(),
    ensures
        r@ == sample_bits_u32(b@, off as int, count as int),
{
    let n = b.len();
    let mut r: Vec<u32> = Vec::new();
    let mut k: usize = 0;
    while k < count
        invariant
            off + 4 * count <= b@.len(),
            b@.len() <= usize::MAX,
            k <= count,
            r@ == sample_bits_u32(b@, off as int, k as int),
        decreases count - k,
    {
        let v = read_le32(b, off + 4 * k);
        r.push(v);
        proof {
            assert(r@ =~= sample_bits_u32(b@, off as int, k as int + 1));
        }
        k += 1;
    }
    r
}

/// The `k`-th little-endian byte of `x` (`k` in 0..4).
pub open spec fn u32b(x: int, k: int) -> u8 {
    if k == 0 {
        (x % 256) as u8
    } else if k == 1 {
        ((x / 256) % 256) as u8
    } else if k == 2 {
        ((x / 65536) % 256) as u8
    } else {
        ((x / 16777216) % 256) as u8
    }
}

/// A 16-bit signed sample as its unsigned two's-complement image.
pub open spec fn u16_of_i16(v: i16) -> int {
    if v >= 0 {
        v as int
    } else {
        v as int + 65536
    }
}

/// Recomposing a 16-bit value from its two little-endian bytes.
pub proof fn lemma_le16_recompose(x: int)
    requires
        0 <= x < 65536,
    ensures
        u32b(x, 0) + 256 * u32b(x, 1) == x,
{
    vstd::arithmetic::div_mod::lemma_fundamental_div_mod(x, 256);
}

/// Recomposing a 32-bit value from its four little-endian bytes.
pub proof fn lemma_le32_recompose(x: int)
    requires
        0 <= x < 0x100000000,
    ensures
        u32b(x, 0) + 256 * u32b(x, 1) + 65536 * u32b(x, 2) + 16777216 * u32b(x, 3) == x,
{
    vstd::arithmetic::div_mod::lemma_fundamental_div_mod(x, 256);
    vstd::arithmetic::div_mod::lemma_fundamental_div_mod(x / 256, 256);
    vstd::arithmetic::div_mod::lemma_fundamental_div_mod(x / 65536, 256);
    assert((x / 256) / 256 == x / 65536) by {
        vstd::arithmetic::div_mod::lemma_div_denominator(x, 256, 256);
    }
    assert((x / 65536) / 256 == x / 16777216) by {
        vstd::arithmetic::div_mod::lemma_div_denominator(x, 65536, 256);
    }
    assert(x / 16777216 < 256) by {
        vstd::arithmetic::div_mod::lemma_div_is_ordered(x, 0xffffffff, 16777216);
    }
}

/// One byte of the 44-byte WAV header for the given format fields and
/// sample-payload length.
pub open spec fn header_byte(tag: int, channels: int, rate: int, bits: int, data_len: int, i: int) -> u8 {
    let block_align = channels * (bits / 8);
    let byte_rate = rate * block_align;
    if i < 4 {
        riff_tag()[i]
    } else if i < 8 {
        u32b(36 + data_len, i - 4)
    } else if i < 12 {
        wave_tag()[i - 8]
    } else if i < 16 {
        fmt_tag()[i - 12]
    } else if i < 20 {
        u32b(16, i - 16)
    } else if i < 22 {
        u32b(tag, i - 20)
    } else if i < 24 {
        u32b(channels, i - 22)
    } else if i < 28 {
        u32b(rate, i - 24)
    } else if i < 32 {
        u32b(byte_rate, i - 28)
    } else if i < 34 {
        u32b(block_align, i - 32)
    } else if i < 36 {
        u32b(bits, i - 34)
    } else if i < 40 {
        data_tag()[i - 36]
    } else {
        u32b(data_len, i - 40)
    }
}

/// The 44-byte WAV header for the given format fields.
pub open spec fn wav_header_bytes(tag: int, channels: int, rate: int, bits: int, data_len: int) -> Seq<u8> {
    Seq::new(44, |i: int| header_byte(tag, channels, rate, bits, data_len, i))
}

/// The little-endian byte image of a sequence of 16-bit samples.
pub open spec fn sample_bytes_i16(s: Seq<i16>) -> Seq<u8> {
    Seq::new(
        2 * s.len(),
        |i: int|
            if i % 2 == 0 {
                u32b(u16_of_i16(s[i / 2]), 0)
            } else {
                u32b(u16_of_i16(s[i / 2]), 1)
            },
    )
}

/// The canonical container the pipeline produces: 16 kHz, mono, 16-bit
/// signed integer PCM, one `fmt ` chunk followed by one `data` chunk.
pub open spec fn canonical_wav(samples: Seq<i16>) -> Seq<u8> {
    wav_header_bytes(1, 1, 16000, 16, 2 * samples.len() as int) + sample_bytes_i16(samples)
}

/// Appends the two little-endian bytes of `x`.
pub fn push_le16(out: &mut Vec<u8>, x: u16)
    ensures
        final(out)@ == old(out)@ + seq![u32b(x as int, 0), u32b(x as int, 1)],
{
    out.push((x % 256) as u8);
    out.push((x / 256) as u8);
    proof {
        assert(final(out)@ =~= old(out)@ + seq![u32b(x as int, 0), u32b(x as int, 1)]);
    }
}

/// Appends the four little-endian bytes of `x`.
pub fn push_le32(out: &mut Vec<u8>, x: u32)
    ensures
        final(out)@ == old(out)@ + seq![
            u32b(x as int, 0),
            u32b(x as int, 1),
            u32b(x as int, 2),
            u32b(x as int, 3),
        ],
{
    out.push((x % 256) as u8);
    out.push(((x / 256) % 256) as u8);
    out.push(((x / 65536) % 256) as u8);
    out.push(((x / 16777216) % 256) as u8);
    proof {
        assert(final(out)@ =~= old(out)@ + seq![
            u32b(x as int, 0),
            u32b(x as int, 1),
            u32b(x as int, 2),
            u32b(x as int, 3),
        ]);
    }
}

/// Writes the 44-byte WAV header for the given fields.
#[verifier::rlimit(100)]
pub fn encode_wav_header(tag: u16, channels: u16, rate: u32, bits: u16, data_len: u32) -> (r: Vec<
    u8,
>)
    requires
        channels * (bits / 8) <= 65535,
        rate * (channels as int * (bits as int / 8)) <= u32::MAX,
        36 + data_len <= u32::MAX,
    ensures
        r@ == wav_header_bytes(tag as int, channels as int, rate as int, bits as int, data_len as int),
{
    let block_align: u16 = channels * (bits / 8);
    let byte_rate: u32 = rate * (block_align as u32);
    let mut r: Vec<u8> = Vec::new();
    r.push(0x52);
    r.push(0x49);
    r.push(0x46);
    r.push(0x46);
    push_le32(&mut r, 36 + data_len);
    r.push(0x57);
    r.push(0x41);
    r.push(0x56);
    r.push(0x45);
    r.push(0x66);
    r.push(0x6d);
    r.push(0x74);
    r.push(0x20);
    push_le32(&mut r, 16);
    push_le16(&mut r, tag);
    push_le16(&mut r, channels);
    push_le32(&mut r, rate);
    push_le32(&mut r, byte_rate);
    push_le16(&mut r, block_align);
    push_le16(&mut r, bits);
    r.push(0x64);
    r.push(0x61);
    r.push(0x74);
    r.push(0x61);
    push_le32(&mut r, data_len);
    proof {
        assert(r@ =~= wav_header_bytes(
            tag as int,
            channels as int,
            rate as int,
            bits as int,
            data_len as int,
        ));
    }
    r
}

/// Appends the little-endian byte image of the samples.
pub fn push_sample_bytes_i16(out: &mut Vec<u8>, samples: &Vec<i16>)
    requires
        old(out)@.len() + 2 * samples@.len() <= usize::MAX,
    ensures
        final(out)@ == old(out)@ + sample_bytes_i16(samples@),
{
    let mut k: usize = 0;
    let n = samples.len();
    while k < n
        invariant
            n == samples@.len(),
            k <= n,
            old(out)@.len() + 2 * n <= usize::MAX,
            out@ == old(out)@ + sample_bytes_i16(samples@.take(k as int)),
        decreases n - k,
    {
        let v = samples[k];
        let u: u16 = if v >= 0 {
            v as u16
        } else {
            ((v as i32) + 65536) as u16
        };
        out.push((u % 256) as u8);
        out.push((u / 256) as u8);
        proof {
            assert(u == u16_of_i16(samples@[k as int]));
            assert(out@ =~= old(out)@ + sample_bytes_i16(samples@.take(k as int + 1)));
        }
        k += 1;
    }
    proof {
        assert(samples@.take(n as int) =~= samples@);
    }
}

/// Encodes samples as the canonical 16 kHz / mono / 16-bit container.
pub fn encode_canonical_wav(samples: &Vec<i16>) -> (r: Vec<u8>)
    requires
        44 + 2 * samples@.len() <= u32::MAX,
    ensures
        r@ == canonical_wav(samples@),
{
    let data_len: u32 = 2 * (samples.len() as u32);
    let mut r = encode_wav_header(1, 1, 16000, 16, data_len);
    push_sample_bytes_i16(&mut r, samples);
    r
}



/// The canonical header as a parsed spec-level header.
pub open spec fn canonical_spec_header(n: int) -> SpecWavHeader {
    SpecWavHeader {
        format_tag: 1,
        channels: 1,
        sample_rate: 16000,
        bits_per_sample: 16,
        data_off: 44,
        data_len: 2 * n,
    }
}

/// Whether the bytes parse as a WAV file already in the canonical format:
/// 16 kHz, mono, 16-bit integer PCM.
pub open spec fn spec_is_canonical_format(b: Seq<u8>) -> bool {
    match spec_parse_wav(b) {
        Some(h) => h.format_tag == 1 && h.channels == 1 && h.sample_rate == 16000
            && h.bits_per_sample == 16,
        None => false,
    }
}

/// Round trip of the canonical encoder through the parser: the encoded
/// container parses back to exactly the canonical format, and its payload
/// decodes to exactly the samples that were encoded.
pub proof fn lemma_canonical_wav_parses(s: Seq<i16>)
    requires
        44 + 2 * s.len() <= u32::MAX,
    ensures
        spec_parse_wav(canonical_wav(s)) == Some(canonical_spec_header(s.len() as int)),
        samples_i16(canonical_wav(s), 44, s.len() as int) == s,
        spec_is_canonical_format(canonical_wav(s)),
{
    let b = canonical_wav(s);
    let n = s.len() as int;
    assert(b.len() == 44 + 2 * n);
    assert forall|i: int| 0 <= i < 44 implies b[i] == header_byte(1, 1, 16000, 16, 2 * n, i) by {}
    assert(b.subrange(0, 4) =~= riff_tag());
    assert(b.subrange(8, 12) =~= wave_tag());
    assert(b.subrange(12, 16) =~= fmt_tag());
    assert(le32(b, 16) == 16);
    assert(scan_chunk(b, 12, fmt_tag()) == Some(20int));
    assert(le16(b, 20) == 1);
    assert(le16(b, 22) == 1);
    assert(le32(b, 24) == 16000);
    assert(le16(b, 34) == 16);
    assert(b.subrange(36, 40) =~= data_tag());
    assert(le32(b, 40) == 2 * n) by {
        lemma_le32_recompose(2 * n);
    }
    assert(scan_chunk(b, 36, data_tag()) == Some(44int));
    assert(spec_parse_wav(b) == Some(canonical_spec_header(n)));
    assert forall|k: int| 0 <= k < n implies sample_i16_at(b, 44 + 2 * k) == s[k] by {
        let v = s[k];
        let x = u16_of_i16(v);
        assert(b[44 + 2 * k] == u32b(x, 0));
        assert(b[44 + 2 * k + 1] == u32b(x, 1));
        lemma_le16_recompose(x);
        assert(le16(b, 44 + 2 * k) == x);
    }
    assert(samples_i16(b, 44, n) =~= s);
}

/// Facts every successful parse carries: the header fields passed
/// validation and the sample payload lies inside the file.
pub proof fn lemma_parse_wav_valid(b: Seq<u8>)
    ensures
        match spec_parse_wav(b) {
            Some(h) => {
                &&& spec_fmt_fields_valid(h.format_tag, h.channels, h.sample_rate, h.bits_per_sample)
                &&& 0 <= h.data_off
                &&& 0 <= h.data_len
                &&& h.data_off + h.data_len <= b.len()
            },
            None => true,
        },
{
    if !(b.len() < 12 || b.subrange(0, 4) != riff_tag() || b.subrange(8, 12) != wave_tag()) {
        scan_chunk_in_bounds(b, 12, fmt_tag());
        match scan_chunk(b, 12, fmt_tag()) {
            Some(f) => {
                let fmt_size = le32(b, f - 4);
                scan_chunk_in_bounds(b, f + fmt_size + fmt_size % 2, data_tag());
            },
            None => {},
        }
    }
}


/// Any container made of a 44-byte header with valid fields followed by
/// exactly the declared payload parses back to those fields.
pub proof fn lemma_header_wav_parses(tag: int, channels: int, rate: int, bits: int, data: Seq<u8>)
    requires
        spec_fmt_fields_valid(tag, channels, rate, bits),
        tag < 65536,
        channels < 65536,
        bits < 65536,
        rate < 0x100000000,
        44 + data.len() <= u32::MAX,
    ensures
        spec_parse_wav(wav_header_bytes(tag, channels, rate, bits, data.len() as int) + data)
            == Some(
            SpecWavHeader {
                format_tag: tag,
                channels: channels,
                sample_rate: rate,
                bits_per_sample: bits,
                data_off: 44,
                data_len: data.len() as int,
            },
        ),
{
    let n = data.len() as int;
    let b = wav_header_bytes(tag, channels, rate, bits, n) + data;
    assert(b.len() == 44 + n);
    assert forall|i: int| 0 <= i < 44 implies b[i] == header_byte(tag, channels, rate, bits, n, i)
        by {}
    assert(b.subrange(0, 4) =~= riff_tag());
    assert(b.subrange(8, 12) =~= wave_tag());
    assert(b.subrange(12, 16) =~= fmt_tag());
    assert(le32(b, 16) == 16);
    assert(scan_chunk(b, 12, fmt_tag()) == Some(20int));
    assert(le16(b, 20) == tag) by {
        lemma_le16_recompose(tag);
    }
    assert(le16(b, 22) == channels) by {
        lemma_le16_recompose(channels);
    }
    assert(le32(b, 24) == rate) by {
        lemma_le32_recompose(rate);
    }
    assert(le16(b, 34) == bits) by {
        lemma_le16_recompose(bits);
    }
    assert(b.subrange(36, 40) =~= data_tag());
    assert(le32(b, 40) == n) by {
        lemma_le32_recompose(n);
    }
    assert(scan_chunk(b, 36, data_tag()) == Some(44int));
}

} // verus!


