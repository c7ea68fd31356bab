//! A mono or stereo container of channels, and WAV container decoding.
//!
//! `Signal::from_wav` parses a RIFF/WAVE container holding uncompressed PCM
//! (integer, 1 to 32 bits per sample) or 32-bit IEEE float samples, in one
//! or two channels, and demultiplexes the interleaved sample frames into
//! one `Channel` per audio channel. Decoding is all-or-nothing: malformed
//! or unsupported input yields a `DecodeError` and never a partial signal.
//!
//! The layout understood here: the 12-byte RIFF/WAVE preamble, then a
//! sequence of chunks, each an id, a little-endian 32-bit size and that
//! many payload bytes. A `fmt ` chunk of the plain PCM (tag 1) or IEEE
//! float (tag 3) shape must appear before the `data` chunk; other chunks
//! are skipped. Samples sit in the data chunk interleaved frame by frame,
//! each sample in `ceil(bits / 8)` little-endian bytes; one-byte samples
//! are stored unsigned with a bias of 128, wider integers in two's
//! complement, and 24-bit samples are sign-extended on decode.

use vstd::bytes::{spec_u16_from_le_bytes, spec_u32_from_le_bytes};
use vstd::prelude::*;

use crate::channel::Channel;
use crate::sample::{Sample, SampleFormat, SampleKind};

verus! {

/// Why a byte buffer could not be decoded as a supported WAV file.
#[derive(Clone, Copy, Debug, PartialEq, Eq, Structural)]
pub enum DecodeError {
    /// The bytes do not form a RIFF/WAVE container this decoder
    /// understands: a missing or truncated preamble, chunk or field, a
    /// format tag other than PCM or IEEE float, a zero channel count or
    /// sample rate, or sample data that ends mid-frame.
    Malformed,
    /// The channel count is not 1 or 2.
    UnsupportedChannelCount(u16),
    /// The declared numeric format and bit depth have no decoder: an
    /// integer depth outside 1..=32, or a float depth other than 32.
    UnsupportedFormat { format: SampleFormat, bits_per_sample: u16 },
}

/// One channel (mono) or two (stereo, left then right).
#[derive(Clone, Debug, PartialEq)]
pub enum Signal {
    Mono(Channel),
    Stereo(Channel, Channel),
}

/// What a well-formed WAV header declares about the sample data.
pub struct WavInfo {
    /// The storage representation the samples decode into.
    pub kind: SampleKind,
    /// The number of interleaved audio channels.
    pub channels: u16,
    /// The sample rate in Hz.
    pub rate: u32,
    /// The declared number of significant bits per sample.
    pub bits: u16,
    /// The width in bytes of one sample in the file: `ceil(bits / 8)`.
    pub width: nat,
    /// The index of the first byte of sample data.
    pub data_start: int,
    /// The number of frames: samples per channel.
    pub frames: nat,
}

/// The little-endian 16-bit value at offset `i`.
pub open spec fn spec_u16_at(b: Seq<u8>, i: int) -> u16 {
    spec_u16_from_le_bytes(b.subrange(i, i + 2))
}

/// The little-endian 32-bit value at offset `i`.
pub open spec fn spec_u32_at(b: Seq<u8>, i: int) -> u32 {
    spec_u32_from_le_bytes(b.subrange(i, i + 4))
}

/// The four bytes of the RIFF preamble id.
pub open spec fn spec_riff_id() -> Seq<u8> {
    seq![0x52u8, 0x49u8, 0x46u8, 0x46u8]
}

/// The four bytes of the WAVE form id.
pub open spec fn spec_wave_id() -> Seq<u8> {
    seq![0x57u8, 0x41u8, 0x56u8, 0x45u8]
}

/// The four bytes of the format chunk id.
pub open spec fn spec_fmt_id() -> Seq<u8> {
    seq![0x66u8, 0x6du8, 0x74u8, 0x20u8]
}

/// The four bytes of the data chunk id.
pub open spec fn spec_data_id() -> Seq<u8> {
    seq![0x64u8, 0x61u8, 0x74u8, 0x61u8]
}

/// The buffer begins with the 12-byte RIFF/WAVE preamble.
pub open spec fn spec_riff_ok(b: Seq<u8>) -> bool {
    &&& b.len() >= 12
    &&& b.subrange(0, 4) == spec_riff_id()
    &&& b.subrange(8, 12) == spec_wave_id()
}

/// The position of the first chunk with the given id at or after `pos`:
/// chunks are walked in order, each skipped by its declared size. `None`
/// when the walk runs off the end of the buffer first.
pub open spec fn spec_find_chunk(b: Seq<u8>, pos: int, id: Seq<u8>) -> Option<int>
    decreases b.len() - pos,
{
    if pos < 0 || pos + 8 > b.len() {
        None
    } else if b.subrange(pos, pos + 4) == id {
        Some(pos)
    } else {
        let size = spec_u32_at(b, pos + 4) as int;
        if pos + 8 + size > b.len() {
            None
        } else {
            spec_find_chunk(b, pos + 8 + size, id)
        }
    }
}

/// The last fourteen bytes of the two subformat GUIDs this decoder
/// recognises in an extensible format chunk; the leading two bytes carry
/// the format tag.
pub open spec fn spec_guid_suffix() -> Seq<u8> {
    seq![
        0x00u8,
        0x00u8,
        0x00u8,
        0x00u8,
        0x10u8,
        0x00u8,
        0x80u8,
        0x00u8,
        0x00u8,
        0xaau8,
        0x00u8,
        0x38u8,
        0x9bu8,
        0x71u8,
    ]
}

/// The numeric format and significant bit depth a format chunk at `f`
/// declares. Plain PCM (tag 1) and IEEE float (tag 3) carry them directly.
/// The extensible shape (tag 0xfffe) needs a chunk of at least 40 bytes,
/// an extension size of exactly 22 and a recognised subformat GUID, whose
/// leading tag gives the format; its valid-bits field gives the bit depth,
/// falling back to the container width when zero. `None` when the chunk
/// fits no recognised shape.
pub open spec fn spec_fmt_format_bits(b: Seq<u8>, f: int, fmt_size: int) -> Option<
    (SampleFormat, u16),
> {
    let tag = spec_u16_at(b, f + 8);
    let container_bits = spec_u16_at(b, f + 22);
    if tag == 1 {
        Some((SampleFormat::Int, container_bits))
    } else if tag == 3 {
        Some((SampleFormat::Float, container_bits))
    } else if tag == 0xfffe {
        if fmt_size < 40 {
            None
        } else {
            let cb_size = spec_u16_at(b, f + 24);
            let valid_bits = spec_u16_at(b, f + 26);
            let sub_tag = spec_u16_at(b, f + 32);
            let bits = if valid_bits > 0 {
                valid_bits
            } else {
                container_bits
            };
            if cb_size != 22 || b.subrange(f + 34, f + 48) != spec_guid_suffix() {
                None
            } else if sub_tag == 1 {
                Some((SampleFormat::Int, bits))
            } else if sub_tag == 3 {
                Some((SampleFormat::Float, bits))
            } else {
                None
            }
        }
    } else {
        None
    }
}

/// The storage representation for a declared format and bit depth: the
/// narrowest supported integer representation whose width covers the bit
/// depth, or the 32-bit float representation exactly for 32-bit floats.
/// `None` when the combination has no decoder.
pub open spec fn spec_kind_for(format: SampleFormat, bits: u16) -> Option<SampleKind> {
    match format {
        SampleFormat::Int => if 1 <= bits <= 8 {
            Some(SampleKind::Int8)
        } else if 9 <= bits <= 16 {
            Some(SampleKind::Int16)
        } else if 17 <= bits <= 32 {
            Some(SampleKind::Int32)
        } else {
            None
        },
        SampleFormat::Float => if bits == 32 {
            Some(SampleKind::Float32)
        } else {
            None
        },
    }
}

/// The width in bytes of one sample as stored in the file: `ceil(bits / 8)`.
pub open spec fn spec_file_width(bits: u16) -> nat {
    ((bits + 7) / 8) as nat
}

/// What decoding the header of `b` yields: either the facts a supported
/// file declares, or the error that must be reported. The checks happen in
/// this order: the preamble and chunk structure, the shape of the format
/// chunk, the channel count, the format/bit-depth combination, and last
/// the size of the sample data.
pub open spec fn spec_parse_wav(b: Seq<u8>) -> Result<WavInfo, DecodeError> {
    if !spec_riff_ok(b) {
        Err(DecodeError::Malformed)
    } else {
        let fmt_pos = spec_find_chunk(b, 12, spec_fmt_id());
        let data_pos = spec_find_chunk(b, 12, spec_data_id());
        if fmt_pos is None || data_pos is None {
            Err(DecodeError::Malformed)
        } else {
            let f = fmt_pos->Some_0;
            let d = data_pos->Some_0;
            let fmt_size = spec_u32_at(b, f + 4) as int;
            if f > d || fmt_size < 16 || f + 8 + fmt_size > b.len() {
                Err(DecodeError::Malformed)
            } else {
                let channels = spec_u16_at(b, f + 10);
                let rate = spec_u32_at(b, f + 12);
                if spec_fmt_format_bits(b, f, fmt_size) is None {
                    Err(DecodeError::Malformed)
                } else if channels == 0 || rate == 0 {
                    Err(DecodeError::Malformed)
                } else if channels > 2 {
                    Err(DecodeError::UnsupportedChannelCount(channels))
                } else {
                    let (format, bits) = spec_fmt_format_bits(b, f, fmt_size)->Some_0;
                    if spec_kind_for(format, bits) is None {
                        Err(DecodeError::UnsupportedFormat { format, bits_per_sample: bits })
                    } else {
                        let kind = spec_kind_for(format, bits)->Some_0;
                        let width = spec_file_width(bits);
                        let data_size = spec_u32_at(b, d + 4) as int;
                        if d + 8 + data_size > b.len() || data_size % (width * channels) as int
                            != 0 {
                            Err(DecodeError::Malformed)
                        } else {
                            Ok(
                                WavInfo {
                                    kind,
                                    channels,
                                    rate,
                                    bits,
                                    width,
                                    data_start: d + 8,
                                    frames: (data_size / (width * channels) as int) as nat,
                                },
                            )
                        }
                    }
                }
            }
        }
    }
}

/// The sample stored at file offset `off`: one biased unsigned byte, or a
/// little-endian two's-complement integer of the file width — three-byte
/// samples sign-extend into the 32-bit representation — or the bit pattern
/// of a 32-bit float.
pub open spec fn spec_file_sample_at(b: Seq<u8>, kind: SampleKind, width: nat, off: int) -> Sample {
    match kind {
        SampleKind::Int8 => Sample::Int8((b[off] - 128) as i8),
        SampleKind::Int16 => Sample::Int16(spec_u16_at(b, off) as i16),
        SampleKind::Int32 => if width == 3 {
            let u = b[off] + 0x100 * b[off + 1] + 0x1_0000 * b[off + 2];
            Sample::Int32(
                (if u >= 0x80_0000 {
                    u - 0x100_0000
                } else {
                    u
                }) as i32,
            )
        } else {
            Sample::Int32(spec_u32_at(b, off) as i32)
        },
        SampleKind::Float32 => Sample::Float32(spec_u32_at(b, off)),
    }
}

/// The samples of audio channel `c`: frame `j` holds one sample for each
/// channel in channel order, so sample `j` of channel `c` sits at file
/// sample index `j * channels + c`.
pub open spec fn spec_wav_channel_samples(b: Seq<u8>, info: WavInfo, c: int) -> Seq<Sample> {
    Seq::new(
        info.frames,
        |j: int|
            spec_file_sample_at(
                b,
                info.kind,
                info.width,
                info.data_start + (j * info.channels + c) * info.width,
            ),
    )
}

/// Reads the little-endian 16-bit value at `off`.
fn read_u16_at(data: &Vec<u8>, off: usize) -> (r: u16)
    requires
        off + 2 <= data@.len(),
    ensures
        r == spec_u16_at(data@, off as int),
{
    let _len: usize = data.len();
    let chunk = vstd::slice::slice_subrange(data.as_slice(), off, off + 2);
    vstd::bytes::u16_from_le_bytes(chunk)
}

/// Reads the little-endian 32-bit value at `off`.
fn read_u32_at(data: &Vec<u8>, off: usize) -> (r: u32)
    requires
        off + 4 <= data@.len(),
    ensures
        r == spec_u32_at(data@, off as int),
{
    let _len: usize = data.len();
    let chunk = vstd::slice::slice_subrange(data.as_slice(), off, off + 4);
    vstd::bytes::u32_from_le_bytes(chunk)
}

/// A found chunk lies within the buffer and carries the id searched for.
proof fn lemma_find_chunk_props(b: Seq<u8>, pos: int, id: Seq<u8>)
    requires
        spec_find_chunk(b, pos, id) is Some,
    ensures
        ({
            let p = spec_find_chunk(b, pos, id)->Some_0;
            &&& pos <= p
            &&& p + 8 <= b.len()
            &&& b.subrange(p, p + 4) == id
        }),
    decreases b.len() - pos,
{
    if pos < 0 || pos + 8 > b.len() {
    } else if b.subrange(pos, pos + 4) == id {
    } else {
        let size = spec_u32_at(b, pos + 4) as int;
        if pos + 8 + size <= b.len() {
            lemma_find_chunk_props(b, pos + 8 + size, id);
        }
    }
}

/// Walks the chunks from the end of the preamble and returns the position
/// of the first chunk carrying the given id, if the walk finds one before
/// running off the end of the buffer.
fn find_chunk(data: &Vec<u8>, id0: u8, id1: u8, id2: u8, id3: u8) -> (r: Option<usize>)
    ensures
        ({
            let found = spec_find_chunk(data@, 12, seq![id0, id1, id2, id3]);
            match r {
                Some(p) => found == Some(p as int),
                None => found is None,
            }
        }),
{
    let ghost id = seq![id0, id1, id2, id3];
    let len = data.len();
    let mut pos: usize = 12;
    while pos < len && len - pos >= 8
        invariant
            12 <= pos,
            len == data@.len(),
            id == seq![id0, id1, id2, id3],
            spec_find_chunk(data@, 12, id) == spec_find_chunk(data@, pos as int, id),
        decreases len - pos,
    {
        if data[pos] == id0 && data[pos + 1] == id1 && data[pos + 2] == id2 && data[pos + 3]
            == id3 {
            proof {
                assert(data@.subrange(pos as int, pos + 4) =~= id);
            }
            return Some(pos);
        }
        proof {
            assert(data@.subrange(pos as int, pos + 4)[0] == data@[pos as int]);
            assert(data@.subrange(pos as int, pos + 4)[1] == data@[pos + 1]);
            assert(data@.subrange(pos as int, pos + 4)[2] == data@[pos + 2]);
            assert(data@.subrange(pos as int, pos + 4)[3] == data@[pos + 3]);
            assert(data@.subrange(pos as int, pos + 4) != id);
        }
        let size32 = read_u32_at(data, pos + 4);
        let size = size32 as usize;
        if len - pos - 8 < size {
            return None;
        }
        pos = pos + 8 + size;
    }
    None
}

/// Decodes the sample stored at file offset `off`.
fn read_file_sample(data: &Vec<u8>, kind: SampleKind, width: usize, off: usize) -> (r: Sample)
    requires
        match kind {
            SampleKind::Int8 => width == 1,
            SampleKind::Int16 => width == 2,
            SampleKind::Int32 => width == 3 || width == 4,
            SampleKind::Float32 => width == 4,
        },
        off + width <= data@.len(),
    ensures
        r == spec_file_sample_at(data@, kind, width as nat, off as int),
{
    let _len: usize = data.len();
    match kind {
        SampleKind::Int8 => {
            // One-byte samples are stored unsigned with a bias of 128.
            let b = data[off];
            let v = (b as i16) - 128;
            Sample::Int8(#[verifier::truncate] (v as i8))
        },
        SampleKind::Int16 => {
            let v = read_u16_at(data, off);
            Sample::Int16(#[verifier::truncate] (v as i16))
        },
        SampleKind::Int32 => {
            if width == 3 {
                let b0 = data[off] as u32;
                let b1 = data[off + 1] as u32;
                let b2 = data[off + 2] as u32;
                let u: u32 = b0 | (b1 << 8u32) | (b2 << 16u32);
                let v: i32 = (#[verifier::truncate] ((u << 8u32) as i32)) >> 8i32;
                proof {
                    let s0 = data@[off as int];
                    let s1 = data@[off + 1];
                    let s2 = data@[off + 2];
                    assert(u == s0 + 0x100 * s1 + 0x1_0000 * s2) by (bit_vector)
                        requires
                            u == (s0 as u32) | ((s1 as u32) << 8u32) | ((s2 as u32) << 16u32),
                    ;
                    assert(u < 0x80_0000 ==> ((#[verifier::truncate] ((u << 8u32) as i32))
                        >> 8i32) == u) by (bit_vector);
                    assert(0x80_0000 <= u < 0x100_0000 ==> ((#[verifier::truncate] ((u
                        << 8u32) as i32)) >> 8i32) == u - 0x100_0000) by (bit_vector);
                }
                Sample::Int32(v)
            } else {
                let v = read_u32_at(data, off);
                Sample::Int32(#[verifier::truncate] (v as i32))
            }
        },
        SampleKind::Float32 => {
            let v = read_u32_at(data, off);
            Sample::Float32(v)
        },
    }
}

/// Reads the numeric format and bit depth a format chunk declares, in any
/// of the recognised shapes.
fn read_fmt_format_bits(data: &Vec<u8>, f: usize, fmt_size: usize) -> (r: Option<
    (SampleFormat, u16),
>)
    requires
        16 <= fmt_size,
        f + 8 + fmt_size <= data@.len(),
    ensures
        r == spec_fmt_format_bits(data@, f as int, fmt_size as int),
{
    let _len: usize = data.len();
    let tag = read_u16_at(data, f + 8);
    let container_bits = read_u16_at(data, f + 22);
    if tag == 1 {
        Some((SampleFormat::Int, container_bits))
    } else if tag == 3 {
        Some((SampleFormat::Float, container_bits))
    } else if tag == 0xfffe {
        if fmt_size < 40 {
            None
        } else {
            let cb_size = read_u16_at(data, f + 24);
            let valid_bits = read_u16_at(data, f + 26);
            let sub_tag = read_u16_at(data, f + 32);
            let bits = if valid_bits > 0 {
                valid_bits
            } else {
                container_bits
            };
            let g = f + 34;
            let suffix_ok = data[g] == 0x00 && data[g + 1] == 0x00 && data[g + 2] == 0x00
                && data[g + 3] == 0x00 && data[g + 4] == 0x10 && data[g + 5] == 0x00 && data[g + 6]
                == 0x80 && data[g + 7] == 0x00 && data[g + 8] == 0x00 && data[g + 9] == 0xaa
                && data[g + 10] == 0x00 && data[g + 11] == 0x38 && data[g + 12] == 0x9b && data[g
                + 13] == 0x71;
            proof {
                let sub = data@.subrange(g as int, g + 14);
                assert forall|k: int| 0 <= k < 14 implies sub[k] == data@[g + k] by {}
                if suffix_ok {
                    assert(sub =~= spec_guid_suffix());
                } else {
                    assert(sub != spec_guid_suffix());
                }
            }
            if cb_size != 22 || !suffix_ok {
                None
            } else if sub_tag == 1 {
                Some((SampleFormat::Int, bits))
            } else if sub_tag == 3 {
                Some((SampleFormat::Float, bits))
            } else {
                None
            }
        }
    } else {
        None
    }
}

/// Collects the samples of audio channel `c` from the interleaved frames
/// of the data chunk.
fn collect_channel(
    data: &Vec<u8>,
    kind: SampleKind,
    width: usize,
    data_start: usize,
    frames: usize,
    channels: usize,
    c: usize,
) -> (r: Vec<Sample>)
    requires
        match kind {
            SampleKind::Int8 => width == 1,
            SampleKind::Int16 => width == 2,
            SampleKind::Int32 => width == 3 || width == 4,
            SampleKind::Float32 => width == 4,
        },
        channels >= 1,
        c < channels,
        data_start + frames * channels * width <= data@.len(),
    ensures
        r@.len() == frames,
        forall|j: int|
            0 <= j < frames ==> r@[j] == spec_file_sample_at(
                data@,
                kind,
                width as nat,
                data_start + (j * channels + c) * width,
            ),
{
    let len = data.len();
    let mut out: Vec<Sample> = Vec::new();
    let mut j: usize = 0;
    while j < frames
        invariant
            j <= frames,
            out@.len() == j,
            channels >= 1,
            c < channels,
            len == data@.len(),
            match kind {
                SampleKind::Int8 => width == 1,
                SampleKind::Int16 => width == 2,
                SampleKind::Int32 => width == 3 || width == 4,
                SampleKind::Float32 => width == 4,
            },
            data_start + frames * channels * width <= data@.len(),
            forall|k: int|
                0 <= k < j ==> out@[k] == spec_file_sample_at(
                    data@,
                    kind,
                    width as nat,
                    data_start + (k * channels + c) * width,
                ),
        decreases frames - j,
    {
        proof {
            assert((j * channels + c + 1) * width <= frames * channels * width)
                by (nonlinear_arith)
                requires
                    0 <= j < frames && 0 <= c < channels && width >= 1,
            ;
            assert((j * channels + c) * width + width == (j * channels + c + 1) * width)
                by (nonlinear_arith);
            assert(j * channels + c < (j * channels + c + 1) * width) by (nonlinear_arith)
                requires
                    0 <= j && 0 <= c && width >= 1,
            ;
        }
        let index = j * channels + c;
        let byte_offset = index * width;
        let off = data_start + byte_offset;
        let s = read_file_sample(data, kind, width, off);
        out.push(s);
        j += 1;
    }
    out
}

impl Signal {
    /// The number of channels: 1 for mono, 2 for stereo.
    pub open spec fn spec_channel_count(&self) -> nat {
        match *self {
            Signal::Mono(_) => 1,
            Signal::Stereo(_, _) => 2,
        }
    }

    /// The channel at the given index; index 0 always exists, index 1 only
    /// for stereo.
    pub open spec fn spec_channel(&self, n: int) -> Channel {
        match *self {
            Signal::Mono(c) => c,
            Signal::Stereo(left, right) => if n == 0 {
                left
            } else {
                right
            },
        }
    }

    /// Decodes a RIFF/WAVE byte buffer into a mono or stereo signal, or
    /// reports exactly why it cannot be: structural damage — a bad
    /// preamble, a missing, truncated or unrecognised format chunk, a zero
    /// channel count or sample rate, a missing or short data chunk, or
    /// sample data ending mid-frame — is `Malformed`; a channel count
    /// other than 1 or 2 is `UnsupportedChannelCount` with that count; a
    /// recognised format whose bit depth has no decoder is
    /// `UnsupportedFormat`. On success, each audio channel's samples are
    /// exactly the de-interleaved, decoded samples of the data chunk, in
    /// file order, and every channel carries the declared bit depth and
    /// sample rate. No partial signal is ever returned.
    pub fn from_wav(data: &Vec<u8>) -> (r: Result<Signal, DecodeError>)
        ensures
            ({
                let parsed = spec_parse_wav(data@);
                match r {
                    Err(e) => parsed == Err::<WavInfo, DecodeError>(e),
                    Ok(sig) => parsed is Ok && {
                        let info = parsed->Ok_0;
                        &&& sig.spec_channel_count() == info.channels
                        &&& forall|c: int|
                            0 <= c < info.channels ==> {
                                let ch = #[trigger] sig.spec_channel(c);
                                &&& ch.wf()
                                &&& ch.spec_kind() == info.kind
                                &&& ch.spec_bits() == info.bits
                                &&& ch.spec_rate() == info.rate
                                &&& ch.samples() == spec_wav_channel_samples(data@, info, c)
                            }
                    },
                }
            }),
    {
        let len = data.len();
        if len < 12 {
            return Err(DecodeError::Malformed);
        }
        let riff_ok = data[0] == 0x52 && data[1] == 0x49 && data[2] == 0x46 && data[3] == 0x46;
        let wave_ok = data[8] == 0x57 && data[9] == 0x41 && data[10] == 0x56 && data[11] == 0x45;
        proof {
            assert(data@.subrange(0, 4)[0] == data@[0]);
            assert(data@.subrange(0, 4)[1] == data@[1]);
            assert(data@.subrange(0, 4)[2] == data@[2]);
            assert(data@.subrange(0, 4)[3] == data@[3]);
            assert(data@.subrange(8, 12)[0] == data@[8]);
            assert(data@.subrange(8, 12)[1] == data@[9]);
            assert(data@.subrange(8, 12)[2] == data@[10]);
            assert(data@.subrange(8, 12)[3] == data@[11]);
            if riff_ok {
                assert(data@.subrange(0, 4) =~= spec_riff_id());
            }
            if wave_ok {
                assert(data@.subrange(8, 12) =~= spec_wave_id());
            }
        }
        if !(riff_ok && wave_ok) {
            return Err(DecodeError::Malformed);
        }
        assert(spec_riff_ok(data@));
        let fmt_found = find_chunk(data, 0x66, 0x6d, 0x74, 0x20);
        let data_found = find_chunk(data, 0x64, 0x61, 0x74, 0x61);
        let (f, d) = match (fmt_found, data_found) {
            (Some(f), Some(d)) => (f, d),
            _ => {
                return Err(DecodeError::Malformed);
            },
        };
        proof {
            lemma_find_chunk_props(data@, 12, spec_fmt_id());
            lemma_find_chunk_props(data@, 12, spec_data_id());
        }
        let fmt_size32 = read_u32_at(data, f + 4);
        let fmt_size = fmt_size32 as usize;
        if f > d || fmt_size < 16 || len - f - 8 < fmt_size {
            return Err(DecodeError::Malformed);
        }
        let channels = read_u16_at(data, f + 10);
        let rate = read_u32_at(data, f + 12);
        let (format, bits) = match read_fmt_format_bits(data, f, fmt_size) {
            Some(fb) => fb,
            None => {
                return Err(DecodeError::Malformed);
            },
        };
        if channels == 0 || rate == 0 {
            return Err(DecodeError::Malformed);
        }
        if channels > 2 {
            return Err(DecodeError::UnsupportedChannelCount(channels));
        }
        let kind = match format {
            SampleFormat::Int => {
                if bits >= 1 && bits <= 8 {
                    SampleKind::Int8
                } else if bits >= 9 && bits <= 16 {
                    SampleKind::Int16
                } else if bits >= 17 && bits <= 32 {
                    SampleKind::Int32
                } else {
                    return Err(DecodeError::UnsupportedFormat { format, bits_per_sample: bits });
                }
            },
            SampleFormat::Float => {
                if bits == 32 {
                    SampleKind::Float32
                } else {
                    return Err(DecodeError::UnsupportedFormat { format, bits_per_sample: bits });
                }
            },
        };
        let width = ((bits + 7) / 8) as usize;
        proof {
            assert(1 <= width <= 4);
            assert(width * (channels as usize) <= 8 && width * (channels as usize) >= 1)
                by (nonlinear_arith)
                requires
                    1 <= width <= 4 && 1 <= channels <= 2,
            ;
        }
        let data_size32 = read_u32_at(data, d + 4);
        let data_size = data_size32 as usize;
        let group = width * (channels as usize);
        if len - d - 8 < data_size || data_size % group != 0 {
            return Err(DecodeError::Malformed);
        }
        let frames = data_size / group;
        let data_start = d + 8;
        let ghost info = spec_parse_wav(data@)->Ok_0;
        proof {
            assert(spec_parse_wav(data@) == Ok::<WavInfo, DecodeError>(
                WavInfo {
                    kind,
                    channels,
                    rate,
                    bits,
                    width: width as nat,
                    data_start: data_start as int,
                    frames: frames as nat,
                },
            ));
            vstd::arithmetic::div_mod::lemma_fundamental_div_mod(data_size as int, group as int);
            assert(group * frames == frames * group) by (nonlinear_arith);
            assert(frames * group == data_size);
            assert(frames * (channels as usize) * width == frames * group) by (nonlinear_arith)
                requires
                    group == width * (channels as usize),
            ;
        }
        if channels == 1 {
            let collected = collect_channel(data, kind, width, data_start, frames, 1, 0);
            proof {
                assert(forall|k: int|
                    0 <= k < collected@.len() ==> (#[trigger] collected@[k]).spec_kind() == kind);
            }
            let channel = Channel::from_sample_vec(&collected, kind, bits, rate);
            proof {
                assert(channel.samples() =~= spec_wav_channel_samples(data@, info, 0));
            }
            Ok(Signal::Mono(channel))
        } else {
            let left_samples = collect_channel(data, kind, width, data_start, frames, 2, 0);
            let right_samples = collect_channel(data, kind, width, data_start, frames, 2, 1);
            proof {
                assert(forall|k: int|
                    0 <= k < left_samples@.len() ==> (#[trigger] left_samples@[k]).spec_kind()
                        == kind);
                assert(forall|k: int|
                    0 <= k < right_samples@.len() ==> (#[trigger] right_samples@[k]).spec_kind()
                        == kind);
            }
            let left = Channel::from_sample_vec(&left_samples, kind, bits, rate);
            let right = Channel::from_sample_vec(&right_samples, kind, bits, rate);
            proof {
                assert(left.samples() =~= spec_wav_channel_samples(data@, info, 0));
                assert(right.samples() =~= spec_wav_channel_samples(data@, info, 1));
            }
            Ok(Signal::Stereo(left, right))
        }
    }

    /// A borrow of the channel at the given index. Index 0 resolves for any
    /// signal; index 1 only for stereo; anything else is a contract
    /// violation.
    pub fn channel(&self, n: usize) -> (r: &Channel)
        requires
            n < self.spec_channel_count(),
        ensures
            *r == self.spec_channel(n as int),
    {
        match (n, self) {
            (0, Signal::Mono(channel)) => channel,
            (0, Signal::Stereo(channel, _)) => channel,
            (_, Signal::Stereo(_, channel)) => channel,
            (_, Signal::Mono(channel)) => channel,
        }
    }
}

} // verus!
