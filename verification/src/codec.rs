//! The byte-level encoding of stored samples.
//!
//! A channel holds its samples as a flat little-endian byte buffer. One
//! stored sample occupies the width of its storage representation: one byte
//! for 8-bit integers, two for 16-bit integers, four for 32-bit integers and
//! for 32-bit floats. These functions say what one encoded sample looks like
//! and prove that decoding inverts encoding.

use vstd::bytes::{
    lemma_auto_spec_u16_to_from_le_bytes, lemma_auto_spec_u32_to_from_le_bytes,
    spec_u16_from_le_bytes, spec_u16_to_le_bytes, spec_u32_from_le_bytes, spec_u32_to_le_bytes,
};
use vstd::prelude::*;

use crate::sample::{Sample, SampleKind};

verus! {

/// The two's-complement byte of an 8-bit sample.
pub open spec fn spec_encode_i8(v: i8) -> Seq<u8> {
    seq![v as u8]
}

/// The two little-endian two's-complement bytes of a 16-bit sample.
pub open spec fn spec_encode_i16(v: i16) -> Seq<u8> {
    spec_u16_to_le_bytes(v as u16)
}

/// The four little-endian two's-complement bytes of a 32-bit sample.
pub open spec fn spec_encode_i32(v: i32) -> Seq<u8> {
    spec_u32_to_le_bytes(v as u32)
}

/// The four little-endian bytes of a 32-bit float's bit pattern.
pub open spec fn spec_encode_f32(bits: u32) -> Seq<u8> {
    spec_u32_to_le_bytes(bits)
}

/// The bytes of one stored sample.
pub open spec fn spec_encode(s: Sample) -> Seq<u8> {
    match s {
        Sample::Int8(v) => spec_encode_i8(v),
        Sample::Int16(v) => spec_encode_i16(v),
        Sample::Int32(v) => spec_encode_i32(v),
        Sample::Float32(bits) => spec_encode_f32(bits),
    }
}

/// The sample stored in one encoded chunk of the given representation.
pub open spec fn spec_decode(kind: SampleKind, bytes: Seq<u8>) -> Sample
    recommends
        bytes.len() == kind.spec_width(),
{
    match kind {
        SampleKind::Int8 => Sample::Int8(bytes[0] as i8),
        SampleKind::Int16 => Sample::Int16(spec_u16_from_le_bytes(bytes) as i16),
        SampleKind::Int32 => Sample::Int32(spec_u32_from_le_bytes(bytes) as i32),
        SampleKind::Float32 => Sample::Float32(spec_u32_from_le_bytes(bytes)),
    }
}

/// An encoded sample is exactly as wide as its representation says.
pub proof fn lemma_encode_len(s: Sample)
    ensures
        spec_encode(s).len() == s.spec_kind().spec_width(),
{
    lemma_auto_spec_u16_to_from_le_bytes();
    lemma_auto_spec_u32_to_from_le_bytes();
}

/// Decoding an encoded sample gives the sample back.
pub proof fn lemma_decode_encode(s: Sample)
    ensures
        spec_decode(s.spec_kind(), spec_encode(s)) == s,
{
    lemma_auto_spec_u16_to_from_le_bytes();
    lemma_auto_spec_u32_to_from_le_bytes();
    match s {
        Sample::Int8(v) => {
            assert((v as u8) as i8 == v) by (bit_vector);
            assert(spec_encode_i8(v)[0] == v as u8);
        },
        Sample::Int16(v) => {
            assert((v as u16) as i16 == v) by (bit_vector);
            assert(spec_u16_to_le_bytes(v as u16).len() == 2);
            assert(spec_u16_from_le_bytes(spec_u16_to_le_bytes(v as u16)) == v as u16);
        },
        Sample::Int32(v) => {
            assert((v as u32) as i32 == v) by (bit_vector);
            assert(spec_u32_to_le_bytes(v as u32).len() == 4);
            assert(spec_u32_from_le_bytes(spec_u32_to_le_bytes(v as u32)) == v as u32);
        },
        Sample::Float32(bits) => {
            assert(spec_u32_to_le_bytes(bits).len() == 4);
            assert(spec_u32_from_le_bytes(spec_u32_to_le_bytes(bits)) == bits);
        },
    }
}

/// Appends the encoding of one sample to a byte buffer.
pub fn push_encoded(data: &mut Vec<u8>, s: Sample)
    ensures
        final(data)@ == old(data)@ + spec_encode(s),
{
    match s {
        Sample::Int8(v) => {
            proof {
                assert(((v as u8) as i8) == v) by (bit_vector);
            }
            data.push(v as u8);
            assert(data@ =~= old(data)@ + spec_encode(s));
        },
        Sample::Int16(v) => {
            let mut bytes = vstd::bytes::u16_to_le_bytes(v as u16);
            data.append(&mut bytes);
        },
        Sample::Int32(v) => {
            let mut bytes = vstd::bytes::u32_to_le_bytes(v as u32);
            data.append(&mut bytes);
        },
        Sample::Float32(bits) => {
            let mut bytes = vstd::bytes::u32_to_le_bytes(bits);
            data.append(&mut bytes);
        },
    }
}

/// Decodes the stored sample that begins at `offset`.
pub fn decode_at(kind: SampleKind, data: &Vec<u8>, offset: usize) -> (r: Sample)
    requires
        offset + kind.spec_width() <= data@.len(),
    ensures
        r == spec_decode(kind, data@.subrange(offset as int, offset + kind.spec_width())),
{
    let _len: usize = data.len();
    match kind {
        SampleKind::Int8 => {
            let b = data[offset];
            proof {
                assert(data@.subrange(offset as int, offset + 1)[0] == data@[offset as int]);
            }
            Sample::Int8(#[verifier::truncate] (b as i8))
        },
        SampleKind::Int16 => {
            assert(offset + 2 <= data@.len());
            let chunk = vstd::slice::slice_subrange(data.as_slice(), offset, offset + 2);
            let v = vstd::bytes::u16_from_le_bytes(chunk);
            Sample::Int16(#[verifier::truncate] (v as i16))
        },
        SampleKind::Int32 => {
            assert(offset + 4 <= data@.len());
            let chunk = vstd::slice::slice_subrange(data.as_slice(), offset, offset + 4);
            let v = vstd::bytes::u32_from_le_bytes(chunk);
            Sample::Int32(#[verifier::truncate] (v as i32))
        },
        SampleKind::Float32 => {
            assert(offset + 4 <= data@.len());
            let chunk = vstd::slice::slice_subrange(data.as_slice(), offset, offset + 4);
            let v = vstd::bytes::u32_from_le_bytes(chunk);
            Sample::Float32(v)
        },
    }
}

} // verus!
