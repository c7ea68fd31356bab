//! One decoded amplitude value, in one of four numeric representations.
//!
//! A channel is homogeneous: every sample it yields carries the same variant.
//! The 32-bit float representation is held as its IEEE 754 bit pattern, so
//! that the ordering and zero tests below are stated and proved exactly over
//! plain integer values.

use vstd::prelude::*;

verus! {

/// The numeric family a channel's samples belong to.
#[derive(Clone, Copy, Debug, PartialEq, Eq, Structural)]
pub enum SampleFormat {
    Int,
    Float,
}

/// The storage representation of a channel's samples: the narrowest signed
/// integer width that covers the channel's bit depth, or the 32-bit float.
#[derive(Clone, Copy, Debug, PartialEq, Eq, Structural)]
pub enum SampleKind {
    Int8,
    Int16,
    Int32,
    Float32,
}

/// One decoded amplitude. `Float32` holds the IEEE 754 bit pattern of the
/// 32-bit float value.
#[derive(Clone, Copy, Debug, PartialEq, Eq, Structural)]
pub enum Sample {
    Int8(i8),
    Int16(i16),
    Int32(i32),
    Float32(u32),
}

impl SampleKind {
    /// The numeric family of this representation.
    pub open spec fn spec_format(&self) -> SampleFormat {
        match *self {
            SampleKind::Float32 => SampleFormat::Float,
            _ => SampleFormat::Int,
        }
    }

    /// The number of bytes one stored sample occupies.
    pub open spec fn spec_width(&self) -> nat {
        match *self {
            SampleKind::Int8 => 1,
            SampleKind::Int16 => 2,
            SampleKind::Int32 => 4,
            SampleKind::Float32 => 4,
        }
    }

    /// The smallest value representable by the storage type. For the float
    /// representation this is the bit pattern of the most negative finite
    /// 32-bit float.
    pub open spec fn spec_lower_bound(&self) -> Sample {
        match *self {
            SampleKind::Int8 => Sample::Int8(i8::MIN),
            SampleKind::Int16 => Sample::Int16(i16::MIN),
            SampleKind::Int32 => Sample::Int32(i32::MIN),
            SampleKind::Float32 => Sample::Float32(0xff7f_ffff),
        }
    }

    /// The largest value representable by the storage type. For the float
    /// representation this is the bit pattern of the largest finite 32-bit
    /// float.
    pub open spec fn spec_upper_bound(&self) -> Sample {
        match *self {
            SampleKind::Int8 => Sample::Int8(i8::MAX),
            SampleKind::Int16 => Sample::Int16(i16::MAX),
            SampleKind::Int32 => Sample::Int32(i32::MAX),
            SampleKind::Float32 => Sample::Float32(0x7f7f_ffff),
        }
    }
}

impl Sample {
    /// The storage representation this sample belongs to.
    pub open spec fn spec_kind(&self) -> SampleKind {
        match *self {
            Sample::Int8(_) => SampleKind::Int8,
            Sample::Int16(_) => SampleKind::Int16,
            Sample::Int32(_) => SampleKind::Int32,
            Sample::Float32(_) => SampleKind::Float32,
        }
    }

    /// The numeric family of this sample.
    pub open spec fn spec_format(&self) -> SampleFormat {
        match *self {
            Sample::Float32(_) => SampleFormat::Float,
            _ => SampleFormat::Int,
        }
    }

    /// Two samples may only be compared when they carry the same variant.
    pub open spec fn same_variant(&self, other: &Sample) -> bool {
        match (*self, *other) {
            (Sample::Int8(_), Sample::Int8(_)) => true,
            (Sample::Int16(_), Sample::Int16(_)) => true,
            (Sample::Int32(_), Sample::Int32(_)) => true,
            (Sample::Float32(_), Sample::Float32(_)) => true,
            _ => false,
        }
    }

    /// An IEEE 754 single-precision bit pattern denotes NaN exactly when the
    /// exponent field is all ones and the fraction field is nonzero.
    pub open spec fn spec_f32_bits_is_nan(bits: u32) -> bool {
        (bits >> 23) & 0xff == 0xff && bits & 0x7fffff != 0
    }

    /// Order key of a finite-or-infinite (non-NaN) float bit pattern: the
    /// magnitude bits, negated when the sign bit is set. Two patterns compare
    /// as the floats they denote compare; in particular the keys of +0.0 and
    /// -0.0 are both zero.
    pub open spec fn spec_f32_bits_key(bits: u32) -> int {
        if bits >= 0x8000_0000 {
            -((bits & 0x7fff_ffff) as int)
        } else {
            (bits & 0x7fff_ffff) as int
        }
    }

    /// Whether this sample is a NaN float; integer samples never are.
    pub open spec fn spec_is_nan(&self) -> bool {
        match *self {
            Sample::Float32(bits) => Self::spec_f32_bits_is_nan(bits),
            _ => false,
        }
    }

    /// The "less than or equal" order on two samples of the same variant,
    /// neither a NaN. Comparison across variants is a contract violation.
    pub open spec fn spec_le(&self, other: &Sample) -> bool
        recommends
            self.same_variant(other),
            !self.spec_is_nan(),
            !other.spec_is_nan(),
    {
        match (*self, *other) {
            (Sample::Int8(a), Sample::Int8(b)) => a <= b,
            (Sample::Int16(a), Sample::Int16(b)) => a <= b,
            (Sample::Int32(a), Sample::Int32(b)) => a <= b,
            (Sample::Float32(a), Sample::Float32(b)) => Self::spec_f32_bits_key(a)
                <= Self::spec_f32_bits_key(b),
            _ => arbitrary(),
        }
    }

    /// A sample is zero when its numeric value is zero; for floats both the
    /// +0.0 and the -0.0 bit pattern count as zero.
    pub open spec fn spec_is_zero(&self) -> bool {
        match *self {
            Sample::Int8(v) => v == 0,
            Sample::Int16(v) => v == 0,
            Sample::Int32(v) => v == 0,
            Sample::Float32(bits) => bits & 0x7fff_ffff == 0,
        }
    }

    /// Tests whether this sample's numeric value is zero.
    pub fn is_zero(&self) -> (r: bool)
        ensures
            r == self.spec_is_zero(),
    {
        match *self {
            Sample::Int8(v) => v == 0,
            Sample::Int16(v) => v == 0,
            Sample::Int32(v) => v == 0,
            Sample::Float32(bits) => {
                let magnitude = bits & 0x7fff_ffff;
                proof {
                    assert(bits & 0x7fff_ffff == 0 <==> (bits == 0 || bits == 0x8000_0000u32))
                        by (bit_vector);
                }
                magnitude == 0
            },
        }
    }

    /// The zero sample of the same variant as this one.
    pub fn into_zero(self) -> (r: Sample)
        ensures
            r.same_variant(&self),
            r.spec_is_zero(),
            r == match self {
                Sample::Int8(_) => Sample::Int8(0i8),
                Sample::Int16(_) => Sample::Int16(0i16),
                Sample::Int32(_) => Sample::Int32(0i32),
                Sample::Float32(_) => Sample::Float32(0u32),
            },
    {
        match self {
            Sample::Int8(_) => Sample::Int8(0),
            Sample::Int16(_) => Sample::Int16(0),
            Sample::Int32(_) => Sample::Int32(0),
            Sample::Float32(_) => {
                proof {
                    assert(0u32 & 0x7fff_ffff == 0) by (bit_vector);
                }
                Sample::Float32(0)
            },
        }
    }

    /// Compares two samples of the same variant, neither a NaN.
    pub fn le(&self, other: &Sample) -> (r: bool)
        requires
            self.same_variant(other),
            !self.spec_is_nan(),
            !other.spec_is_nan(),
        ensures
            r == self.spec_le(other),
    {
        match (*self, *other) {
            (Sample::Int8(a), Sample::Int8(b)) => a <= b,
            (Sample::Int16(a), Sample::Int16(b)) => a <= b,
            (Sample::Int32(a), Sample::Int32(b)) => a <= b,
            (Sample::Float32(a), Sample::Float32(b)) => {
                let ka = Self::f32_bits_key(a);
                let kb = Self::f32_bits_key(b);
                ka <= kb
            },
            _ => false,
        }
    }

    /// The order key of a float bit pattern, as an executable value.
    fn f32_bits_key(bits: u32) -> (r: i64)
        ensures
            r == Self::spec_f32_bits_key(bits),
    {
        let magnitude = bits & 0x7fff_ffff;
        proof {
            assert(bits & 0x7fff_ffff <= 0x7fff_ffffu32) by (bit_vector);
        }
        if bits >= 0x8000_0000 {
            -(magnitude as i64)
        } else {
            magnitude as i64
        }
    }
}

} // verus!
