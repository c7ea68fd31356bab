//! A read-only frequency-domain view of one channel.
//!
//! The spectrum holds the lower half of the discrete Fourier transform of
//! a channel's samples — the upper half of a real-input transform carries
//! no new information — together with the originating sample rate and the
//! pre-truncation sample count, which the bin-to-frequency mapping needs.
//!
//! Floating-point values cross this module as IEEE 754 bit patterns held
//! in plain integers: the transform itself is floating-point work that the
//! verifier does not model, so a caller hands the full transform in and
//! this module proves what is discrete about it — the truncation, the
//! lengths, and the NaN-tolerant maximum reduction.

use vstd::prelude::*;

verus! {

/// One frequency bin: the bit patterns of the real and imaginary parts of
/// its complex amplitude.
#[derive(Clone, Copy, Debug, PartialEq, Eq, Structural)]
pub struct ComplexBits {
    pub re: u64,
    pub im: u64,
}

/// An IEEE 754 double-precision bit pattern denotes NaN exactly when the
/// exponent field is all ones and the fraction field is nonzero.
pub open spec fn spec_f64_bits_is_nan(bits: u64) -> bool {
    (bits >> 52) & 0x7ff == 0x7ff && bits & 0xf_ffff_ffff_ffff != 0
}

/// Order key of a non-NaN double-precision bit pattern: the magnitude
/// bits, negated when the sign bit is set. Non-NaN patterns compare as the
/// floats they denote compare, and the keys of +0.0 and -0.0 are both
/// zero.
pub open spec fn spec_f64_bits_key(bits: u64) -> int {
    if bits >= 0x8000_0000_0000_0000 {
        -((bits & 0x7fff_ffff_ffff_ffff) as int)
    } else {
        (bits & 0x7fff_ffff_ffff_ffff) as int
    }
}

/// The total order the maximum-volume reduction decides for every pair of
/// decibel values: two non-NaN values compare numerically, and a NaN never
/// exceeds anything — not even another NaN.
pub open spec fn spec_db_gt(x: u64, y: u64) -> bool {
    if !spec_f64_bits_is_nan(x) && !spec_f64_bits_is_nan(y) {
        spec_f64_bits_key(x) > spec_f64_bits_key(y)
    } else {
        !spec_f64_bits_is_nan(x)
    }
}

/// The maximum of a sequence of decibel values (as 64-bit float bit
/// patterns) under `spec_db_gt`, keeping the latest of equal values; the
/// bit pattern of +0.0 when the sequence is empty.
pub open spec fn spec_max_decibel(s: Seq<u64>) -> u64
    decreases s.len(),
{
    if s.len() == 0 {
        0
    } else if s.len() == 1 {
        s[0]
    } else {
        let m = spec_max_decibel(s.drop_last());
        if spec_db_gt(m, s.last()) {
            m
        } else {
            s.last()
        }
    }
}

/// Tests whether a double-precision bit pattern denotes NaN.
fn f64_bits_is_nan(bits: u64) -> (r: bool)
    ensures
        r == spec_f64_bits_is_nan(bits),
{
    let exponent = (bits >> 52) & 0x7ff;
    let fraction = bits & 0xf_ffff_ffff_ffff;
    exponent == 0x7ff && fraction != 0
}

/// The order key of a double-precision bit pattern, as an executable
/// value.
fn f64_bits_key(bits: u64) -> (r: i128)
    ensures
        r == spec_f64_bits_key(bits),
{
    let magnitude = bits & 0x7fff_ffff_ffff_ffff;
    proof {
        assert(bits & 0x7fff_ffff_ffff_ffff <= 0x7fff_ffff_ffff_ffffu64) by (bit_vector);
    }
    if bits >= 0x8000_0000_0000_0000 {
        -(magnitude as i128)
    } else {
        magnitude as i128
    }
}

/// Decides the reduction's total order for one pair of decibel values.
fn db_gt(x: u64, y: u64) -> (r: bool)
    ensures
        r == spec_db_gt(x, y),
{
    let x_nan = f64_bits_is_nan(x);
    let y_nan = f64_bits_is_nan(y);
    if !x_nan && !y_nan {
        let kx = f64_bits_key(x);
        let ky = f64_bits_key(y);
        kx > ky
    } else {
        !x_nan
    }
}

/// The maximum of a list of decibel values under the NaN-tolerant total
/// order: every pair is decided deterministically, NaN values never win,
/// but none is dropped from consideration; an empty list gives +0.0. Of
/// equal values the latest wins.
pub fn max_decibel(values: &Vec<u64>) -> (r: u64)
    ensures
        r == spec_max_decibel(values@),
{
    if values.len() == 0 {
        return 0;
    }
    let mut best = values[0];
    let mut i: usize = 1;
    while i < values.len()
        invariant
            1 <= i <= values@.len(),
            best == spec_max_decibel(values@.subrange(0, i as int)),
        decreases values@.len() - i,
    {
        let x = values[i];
        proof {
            let prefix = values@.subrange(0, i + 1);
            assert(prefix.drop_last() =~= values@.subrange(0, i as int));
            assert(prefix.last() == values@[i as int]);
        }
        if !db_gt(best, x) {
            best = x;
        }
        i += 1;
    }
    proof {
        assert(values@.subrange(0, values@.len() as int) =~= values@);
    }
    best
}

/// The frequency-domain view: the retained lower-half transform bins, the
/// originating sample rate, and the pre-truncation sample count.
#[derive(Clone, Debug, PartialEq)]
pub struct Spectrum {
    bins: Vec<ComplexBits>,
    sample_rate: u32,
    num_samples: usize,
}

impl Spectrum {
    /// The retained bins.
    pub closed spec fn spec_bins(&self) -> Seq<ComplexBits> {
        self.bins@
    }

    /// The number of retained bins.
    pub open spec fn spec_len(&self) -> nat {
        self.spec_bins().len()
    }

    /// The sample rate of the channel the spectrum was computed from.
    pub closed spec fn spec_rate(&self) -> u32 {
        self.sample_rate
    }

    /// The sample count of the channel the spectrum was computed from,
    /// before truncation to the lower half.
    pub closed spec fn spec_num_samples(&self) -> nat {
        self.num_samples as nat
    }

    /// Well-formedness: the bin count is exactly half the originating
    /// sample count, rounded down, and the sample rate is positive.
    pub open spec fn wf(&self) -> bool {
        &&& self.spec_len() == self.spec_num_samples() / 2
        &&& self.spec_rate() >= 1
    }

    /// Builds the spectrum of a channel from that channel's full forward
    /// transform: of the `num_samples` bins handed in, exactly the first
    /// `num_samples / 2` are retained — the upper half of a real-input
    /// transform is redundant for display — and the originating sample
    /// rate and pre-truncation sample count are remembered.
    pub fn from_transform(full: Vec<ComplexBits>, sample_rate: u32, num_samples: usize) -> (r:
        Spectrum)
        requires
            full@.len() == num_samples,
            sample_rate >= 1,
        ensures
            r.wf(),
            r.spec_len() == num_samples / 2,
            r.spec_rate() == sample_rate,
            r.spec_num_samples() == num_samples,
            r.spec_bins() == full@.take((num_samples / 2) as int),
    {
        let half = num_samples / 2;
        let mut bins: Vec<ComplexBits> = Vec::new();
        let mut j: usize = 0;
        while j < half
            invariant
                j <= half,
                half <= full@.len(),
                bins@.len() == j,
                forall|k: int| 0 <= k < j ==> bins@[k] == full@[k],
            decreases half - j,
        {
            bins.push(full[j]);
            j += 1;
        }
        let r = Spectrum { bins, sample_rate, num_samples };
        proof {
            assert(r.spec_bins() =~= full@.take((num_samples / 2) as int));
        }
        r
    }

    /// The number of retained frequency bins.
    pub fn len(&self) -> (r: usize)
        ensures
            r == self.spec_len(),
    {
        self.bins.len()
    }

    /// The complex amplitude of one retained bin, as a pair of 64-bit
    /// float bit patterns.
    pub fn bin(&self, i: usize) -> (r: ComplexBits)
        requires
            i < self.spec_len(),
        ensures
            r == self.spec_bins()[i as int],
    {
        self.bins[i]
    }

    /// The sample rate of the originating channel.
    pub fn sample_rate(&self) -> (r: u32)
        ensures
            r == self.spec_rate(),
    {
        self.sample_rate
    }

    /// The sample count of the originating channel, before truncation; the
    /// bin-to-frequency mapping divides by this count, not by the retained
    /// bin count.
    pub fn num_samples(&self) -> (r: usize)
        ensures
            r == self.spec_num_samples(),
    {
        self.num_samples
    }
}

} // verus!
