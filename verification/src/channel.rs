//! An immutable byte buffer of encoded samples with its format metadata.
//!
//! The byte buffer is the single source of truth: every sample is decoded
//! from it on demand. A channel is homogeneous — all of its samples share
//! one storage representation — and its buffer length is always an exact
//! multiple of that representation's width, so the sample count follows
//! arithmetically from the buffer length.

use vstd::arithmetic::div_mod::{
    lemma_div_multiples_vanish, lemma_fundamental_div_mod, lemma_mod_division_less_than_divisor,
};
use vstd::arithmetic::mul::lemma_mul_inequality;
use vstd::prelude::*;

use crate::codec::{
    decode_at, lemma_decode_encode, lemma_encode_len, push_encoded, spec_decode, spec_encode,
};
use crate::sample::{Sample, SampleKind};

verus! {

/// The sample chunk beginning at index `i * width` lies inside a buffer
/// whose length is `len`, whenever `i` is below `len / width`.
proof fn lemma_chunk_in_bounds(i: int, w: int, len: int)
    requires
        1 <= w,
        0 <= len,
        0 <= i < len / w,
    ensures
        0 <= i * w,
        i * w + w <= len,
{
    lemma_fundamental_div_mod(len, w);
    lemma_mod_division_less_than_divisor(len, w);
    lemma_mul_inequality(i + 1, len / w, w);
    assert((i + 1) * w == i * w + w) by (nonlinear_arith);
    assert((len / w) * w <= len) by {
        assert(w * (len / w) == (len / w) * w) by (nonlinear_arith);
    }
    assert(i * w >= 0) by (nonlinear_arith)
        requires
            0 <= i && 1 <= w,
    ;
}

/// An immutable sequence of raw sample bytes together with the bit depth,
/// storage representation and sample rate they were recorded with.
#[derive(Clone, Debug, PartialEq)]
pub struct Channel {
    data: Vec<u8>,
    kind: SampleKind,
    bits_per_sample: u16,
    sample_rate: u32,
}

impl Channel {
    /// The storage representation of this channel's samples.
    pub closed spec fn spec_kind(&self) -> SampleKind {
        self.kind
    }

    /// The declared number of significant bits per sample.
    pub closed spec fn spec_bits(&self) -> u16 {
        self.bits_per_sample
    }

    /// The sample rate in Hz.
    pub closed spec fn spec_rate(&self) -> u32 {
        self.sample_rate
    }

    /// The raw encoded bytes.
    pub closed spec fn spec_data(&self) -> Seq<u8> {
        self.data@
    }

    /// The number of samples held: the buffer length divided by the width of
    /// one stored sample.
    pub open spec fn spec_count(&self) -> nat {
        self.spec_data().len() / self.spec_kind().spec_width()
    }

    /// The declared bit depth fits the storage representation: each
    /// representation covers bit depths from 1 up to its own width in bits.
    pub open spec fn bits_fit_kind(bits: u16, kind: SampleKind) -> bool {
        match kind {
            SampleKind::Int8 => 1 <= bits <= 8,
            SampleKind::Int16 => 1 <= bits <= 16,
            SampleKind::Int32 => 1 <= bits <= 32,
            SampleKind::Float32 => 1 <= bits <= 32,
        }
    }

    /// Well-formedness: the buffer is an exact multiple of the sample width,
    /// the bit depth fits the representation, and the sample rate is
    /// positive.
    pub open spec fn wf(&self) -> bool {
        &&& self.spec_data().len() % self.spec_kind().spec_width() == 0
        &&& Self::bits_fit_kind(self.spec_bits(), self.spec_kind())
        &&& self.spec_rate() >= 1
    }

    /// The sequence of samples this channel holds, each decoded from its
    /// chunk of the byte buffer.
    pub open spec fn samples(&self) -> Seq<Sample> {
        Seq::new(
            self.spec_count(),
            |i: int|
                spec_decode(
                    self.spec_kind(),
                    self.spec_data().subrange(
                        i * self.spec_kind().spec_width(),
                        i * self.spec_kind().spec_width() + self.spec_kind().spec_width(),
                    ),
                ),
        )
    }

    /// No sample of this channel is a float NaN. Integer channels satisfy
    /// this vacuously.
    pub open spec fn spec_no_nan(&self) -> bool {
        forall|i: int|
            0 <= i < self.spec_count() ==> !(#[trigger] self.samples()[i]).spec_is_nan()
    }

    /// Every sample a channel yields carries the channel's representation.
    pub proof fn lemma_samples_match_kind(&self)
        ensures
            forall|i: int|
                0 <= i < self.spec_count() ==> (#[trigger] self.samples()[i]).spec_kind()
                    == self.spec_kind(),
    {
        assert forall|i: int| 0 <= i < self.spec_count() implies (#[trigger] self.samples()[i]).spec_kind()
            == self.spec_kind() by {
            let s = self.samples()[i];
            match self.spec_kind() {
                SampleKind::Int8 => assert(s is Int8),
                SampleKind::Int16 => assert(s is Int16),
                SampleKind::Int32 => assert(s is Int32),
                SampleKind::Float32 => assert(s is Float32),
            }
        }
    }

    /// The sample count always agrees with the length of the decoded sample
    /// sequence.
    pub proof fn lemma_count_matches_samples(&self)
        ensures
            self.samples().len() == self.spec_count(),
    {
    }

    /// An integer channel has no NaN samples.
    pub proof fn lemma_int_channel_no_nan(&self)
        requires
            self.spec_kind() != SampleKind::Float32,
        ensures
            self.spec_no_nan(),
    {
        self.lemma_samples_match_kind();
    }

    /// Builds a channel holding the given samples, which must all carry the
    /// given representation.
    pub(crate) fn from_sample_vec(samples: &Vec<Sample>, kind: SampleKind, bits_per_sample: u16, sample_rate: u32) -> (r: Channel)
        requires
            forall|k: int|
                0 <= k < samples@.len() ==> (#[trigger] samples@[k]).spec_kind() == kind,
            Self::bits_fit_kind(bits_per_sample, kind),
            sample_rate >= 1,
        ensures
            r.wf(),
            r.spec_kind() == kind,
            r.spec_bits() == bits_per_sample,
            r.spec_rate() == sample_rate,
            r.spec_count() == samples@.len(),
            r.samples() == samples@,
    {
        let ghost w = kind.spec_width() as int;
        let mut data: Vec<u8> = Vec::new();
        let mut j: usize = 0;
        while j < samples.len()
            invariant
                j <= samples@.len(),
                data@.len() == j * w,
                w == kind.spec_width(),
                1 <= w <= 4,
                forall|k: int|
                    0 <= k < samples@.len() ==> (#[trigger] samples@[k]).spec_kind() == kind,
                forall|k: int|
                    0 <= k < j ==> data@.subrange(k * w, k * w + w) == spec_encode(
                        #[trigger] samples@[k],
                    ),
            decreases samples@.len() - j,
        {
            let ghost old_data = data@;
            let s = samples[j];
            push_encoded(&mut data, s);
            proof {
                lemma_encode_len(s);
                assert(data@.len() == (j + 1) * w) by (nonlinear_arith)
                    requires
                        data@.len() == old_data.len() + w && old_data.len() == j * w,
                ;
                assert forall|k: int| 0 <= k < j + 1 implies data@.subrange(k * w, k * w + w)
                    == spec_encode(#[trigger] samples@[k]) by {
                    assert(0 <= k * w && k * w + w <= (j + 1) * w) by (nonlinear_arith)
                        requires
                            0 <= k < j + 1 && 1 <= w,
                    ;
                    if k < j {
                        assert(k * w + w <= j * w) by (nonlinear_arith)
                            requires
                                k < j && 1 <= w,
                        ;
                        assert(data@.subrange(k * w, k * w + w) =~= old_data.subrange(
                            k * w,
                            k * w + w,
                        ));
                    } else {
                        assert(data@.subrange(k * w, k * w + w) =~= spec_encode(samples@[k]));
                    }
                }
            }
            j += 1;
        }
        let r = Channel { data, kind, bits_per_sample, sample_rate };
        proof {
            let n = samples@.len() as int;
            assert(r.spec_data().len() == n * w);
            assert((w * n) % w == 0 && (w * n) / w == n) by {
                lemma_div_multiples_vanish(n, w);
                vstd::arithmetic::div_mod::lemma_mod_multiples_basic(n, w);
            }
            assert(w * n == n * w) by (nonlinear_arith);
            assert(r.spec_count() == n);
            assert forall|i: int| 0 <= i < n implies r.samples()[i] == samples@[i] by {
                assert(r.spec_data().subrange(i * w, i * w + w) == spec_encode(samples@[i]));
                lemma_decode_encode(samples@[i]);
            }
            assert(r.samples() =~= samples@);
        }
        r
    }

    /// Builds an 8-bit-representation channel from signed 8-bit samples.
    /// The bit depth must lie in 1..=8.
    pub fn from_samples_i8(samples: &Vec<i8>, bits_per_sample: u16, sample_rate: u32) -> (r: Channel)
        requires
            1 <= bits_per_sample <= 8,
            sample_rate >= 1,
        ensures
            r.wf(),
            r.spec_kind() == SampleKind::Int8,
            r.spec_bits() == bits_per_sample,
            r.spec_rate() == sample_rate,
            r.spec_count() == samples@.len(),
            r.samples() == Seq::new(samples@.len(), |i: int| Sample::Int8(samples@[i])),
            r.spec_no_nan(),
    {
        let mut tagged: Vec<Sample> = Vec::new();
        let mut j: usize = 0;
        while j < samples.len()
            invariant
                j <= samples@.len(),
                tagged@ == Seq::new(j as nat, |i: int| Sample::Int8(samples@[i])),
            decreases samples@.len() - j,
        {
            tagged.push(Sample::Int8(samples[j]));
            proof {
                assert(tagged@ =~= Seq::new((j + 1) as nat, |i: int| Sample::Int8(samples@[i])));
            }
            j += 1;
        }
        let r = Self::from_sample_vec(&tagged, SampleKind::Int8, bits_per_sample, sample_rate);
        proof {
            r.lemma_int_channel_no_nan();
        }
        r
    }

    /// Builds a 16-bit-representation channel from signed 16-bit samples.
    /// The bit depth must lie in 1..=16.
    pub fn from_samples_i16(samples: &Vec<i16>, bits_per_sample: u16, sample_rate: u32) -> (r: Channel)
        requires
            1 <= bits_per_sample <= 16,
            sample_rate >= 1,
        ensures
            r.wf(),
            r.spec_kind() == SampleKind::Int16,
            r.spec_bits() == bits_per_sample,
            r.spec_rate() == sample_rate,
            r.spec_count() == samples@.len(),
            r.samples() == Seq::new(samples@.len(), |i: int| Sample::Int16(samples@[i])),
            r.spec_no_nan(),
    {
        let mut tagged: Vec<Sample> = Vec::new();
        let mut j: usize = 0;
        while j < samples.len()
            invariant
                j <= samples@.len(),
                tagged@ == Seq::new(j as nat, |i: int| Sample::Int16(samples@[i])),
            decreases samples@.len() - j,
        {
            tagged.push(Sample::Int16(samples[j]));
            proof {
                assert(tagged@ =~= Seq::new((j + 1) as nat, |i: int| Sample::Int16(samples@[i])));
            }
            j += 1;
        }
        let r = Self::from_sample_vec(&tagged, SampleKind::Int16, bits_per_sample, sample_rate);
        proof {
            r.lemma_int_channel_no_nan();
        }
        r
    }

    /// Builds a 32-bit-representation channel from signed 32-bit samples.
    /// The bit depth must lie in 1..=32.
    pub fn from_samples_i32(samples: &Vec<i32>, bits_per_sample: u16, sample_rate: u32) -> (r: Channel)
        requires
            1 <= bits_per_sample <= 32,
            sample_rate >= 1,
        ensures
            r.wf(),
            r.spec_kind() == SampleKind::Int32,
            r.spec_bits() == bits_per_sample,
            r.spec_rate() == sample_rate,
            r.spec_count() == samples@.len(),
            r.samples() == Seq::new(samples@.len(), |i: int| Sample::Int32(samples@[i])),
            r.spec_no_nan(),
    {
        let mut tagged: Vec<Sample> = Vec::new();
        let mut j: usize = 0;
        while j < samples.len()
            invariant
                j <= samples@.len(),
                tagged@ == Seq::new(j as nat, |i: int| Sample::Int32(samples@[i])),
            decreases samples@.len() - j,
        {
            tagged.push(Sample::Int32(samples[j]));
            proof {
                assert(tagged@ =~= Seq::new((j + 1) as nat, |i: int| Sample::Int32(samples@[i])));
            }
            j += 1;
        }
        let r = Self::from_sample_vec(&tagged, SampleKind::Int32, bits_per_sample, sample_rate);
        proof {
            r.lemma_int_channel_no_nan();
        }
        r
    }

    /// Builds a float-representation channel from 32-bit float samples given
    /// as their IEEE 754 bit patterns. The bit depth must lie in 1..=32.
    pub fn from_samples_f32(samples: &Vec<u32>, bits_per_sample: u16, sample_rate: u32) -> (r: Channel)
        requires
            1 <= bits_per_sample <= 32,
            sample_rate >= 1,
        ensures
            r.wf(),
            r.spec_kind() == SampleKind::Float32,
            r.spec_bits() == bits_per_sample,
            r.spec_rate() == sample_rate,
            r.spec_count() == samples@.len(),
            r.samples() == Seq::new(samples@.len(), |i: int| Sample::Float32(samples@[i])),
    {
        let mut tagged: Vec<Sample> = Vec::new();
        let mut j: usize = 0;
        while j < samples.len()
            invariant
                j <= samples@.len(),
                tagged@ == Seq::new(j as nat, |i: int| Sample::Float32(samples@[i])),
            decreases samples@.len() - j,
        {
            tagged.push(Sample::Float32(samples[j]));
            proof {
                assert(tagged@ =~= Seq::new((j + 1) as nat, |i: int| Sample::Float32(samples@[i])));
            }
            j += 1;
        }
        let r = Self::from_sample_vec(&tagged, SampleKind::Float32, bits_per_sample, sample_rate);
        r
    }

    /// The sample rate in Hz.
    pub fn sample_rate(&self) -> (r: u32)
        ensures
            r == self.spec_rate(),
    {
        self.sample_rate
    }

    /// The width in bytes of one stored sample.
    fn width(&self) -> (r: usize)
        ensures
            r == self.spec_kind().spec_width(),
    {
        match self.kind {
            SampleKind::Int8 => 1,
            SampleKind::Int16 => 2,
            SampleKind::Int32 => 4,
            SampleKind::Float32 => 4,
        }
    }

    /// The exact number of samples held, computed from the buffer length
    /// without decoding.
    pub fn count(&self) -> (r: usize)
        ensures
            r == self.spec_count(),
    {
        self.data.len() / self.width()
    }

    /// The smallest value representable by this channel's storage type.
    pub fn lower_bound(&self) -> (r: Sample)
        ensures
            r == self.spec_kind().spec_lower_bound(),
    {
        match self.kind {
            SampleKind::Int8 => Sample::Int8(i8::MIN),
            SampleKind::Int16 => Sample::Int16(i16::MIN),
            SampleKind::Int32 => Sample::Int32(i32::MIN),
            // The bit pattern of the most negative finite 32-bit float.
            SampleKind::Float32 => Sample::Float32(0xff7f_ffff),
        }
    }

    /// The largest value representable by this channel's storage type.
    pub fn upper_bound(&self) -> (r: Sample)
        ensures
            r == self.spec_kind().spec_upper_bound(),
    {
        match self.kind {
            SampleKind::Int8 => Sample::Int8(i8::MAX),
            SampleKind::Int16 => Sample::Int16(i16::MAX),
            SampleKind::Int32 => Sample::Int32(i32::MAX),
            // The bit pattern of the largest finite 32-bit float.
            SampleKind::Float32 => Sample::Float32(0x7f7f_ffff),
        }
    }

    /// Decodes the sample at the given position.
    pub fn sample_at(&self, i: usize) -> (r: Sample)
        requires
            i < self.spec_count(),
        ensures
            r == self.samples()[i as int],
    {
        let w = self.width();
        let len = self.data.len();
        proof {
            lemma_chunk_in_bounds(i as int, w as int, len as int);
        }
        let offset = i * w;
        decode_at(self.kind, &self.data, offset)
    }

    /// A fresh lazy iteration over this channel's samples, starting at the
    /// first sample.
    pub fn iter(&self) -> (r: ChannelIter<'_>)
        ensures
            r.spec_channel() == *self,
            r.spec_pos() == 0,
    {
        ChannelIter { channel: self, pos: 0 }
    }

    /// The smallest sample, under the order of the channel's representation;
    /// the representation's upper bound when the channel is empty. Ties keep
    /// the earliest sample. A channel of two or more samples must be free of
    /// NaN floats: comparing against a NaN is undefined. A lone sample is
    /// returned without comparison.
    pub fn min(&self) -> (r: Sample)
        requires
            self.spec_count() <= 1 || self.spec_no_nan(),
        ensures
            self.spec_count() == 0 ==> r == self.spec_kind().spec_upper_bound(),
            self.spec_count() > 0 ==> (exists|i: int|
                {
                    &&& 0 <= i < self.spec_count()
                    &&& r == #[trigger] self.samples()[i]
                    &&& forall|j: int| 0 <= j < i ==> !(#[trigger] self.samples()[j]).spec_le(&r)
                }),
            self.spec_count() > 0 ==> forall|i: int|
                0 <= i < self.spec_count() ==> r.spec_le(&#[trigger] self.samples()[i]),
    {
        proof {
            self.lemma_samples_match_kind();
        }
        let n = self.count();
        if n == 0 {
            return self.upper_bound();
        }
        let mut best = self.sample_at(0);
        let ghost mut best_at = 0int;
        let mut i: usize = 1;
        while i < n
            invariant
                1 <= i <= n,
                n == self.spec_count(),
                n <= 1 || self.spec_no_nan(),
                forall|k: int|
                    0 <= k < self.spec_count() ==> (#[trigger] self.samples()[k]).spec_kind()
                        == self.spec_kind(),
                0 <= best_at < i,
                best == self.samples()[best_at],
                forall|k: int| 0 <= k < i ==> best.spec_le(&#[trigger] self.samples()[k]),
                forall|k: int| 0 <= k < best_at ==> !(#[trigger] self.samples()[k]).spec_le(&best),
            decreases n - i,
        {
            let s = self.sample_at(i);
            if !best.le(&s) {
                best = s;
                proof {
                    best_at = i as int;
                }
            }
            i += 1;
        }
        proof {
            assert(self.samples()[best_at] == best);
        }
        best
    }

    /// The largest sample, under the order of the channel's representation;
    /// the representation's upper bound when the channel is empty. Ties keep
    /// the latest sample. A channel of two or more samples must be free of
    /// NaN floats: comparing against a NaN is undefined. A lone sample is
    /// returned without comparison.
    pub fn max(&self) -> (r: Sample)
        requires
            self.spec_count() <= 1 || self.spec_no_nan(),
        ensures
            self.spec_count() == 0 ==> r == self.spec_kind().spec_upper_bound(),
            self.spec_count() > 0 ==> (exists|i: int|
                {
                    &&& 0 <= i < self.spec_count()
                    &&& r == #[trigger] self.samples()[i]
                    &&& forall|j: int|
                        i < j < self.spec_count() ==> !r.spec_le(
                            &#[trigger] self.samples()[j],
                        )
                }),
            self.spec_count() > 0 ==> forall|i: int|
                0 <= i < self.spec_count() ==> (#[trigger] self.samples()[i]).spec_le(&r),
    {
        proof {
            self.lemma_samples_match_kind();
        }
        let n = self.count();
        if n == 0 {
            return self.upper_bound();
        }
        let mut best = self.sample_at(0);
        let ghost mut best_at = 0int;
        let mut i: usize = 1;
        while i < n
            invariant
                1 <= i <= n,
                n == self.spec_count(),
                n <= 1 || self.spec_no_nan(),
                forall|k: int|
                    0 <= k < self.spec_count() ==> (#[trigger] self.samples()[k]).spec_kind()
                        == self.spec_kind(),
                0 <= best_at < i,
                best == self.samples()[best_at],
                forall|k: int| 0 <= k < i ==> (#[trigger] self.samples()[k]).spec_le(&best),
                forall|k: int| best_at < k < i ==> !best.spec_le(&#[trigger] self.samples()[k]),
            decreases n - i,
        {
            let s = self.sample_at(i);
            if best.le(&s) {
                best = s;
                proof {
                    best_at = i as int;
                }
            }
            i += 1;
        }
        proof {
            assert(self.samples()[best_at] == best);
        }
        best
    }
}

/// A lazy, restartable iteration over one channel's samples. Each call to
/// `Channel::iter` yields an independent fresh iteration; the channel is
/// never mutated.
pub struct ChannelIter<'a> {
    channel: &'a Channel,
    pos: usize,
}

impl<'a> ChannelIter<'a> {
    /// The channel being iterated.
    pub closed spec fn spec_channel(&self) -> Channel {
        *self.channel
    }

    /// The position of the next sample to yield.
    pub closed spec fn spec_pos(&self) -> nat {
        self.pos as nat
    }

    /// Yields the next sample, or `None` when the channel is exhausted.
    pub fn next(&mut self) -> (r: Option<Sample>)
        ensures
            final(self).spec_channel() == old(self).spec_channel(),
            old(self).spec_pos() < old(self).spec_channel().spec_count() ==> {
                &&& r == Some(old(self).spec_channel().samples()[old(self).spec_pos() as int])
                &&& final(self).spec_pos() == old(self).spec_pos() + 1
            },
            old(self).spec_pos() >= old(self).spec_channel().spec_count() ==> {
                &&& r is None
                &&& final(self).spec_pos() == old(self).spec_pos()
            },
    {
        if self.pos < self.channel.count() {
            let s = self.channel.sample_at(self.pos);
            self.pos = self.pos + 1;
            Some(s)
        } else {
            None
        }
    }
}

} // verus!
