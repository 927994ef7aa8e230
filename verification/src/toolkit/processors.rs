//! The full set of stock processors: identity, gain, white noise, and a WAV
//! file player.

use crate::processor::{min2, AudioProcessor, AudioProcessorData};
use crate::sample::{
    div_toward_zero, div_toward_zero_i64, gain_sample, lemma_div_toward_zero_bound,
    sample_in_range, SAMPLE_LIMIT, SAMPLE_SCALE,
};
use crate::toolkit::{gain_process, identity_process};
use vstd::arithmetic::div_mod::lemma_div_multiples_vanish;
use vstd::arithmetic::mul::lemma_mul_inequality;
use vstd::arithmetic::power2::{lemma2_to64, lemma_pow2_strictly_increases, lemma_pow2_unfold, pow2};
use vstd::prelude::*;

verus! {

/// Identity processor, does literally nothing to the samples it forwards.
pub struct Identity;

impl AudioProcessor for Identity {
    /// Copies input to output over the active length and touches nothing
    /// beyond it.
    fn process(&mut self, data: &mut AudioProcessorData)
        ensures
            final(data).input_buffer == old(data).input_buffer,
            forall|i: int|
                0 <= i < old(data).active_len() ==> final(data).output_buffer.data@[i] == old(data).input_buffer.data@[i],
            forall|i: int|
                old(data).active_len() <= i < old(data).output_buffer.data@.len() ==> final(data).output_buffer.data@[i] == old(data).output_buffer.data@[i],
    {
        identity_process(data);
    }
}

/// Gain processor: scales every visited sample by a fixed amplitude.
pub struct Gain {
    amplitude: i64,
}

impl Gain {
    /// The amplitude is always a representable fixed-point value.
    #[verifier::type_invariant]
    pub closed spec fn inv(self) -> bool {
        sample_in_range(self.amplitude as int)
    }

    /// The fixed-point amplitude this processor scales by.
    pub closed spec fn amplitude(&self) -> int {
        self.amplitude as int
    }

    /// Builds a gain processor with the given fixed-point amplitude.
    pub fn new(amplitude: i64) -> (r: Self)
        requires
            sample_in_range(amplitude as int),
        ensures
            r.amplitude() == amplitude as int,
    {
        Gain { amplitude }
    }
}

impl AudioProcessor for Gain {
    /// Writes `gain_sample(input, amplitude)` to the output over the active
    /// length and touches nothing beyond it.
    fn process(&mut self, data: &mut AudioProcessorData)
        ensures
            *final(self) == *old(self),
            final(data).input_buffer == old(data).input_buffer,
            forall|i: int|
                0 <= i < old(data).active_len() ==> final(data).output_buffer.data@[i]
                    == gain_sample(old(data).input_buffer.data@[i] as int, old(self).amplitude()),
            forall|i: int|
                old(data).active_len() <= i < old(data).output_buffer.data@.len() ==> final(data).output_buffer.data@[i] == old(data).output_buffer.data@[i],
    {
        proof {
            use_type_invariant(&*self);
        }
        gain_process(data, self.amplitude);
    }
}

/// Relies on `rand::random`: draws a `u32` from the thread-local generator.
/// The value is random, so nothing is stated about it; callers handle every
/// possible draw.
#[verifier::external_body]
fn random_u32() -> u32 {
    rand::random::<u32>()
}

/// Half of the fixed-point full-scale value: the white-noise amplitude.
pub const HALF_SCALE: i64 = 0x80_0000;

/// What a white-noise output sample is for a raw random draw `r`: the top 24
/// bits of `r`, shifted onto `[-0.5, 0.5)` in fixed point.
pub open spec fn noise_sample_of(r: u32) -> int {
    (r >> 8) as int - HALF_SCALE as int
}

/// Maps a raw random draw onto a white-noise sample; total over every
/// possible draw, with the result always inside `[-0.5, 0.5)` full scale.
pub fn noise_sample(r: u32) -> (s: i64)
    ensures
        s as int == noise_sample_of(r),
        -HALF_SCALE <= s < HALF_SCALE,
{
    proof {
        assert(r >> 8 < 0x100_0000u32) by (bit_vector);
    }
    let t: i64 = (r >> 8) as i64;
    t - HALF_SCALE
}

/// White noise generator: every visited output sample is a fresh random
/// value in `[-0.5, 0.5)` full scale, whatever the input holds.
pub struct WhiteNoise;

impl AudioProcessor for WhiteNoise {
    /// Fills the output over the active length with samples in
    /// `[-HALF_SCALE, HALF_SCALE)` and touches nothing beyond it.
    fn process(&mut self, data: &mut AudioProcessorData)
        ensures
            final(data).input_buffer == old(data).input_buffer,
            forall|i: int|
                0 <= i < old(data).active_len() ==> -HALF_SCALE <= #[trigger] final(data).output_buffer.data@[i] < HALF_SCALE,
            forall|i: int|
                old(data).active_len() <= i < old(data).output_buffer.data@.len() ==> final(data).output_buffer.data@[i] == old(data).output_buffer.data@[i],
    {
        let active: usize = if data.input_buffer_size <= data.output_buffer_size {
            data.input_buffer_size
        } else {
            data.output_buffer_size
        };
        let mut i: usize = 0;
        while i < active
            invariant
                data.wf(),
                i <= active,
                active as int == old(data).active_len(),
                active <= data.output_buffer.data@.len(),
                data.input_buffer == old(data).input_buffer,
                data.input_buffer_size == old(data).input_buffer_size,
                data.output_buffer_size == old(data).output_buffer_size,
                data.sample_rate == old(data).sample_rate,
                data.output_buffer.channels == old(data).output_buffer.channels,
                data.output_buffer.data@.len() == old(data).output_buffer.data@.len(),
                forall|j: int|
                    0 <= j < i ==> -HALF_SCALE <= #[trigger] data.output_buffer.data@[j]
                        < HALF_SCALE,
                forall|j: int|
                    i <= j < data.output_buffer.data@.len() ==> data.output_buffer.data@[j] == old(data).output_buffer.data@[j],
            decreases active - i,
        {
            let draw = random_u32();
            let s = noise_sample(draw);
            data.output_buffer.data.set(i, s);
            i = i + 1;
        }
    }
}

/// Sample encodings a WAV source can carry.
#[derive(Clone, Copy, PartialEq, Eq, Structural, Debug)]
pub enum WavSampleFormat {
    /// Integer PCM samples, normalised on decoding.
    Int,
    /// Floating-format samples, already converted to fixed point; they pass
    /// through unchanged.
    Float,
}

/// Why a WAV source is rejected at construction.
#[derive(Clone, Copy, PartialEq, Eq, Structural, Debug)]
pub enum WavError {
    /// The declared sample width is outside `1 ..= 32` bits.
    InvalidBitsPerSample,
    /// A raw sample does not fit the declared width (or, for the float
    /// format, the representable range).
    SampleOutOfRange,
}

/// What a raw integer PCM sample of width `bits` decodes to: `v / 2^bits` in
/// fixed point, rounded toward zero.
pub open spec fn normalized_sample(v: int, bits: nat) -> int {
    div_toward_zero(v * SAMPLE_SCALE as int, pow2(bits) as int)
}

/// Whether `v` is an admissible raw sample for the given format and width.
pub open spec fn raw_sample_ok(format: WavSampleFormat, bits: nat, v: int) -> bool {
    match format {
        WavSampleFormat::Int => -(pow2(bits) as int) <= v <= pow2(bits) as int,
        WavSampleFormat::Float => sample_in_range(v),
    }
}

/// What reading one raw sample yields for the given format and width.
pub open spec fn decoded_sample(format: WavSampleFormat, bits: nat, v: int) -> int {
    match format {
        WavSampleFormat::Int => normalized_sample(v, bits),
        WavSampleFormat::Float => v,
    }
}

/// Computes `2^e` exactly.
fn pow2_i64(e: u32) -> (r: i64)
    requires
        e <= 32,
    ensures
        r as int == pow2(e as nat) as int,
        r >= 1,
{
    proof {
        lemma2_to64();
        if e < 32 {
            lemma_pow2_strictly_increases(e as nat, 32);
        }
    }
    let mut r: i64 = 1;
    let mut i: u32 = 0;
    while i < e
        invariant
            i <= e <= 32,
            1 <= r,
            r as int == pow2(i as nat) as int,
            pow2(e as nat) <= 0x1_0000_0000,
        decreases e - i,
    {
        proof {
            lemma_pow2_unfold((i + 1) as nat);
            if i + 1 < e {
                lemma_pow2_strictly_increases((i + 1) as nat, e as nat);
            }
        }
        r = r * 2;
        i = i + 1;
    }
    r
}

/// Decodes a raw integer PCM sample of width `bits` into fixed point,
/// dividing by `2^bits` with rounding toward zero.
fn normalize_sample(v: i64, bits: u32) -> (s: i64)
    requires
        1 <= bits <= 32,
        -(pow2(bits as nat) as int) <= v as int <= pow2(bits as nat) as int,
    ensures
        s as int == normalized_sample(v as int, bits as nat),
        sample_in_range(s as int),
{
    proof {
        lemma2_to64();
        if bits < 32 {
            lemma_pow2_strictly_increases(bits as nat, 32);
        }
        lemma_mul_inequality(v as int, pow2(bits as nat) as int, SAMPLE_SCALE as int);
        lemma_mul_inequality(-(pow2(bits as nat) as int), v as int, SAMPLE_SCALE as int);
        assert(0x1_0000_0000int * 0x100_0000 == 0x100_0000_0000_0000);
        lemma_mul_inequality(pow2(bits as nat) as int, 0x1_0000_0000int, SAMPLE_SCALE as int);
    }
    let p: i64 = v * SAMPLE_SCALE;
    let d: i64 = pow2_i64(bits);
    let q = div_toward_zero_i64(p, d);
    proof {
        lemma_div_toward_zero_bound(
            p as int,
            d as int,
            pow2(bits as nat) as int * SAMPLE_SCALE as int,
        );
        lemma_div_multiples_vanish(SAMPLE_SCALE as int, d as int);
        assert((d as int) * (SAMPLE_SCALE as int) == pow2(bits as nat) as int * SAMPLE_SCALE
            as int);
    }
    q
}

/// WAV file player: replays a decoded sample source, one sample per visited
/// output slot, substituting silence once the source is exhausted. Front-end
/// code decodes the file itself into the raw sample vector; this type owns
/// the cursor and the normalisation.
pub struct WavFile {
    format: WavSampleFormat,
    bits_per_sample: u32,
    samples: Vec<i64>,
    cursor: usize,
}

impl WavFile {
    /// The declared width stays in `1 ..= 32`, the cursor inside the source,
    /// and every raw sample admissible for the format.
    #[verifier::type_invariant]
    pub closed spec fn inv(self) -> bool {
        &&& 1 <= self.bits_per_sample <= 32
        &&& self.cursor <= self.samples@.len()
        &&& forall|i: int|
            0 <= i < self.samples@.len() ==> raw_sample_ok(
                self.format,
                self.bits_per_sample as nat,
                #[trigger] self.samples@[i] as int,
            )
    }

    /// How many samples the source holds.
    pub closed spec fn sample_count(&self) -> int {
        self.samples@.len() as int
    }

    /// The read position: how many samples have been pulled so far.
    pub closed spec fn position(&self) -> int {
        self.cursor as int
    }

    /// What reading source sample `i` yields.
    pub closed spec fn decoded(&self, i: int) -> int {
        decoded_sample(self.format, self.bits_per_sample as nat, self.samples@[i] as int)
    }

    /// Builds a player over a decoded source. Succeeds exactly when the
    /// declared width is in `1 ..= 32` bits and every raw sample is
    /// admissible for the format; the errors name which check failed.
    pub fn new(format: WavSampleFormat, bits_per_sample: u32, samples: Vec<i64>) -> (r: Result<
        WavFile,
        WavError,
    >)
        ensures
            r is Ok <==> (1 <= bits_per_sample <= 32 && forall|i: int|
                0 <= i < samples@.len() ==> raw_sample_ok(
                    format,
                    bits_per_sample as nat,
                    #[trigger] samples@[i] as int,
                )),
            r matches Ok(w) ==> {
                &&& w.sample_count() == samples@.len()
                &&& w.position() == 0
                &&& forall|i: int|
                    0 <= i < samples@.len() ==> w.decoded(i) == decoded_sample(
                        format,
                        bits_per_sample as nat,
                        #[trigger] samples@[i] as int,
                    )
            },
            !(1 <= bits_per_sample <= 32) ==> r == Result::<WavFile, WavError>::Err(
                WavError::InvalidBitsPerSample,
            ),
            (1 <= bits_per_sample <= 32 && !(forall|i: int|
                0 <= i < samples@.len() ==> raw_sample_ok(
                    format,
                    bits_per_sample as nat,
                    #[trigger] samples@[i] as int,
                ))) ==> r == Result::<WavFile, WavError>::Err(WavError::SampleOutOfRange),
    {
        if bits_per_sample < 1 || bits_per_sample > 32 {
            return Err(WavError::InvalidBitsPerSample);
        }
        let bound: i64 = match format {
            WavSampleFormat::Int => pow2_i64(bits_per_sample),
            WavSampleFormat::Float => SAMPLE_LIMIT,
        };
        let mut i: usize = 0;
        while i < samples.len()
            invariant
                i <= samples@.len(),
                1 <= bits_per_sample <= 32,
                (match format {
                    WavSampleFormat::Int => bound as int == pow2(bits_per_sample as nat) as int,
                    WavSampleFormat::Float => bound == SAMPLE_LIMIT,
                }),
                forall|j: int|
                    0 <= j < i ==> raw_sample_ok(
                        format,
                        bits_per_sample as nat,
                        #[trigger] samples@[j] as int,
                    ),
            decreases samples@.len() - i,
        {
            let v = samples[i];
            if v < -bound || v > bound {
                return Err(WavError::SampleOutOfRange);
            }
            i = i + 1;
        }
        Ok(WavFile { format, bits_per_sample, samples, cursor: 0 })
    }

    /// Pulls the next decoded sample, or silence (`0`) once the source is
    /// exhausted; reading past the end is never an error and leaves the
    /// position where it is.
    pub fn next_sample(&mut self) -> (s: i64)
        ensures
            final(self).sample_count() == old(self).sample_count(),
            forall|i: int|
                0 <= i < old(self).sample_count() ==> final(self).decoded(i) == old(self).decoded(
                    i,
                ),
            old(self).position() < old(self).sample_count() ==> (s as int == old(self).decoded(
                old(self).position(),
            ) && final(self).position() == old(self).position() + 1),
            old(self).position() >= old(self).sample_count() ==> (s == 0 && final(self).position()
                == old(self).position()),
            sample_in_range(s as int),
    {
        proof {
            use_type_invariant(&*self);
        }
        if self.cursor < self.samples.len() {
            let v = self.samples[self.cursor];
            let s = match self.format {
                WavSampleFormat::Int => normalize_sample(v, self.bits_per_sample),
                WavSampleFormat::Float => v,
            };
            self.cursor = self.cursor + 1;
            s
        } else {
            0
        }
    }
}

impl AudioProcessor for WavFile {
    /// Fills the output over the active length with consecutive decoded
    /// samples from the current position, silence once the source runs out,
    /// and touches nothing beyond the active length. The input is ignored.
    fn process(&mut self, data: &mut AudioProcessorData)
        ensures
            final(data).input_buffer == old(data).input_buffer,
            final(self).sample_count() == old(self).sample_count(),
            forall|i: int|
                0 <= i < old(self).sample_count() ==> final(self).decoded(i) == old(self).decoded(
                    i,
                ),
            final(self).position() == min2(
                old(self).position() + old(data).active_len(),
                old(self).sample_count(),
            ),
            forall|i: int|
                0 <= i < old(data).active_len() ==> final(data).output_buffer.data@[i] as int == (
                if old(self).position() + i < old(self).sample_count() {
                    old(self).decoded(old(self).position() + i)
                } else {
                    0
                }),
            forall|i: int|
                old(data).active_len() <= i < old(data).output_buffer.data@.len() ==> final(data).output_buffer.data@[i] == old(data).output_buffer.data@[i],
    {
        proof {
            use_type_invariant(&*self);
        }
        let active: usize = if data.input_buffer_size <= data.output_buffer_size {
            data.input_buffer_size
        } else {
            data.output_buffer_size
        };
        let mut i: usize = 0;
        while i < active
            invariant
                data.wf(),
                i <= active,
                active as int == old(data).active_len(),
                active <= data.output_buffer.data@.len(),
                data.input_buffer == old(data).input_buffer,
                data.input_buffer_size == old(data).input_buffer_size,
                data.output_buffer_size == old(data).output_buffer_size,
                data.sample_rate == old(data).sample_rate,
                data.output_buffer.channels == old(data).output_buffer.channels,
                data.output_buffer.data@.len() == old(data).output_buffer.data@.len(),
                self.sample_count() == old(self).sample_count(),
                forall|k: int|
                    0 <= k < old(self).sample_count() ==> self.decoded(k) == old(self).decoded(k),
                self.position() == min2(
                    old(self).position() + i,
                    old(self).sample_count(),
                ),
                old(self).position() >= 0,
                old(self).position() <= old(self).sample_count(),
                forall|j: int|
                    0 <= j < i ==> data.output_buffer.data@[j] as int == (
                    if old(self).position() + j < old(self).sample_count() {
                        old(self).decoded(old(self).position() + j)
                    } else {
                        0
                    }),
                forall|j: int|
                    i <= j < data.output_buffer.data@.len() ==> data.output_buffer.data@[j] == old(data).output_buffer.data@[j],
            decreases active - i,
        {
            let s = self.next_sample();
            data.output_buffer.data.set(i, s);
            i = i + 1;
        }
    }
}

} // verus!
