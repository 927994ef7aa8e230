//! The stream driver's verified core: the callback routine that feeds a
//! variable-sized device buffer through a processor in bounded chunks, and
//! the chunking-equivalence law that justifies the chunk splitting.
//!
//! The unverified front end owns the audio device; on every hardware
//! callback it hands the device buffer (converted to fixed-point samples)
//! and the two persistent buffers to `stream_callback`, then converts the
//! processed samples back to the device's native representation.

use crate::processor::{AudioBuffer, AudioProcessor, AudioProcessorData, MAX_BLOCK_SIZE};
use crate::sample::{gain_sample, sample_in_range};
use crate::toolkit::Gain;
use vstd::arithmetic::div_mod::lemma_fundamental_div_mod;
use vstd::prelude::*;

verus! {

/// The chunk length the callback slices the device buffer into: the largest
/// multiple of `channels` not exceeding `MAX_BLOCK_SIZE`, so no context ever
/// exceeds the fixed capacity and no frame is split across chunks.
pub open spec fn callback_chunk_len(channels: int) -> int {
    MAX_BLOCK_SIZE - (MAX_BLOCK_SIZE as int) % channels
}

/// One invocation of the real-time callback: zeroes the two persistent
/// buffers, splits the device buffer `data` into chunks of
/// `callback_chunk_len(channels)` samples, builds a processing context per
/// chunk, runs the processor on it, and writes the processed samples back.
/// Returns the two buffers so the caller can reuse them on the next call.
/// Every sample written back is representable, whatever the processor did.
pub fn stream_callback<P: AudioProcessor>(
    channels: usize,
    sample_rate: u32,
    input_buffer: AudioBuffer,
    output_buffer: AudioBuffer,
    processor: &mut P,
    data: &mut Vec<i64>,
) -> (buffers: (AudioBuffer, AudioBuffer))
    requires
        input_buffer.wf(),
        output_buffer.wf(),
        input_buffer.channels == channels,
        output_buffer.channels == channels,
    ensures
        final(data)@.len() == old(data)@.len(),
        forall|i: int|
            0 <= i < final(data)@.len() ==> sample_in_range(#[trigger] final(data)@[i] as int),
        buffers.0.wf(),
        buffers.1.wf(),
        buffers.0.channels == channels,
        buffers.1.channels == channels,
{
    let mut input_buffer = input_buffer;
    let mut output_buffer = output_buffer;
    input_buffer.zero();
    output_buffer.zero();
    proof {
        lemma_fundamental_div_mod(MAX_BLOCK_SIZE as int, channels as int);
    }
    let chunk_len: usize = MAX_BLOCK_SIZE - (MAX_BLOCK_SIZE % channels);
    proof {
        assert((channels as int) * ((MAX_BLOCK_SIZE as int) / (channels as int)) >= channels
            as int) by (nonlinear_arith)
            requires
                channels as int >= 1,
                (MAX_BLOCK_SIZE as int) / (channels as int) >= 1,
        ;
        assert((MAX_BLOCK_SIZE as int) / (channels as int) >= 1) by {
            vstd::arithmetic::div_mod::lemma_div_non_zero(MAX_BLOCK_SIZE as int, channels as int);
        }
    }
    let mut ctx = AudioProcessorData::new(input_buffer, 0, output_buffer, 0, sample_rate);
    let n = data.len();
    let mut pos: usize = 0;
    while pos < n
        invariant
            ctx.wf(),
            ctx.input_buffer.channels == channels,
            ctx.output_buffer.channels == channels,
            1 <= chunk_len <= MAX_BLOCK_SIZE,
            n == data@.len(),
            data@.len() == old(data)@.len(),
            pos <= n,
            forall|i: int| 0 <= i < pos ==> sample_in_range(#[trigger] data@[i] as int),
        decreases n - pos,
    {
        let remaining = n - pos;
        let this_chunk = if remaining < chunk_len {
            remaining
        } else {
            chunk_len
        };
        ctx.input_buffer_size = this_chunk;
        ctx.output_buffer_size = this_chunk;
        processor.process(&mut ctx);
        let mut j: usize = 0;
        while j < this_chunk
            invariant
                ctx.wf(),
                ctx.input_buffer.channels == channels,
                ctx.output_buffer.channels == channels,
                j <= this_chunk,
                this_chunk as int <= n - pos,
                1 <= chunk_len <= MAX_BLOCK_SIZE,
                this_chunk <= MAX_BLOCK_SIZE,
                n == data@.len(),
                data@.len() == old(data)@.len(),
                forall|i: int| 0 <= i < pos + j ==> sample_in_range(#[trigger] data@[i] as int),
            decreases this_chunk - j,
        {
            let v = ctx.output_buffer.data[j];
            data.set(pos + j, v);
            j = j + 1;
        }
        pos = pos + this_chunk;
    }
    let AudioProcessorData { input_buffer, output_buffer, .. } = ctx;
    (input_buffer, output_buffer)
}

/// Elementwise gain over a whole sample sequence: what a single unbounded
/// pass over `s` with amplitude `a` produces.
pub open spec fn gain_seq(s: Seq<i64>, a: int) -> Seq<int> {
    Seq::new(s.len(), |i: int| gain_sample(s[i] as int, a))
}

/// Law (chunking equivalence): the gain transform is stateless, so
/// processing a sequence in two consecutive pieces — however it is cut —
/// produces exactly the concatenation of processing each piece alone, which
/// equals the single unbounded pass over the whole sequence. Applied
/// repeatedly, any partition into bounded chunks yields the same samples as
/// one pass.
pub proof fn lemma_chunking_equivalence(s: Seq<i64>, a: int, cut: int)
    requires
        0 <= cut <= s.len(),
    ensures
        gain_seq(s, a) == gain_seq(s.subrange(0, cut), a) + gain_seq(
            s.subrange(cut, s.len() as int),
            a,
        ),
{
    assert(gain_seq(s, a) =~= gain_seq(s.subrange(0, cut), a) + gain_seq(
        s.subrange(cut, s.len() as int),
        a,
    ));
}

/// Processes `samples` through a gain processor in consecutive chunks of at
/// most `chunk_size` samples — the way the callback feeds a device buffer
/// through a processor — and returns exactly the samples a single unbounded
/// pass would produce: `gain_seq(samples@, amplitude)`.
pub fn apply_gain_chunked(samples: &Vec<i64>, amplitude: i64, chunk_size: usize) -> (out: Vec<
    i64,
>)
    requires
        forall|i: int|
            0 <= i < samples@.len() ==> sample_in_range(#[trigger] samples@[i] as int),
        sample_in_range(amplitude as int),
        1 <= chunk_size <= MAX_BLOCK_SIZE,
    ensures
        out@.len() == samples@.len(),
        forall|i: int|
            0 <= i < out@.len() ==> #[trigger] out@[i] as int == gain_seq(
                samples@,
                amplitude as int,
            )[i],
{
    let mut gain = Gain::new(amplitude);
    let mut ctx = AudioProcessorData::new(AudioBuffer::new(1), 0, AudioBuffer::new(1), 0, 1);
    let n = samples.len();
    let mut out: Vec<i64> = Vec::new();
    let mut pos: usize = 0;
    while pos < n
        invariant
            ctx.wf(),
            gain.amplitude() == amplitude as int,
            sample_in_range(amplitude as int),
            n == samples@.len(),
            forall|i: int|
                0 <= i < samples@.len() ==> sample_in_range(#[trigger] samples@[i] as int),
            1 <= chunk_size <= MAX_BLOCK_SIZE,
            pos <= n,
            out@.len() == pos,
            forall|i: int|
                0 <= i < pos ==> #[trigger] out@[i] as int == gain_sample(
                    samples@[i] as int,
                    amplitude as int,
                ),
        decreases n - pos,
    {
        let remaining = n - pos;
        let this_chunk = if remaining < chunk_size {
            remaining
        } else {
            chunk_size
        };
        let mut j: usize = 0;
        while j < this_chunk
            invariant
                ctx.wf(),
                j <= this_chunk,
                this_chunk as int <= n - pos,
                this_chunk <= MAX_BLOCK_SIZE,
                pos <= n,
                n == samples@.len(),
                forall|i: int|
                    0 <= i < samples@.len() ==> sample_in_range(#[trigger] samples@[i] as int),
                forall|k: int|
                    0 <= k < j ==> ctx.input_buffer.data@[k] == samples@[pos + k],
            decreases this_chunk - j,
        {
            let v = samples[pos + j];
            ctx.input_buffer.data.set(j, v);
            j = j + 1;
        }
        ctx.input_buffer_size = this_chunk;
        ctx.output_buffer_size = this_chunk;
        gain.process(&mut ctx);
        let mut j: usize = 0;
        while j < this_chunk
            invariant
                ctx.wf(),
                gain.amplitude() == amplitude as int,
                j <= this_chunk,
                this_chunk as int <= n - pos,
                this_chunk <= MAX_BLOCK_SIZE,
                pos <= n,
                n == samples@.len(),
                out@.len() == pos + j,
                forall|k: int|
                    0 <= k < this_chunk ==> ctx.output_buffer.data@[k] as int == gain_sample(
                        samples@[pos + k] as int,
                        amplitude as int,
                    ),
                forall|i: int|
                    0 <= i < pos + j ==> #[trigger] out@[i] as int == gain_sample(
                        samples@[i] as int,
                        amplitude as int,
                    ),
            decreases this_chunk - j,
        {
            let v = ctx.output_buffer.data[j];
            out.push(v);
            j = j + 1;
        }
        pos = pos + this_chunk;
    }
    out
}

} // verus!
