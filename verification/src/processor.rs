//! Fixed-capacity multi-channel sample storage, the processing context that
//! pairs an input and an output buffer, and the processor capability trait.

use crate::sample::sample_in_range;
use vstd::arithmetic::div_mod::lemma_fundamental_div_mod;
use vstd::prelude::*;

verus! {

/// Hard ceiling on the number of samples a processor sees in one call.
pub const MAX_BLOCK_SIZE: usize = 1024;

/// The smaller of two lengths; frame pairing stops at the shorter side.
pub open spec fn min2(a: int, b: int) -> int {
    if a <= b {
        a
    } else {
        b
    }
}

/// Number of frames that chunking `size` samples into groups of `c` yields:
/// `size / c` rounded up, the final frame being short when `c` does not
/// divide `size`.
pub open spec fn ceil_div(size: int, c: int) -> int {
    (size + c - 1) / c
}

/// Where frame `f` of a chunking into groups of `c` ends within the first
/// `size` samples.
pub open spec fn frame_end(c: int, f: int, size: int) -> int {
    if c * (f + 1) <= size {
        c * (f + 1)
    } else {
        size
    }
}

/// The sequence of frames covering the first `size` samples of `data` in
/// groups of `c`: frame `f` holds samples `c*f .. min(c*(f+1), size)`.
pub open spec fn frame_seq(data: Seq<i64>, c: int, size: int) -> Seq<Seq<i64>> {
    Seq::new(ceil_div(size, c) as nat, |f: int| data.subrange(c * f, frame_end(c, f, size)))
}

/// The bounds `ceil_div` guarantees: `ceil_div(size, c)` frames of `c`
/// samples reach at least `size`, while one frame fewer falls short.
pub proof fn lemma_ceil_div_bounds(size: int, c: int)
    requires
        1 <= c,
        0 <= size,
    ensures
        0 <= ceil_div(size, c),
        c * ceil_div(size, c) >= size,
        size > 0 ==> c * (ceil_div(size, c) - 1) < size,
        size == 0 ==> ceil_div(size, c) == 0,
{
    let n = ceil_div(size, c);
    lemma_fundamental_div_mod(size + c - 1, c);
    let rr = (size + c - 1) % c;
    assert(size + c - 1 == c * n + rr);
    if size == 0 {
        assert(c * 0 + (c - 1) == c - 1);
        assert(n == 0) by {
            if n >= 1 {
                assert(c * n >= c * 1) by (nonlinear_arith)
                    requires
                        c >= 1,
                        n >= 1,
                ;
            }
            if n <= -1 {
                assert(c * n <= c * (-1)) by (nonlinear_arith)
                    requires
                        c >= 1,
                        n <= -1,
                ;
            }
        }
    } else {
        assert(n >= 0) by {
            if n <= -1 {
                assert(c * n <= c * (-1)) by (nonlinear_arith)
                    requires
                        c >= 1,
                        n <= -1,
                ;
            }
        }
        assert(c * n == size - 1 - rr + c);
        assert(c * (n - 1) == c * n - c) by (nonlinear_arith);
    }
}

/// Law (framing correctness): when the channel count `c` divides the active
/// length `size`, the framing of `size` samples yields exactly `size / c`
/// frames, each of length `c`, and sample `i` appears exactly once, as entry
/// `i % c` of frame `i / c` — the frames cover the first `size` samples with
/// no overlap and no gap.
pub proof fn lemma_framing(data: Seq<i64>, c: int, size: int)
    requires
        1 <= c,
        0 <= size <= data.len(),
        size % c == 0,
    ensures
        frame_seq(data, c, size).len() == size / c,
        forall|f: int| 0 <= f < size / c ==> (#[trigger] frame_seq(data, c, size)[f]).len() == c,
        forall|i: int|
            0 <= i < size ==> frame_seq(data, c, size)[i / c][i % c] == #[trigger] data[i],
{
    let q = size / c;
    lemma_fundamental_div_mod(size, c);
    assert(size == c * q);
    assert(q >= 0) by {
        if q <= -1 {
            assert(c * q <= c * (-1)) by (nonlinear_arith)
                requires
                    c >= 1,
                    q <= -1,
            ;
        }
    }
    if q == 0 {
        assert(c * q == 0) by (nonlinear_arith)
            requires
                q == 0,
        ;
        assert(size == 0);
        assert(ceil_div(size, c) == 0) by {
            lemma_ceil_div_bounds(size, c);
        }
    } else {
        vstd::arithmetic::div_mod::lemma_div_multiples_vanish_fancy(q, c - 1, c);
        assert(ceil_div(size, c) == (c * q + (c - 1)) / c);
    }
    assert forall|f: int| 0 <= f < q implies (#[trigger] frame_seq(data, c, size)[f]).len()
        == c by {
        assert(c * (f + 1) <= c * q) by (nonlinear_arith)
            requires
                c >= 1,
                f + 1 <= q,
        ;
        assert(c * (f + 1) == c * f + c) by (nonlinear_arith);
        assert(c * f >= 0) by (nonlinear_arith)
            requires
                c >= 0,
                f >= 0,
        ;
    }
    assert forall|i: int| 0 <= i < size implies frame_seq(data, c, size)[i / c][i % c]
        == #[trigger] data[i] by {
        let f = i / c;
        let j = i % c;
        lemma_fundamental_div_mod(i, c);
        assert(i == c * f + j);
        vstd::arithmetic::div_mod::lemma_multiply_divide_lt(i, c, q);
        assert(f < q);
        assert(f >= 0) by {
            if f <= -1 {
                assert(c * f + j <= c * (-1) + j) by (nonlinear_arith)
                    requires
                        c >= 1,
                        f <= -1,
                        j == i % c,
                ;
            }
        }
        assert(0 <= j < c) by (nonlinear_arith)
            requires
                c >= 1,
                j == i % c,
        ;
        assert(c * (f + 1) == c * f + c) by (nonlinear_arith);
        assert(c * (f + 1) <= c * q) by (nonlinear_arith)
            requires
                c >= 1,
                f + 1 <= q,
        ;
        assert(frame_end(c, f, size) == c * f + c);
        assert(frame_seq(data, c, size)[f] == data.subrange(c * f, c * f + c));
        assert(data.subrange(c * f, c * f + c)[j] == data[c * f + j]);
    }
}

/// Fixed-capacity multi-channel sample storage. The backing vector always
/// holds exactly `MAX_BLOCK_SIZE` samples; the active length is tracked by
/// whoever uses the buffer, never by resizing.
pub struct AudioBuffer {
    /// Number of interleaved channels; one frame holds this many samples.
    pub channels: usize,
    /// The sample storage, always `MAX_BLOCK_SIZE` long.
    pub data: Vec<i64>,
}

impl AudioBuffer {
    /// Well-formedness: at least one channel, no more channels than one block
    /// can hold, full-capacity storage, every sample representable.
    pub open spec fn wf(&self) -> bool {
        &&& 1 <= self.channels <= MAX_BLOCK_SIZE
        &&& self.data@.len() == MAX_BLOCK_SIZE
        &&& forall|i: int| 0 <= i < self.data@.len() ==> sample_in_range(#[trigger] self.data@[i] as int)
    }

    /// Allocates a zeroed buffer for `channels` interleaved channels.
    pub fn new(channels: usize) -> (r: Self)
        requires
            1 <= channels <= MAX_BLOCK_SIZE,
        ensures
            r.wf(),
            r.channels == channels,
            forall|i: int| 0 <= i < r.data@.len() ==> r.data@[i] == 0,
    {
        let mut data: Vec<i64> = Vec::new();
        let mut i: usize = 0;
        while i < MAX_BLOCK_SIZE
            invariant
                i <= MAX_BLOCK_SIZE,
                data@.len() == i,
                forall|j: int| 0 <= j < i ==> data@[j] == 0,
            decreases MAX_BLOCK_SIZE - i,
        {
            data.push(0);
            i = i + 1;
        }
        AudioBuffer { channels, data }
    }

    /// Resets every storage slot to zero; used once per callback before the
    /// buffer is reused, so no stale samples leak between calls.
    pub fn zero(&mut self)
        requires
            old(self).wf(),
        ensures
            final(self).wf(),
            final(self).channels == old(self).channels,
            final(self).data@.len() == old(self).data@.len(),
            forall|i: int| 0 <= i < final(self).data@.len() ==> final(self).data@[i] == 0,
    {
        let mut i: usize = 0;
        while i < MAX_BLOCK_SIZE
            invariant
                i <= MAX_BLOCK_SIZE,
                self.wf(),
                self.channels == old(self).channels,
                self.data@.len() == MAX_BLOCK_SIZE,
                forall|j: int| 0 <= j < i ==> self.data@[j] == 0,
            decreases MAX_BLOCK_SIZE - i,
        {
            self.data.set(i, 0);
            i = i + 1;
        }
    }

    /// The frames covering the first `size` samples: non-overlapping groups
    /// of `channels` consecutive samples, the final group short when
    /// `channels` does not divide `size`.
    pub fn frames(&self, size: usize) -> (r: Vec<Vec<i64>>)
        requires
            self.wf(),
            size <= MAX_BLOCK_SIZE,
        ensures
            r.deep_view() == frame_seq(self.data@, self.channels as int, size as int),
    {
        frames_of(&self.data, self.channels, size)
    }
}

/// Copies `data[start .. end]` into a fresh vector.
fn copy_range(data: &Vec<i64>, start: usize, end: usize) -> (r: Vec<i64>)
    requires
        start <= end <= data@.len(),
    ensures
        r@ == data@.subrange(start as int, end as int),
{
    let mut r: Vec<i64> = Vec::new();
    let mut j: usize = start;
    while j < end
        invariant
            start <= j <= end <= data@.len(),
            r@ == data@.subrange(start as int, j as int),
        decreases end - j,
    {
        r.push(data[j]);
        proof {
            assert(r@ =~= data@.subrange(start as int, j + 1));
        }
        j = j + 1;
    }
    r
}

/// Materialises `frame_seq(data@, c, size)`.
fn frames_of(data: &Vec<i64>, c: usize, size: usize) -> (r: Vec<Vec<i64>>)
    requires
        1 <= c <= MAX_BLOCK_SIZE,
        size <= data@.len(),
        size <= MAX_BLOCK_SIZE,
    ensures
        r.deep_view() == frame_seq(data@, c as int, size as int),
{
    let ghost gc = c as int;
    let ghost gsize = size as int;
    let n: usize = (size + c - 1) / c;
    proof {
        lemma_ceil_div_bounds(gsize, gc);
    }
    let mut r: Vec<Vec<i64>> = Vec::new();
    let mut f: usize = 0;
    while f < n
        invariant
            1 <= c <= MAX_BLOCK_SIZE,
            size <= data@.len(),
            size <= MAX_BLOCK_SIZE,
            n == ceil_div(gsize, gc),
            gc == c as int,
            gsize == size as int,
            c * ceil_div(gsize, gc) >= size,
            gsize > 0 ==> gc * (ceil_div(gsize, gc) - 1) < gsize,
            gsize == 0 ==> n == 0,
            f <= n,
            r@.len() == f as int,
            forall|k: int|
                0 <= k < f ==> (#[trigger] r@[k])@ == frame_seq(data@, gc, gsize)[k],
        decreases n - f,
    {
        proof {
            assert(gc * (f as int) < gsize) by {
                assert(f as int <= ceil_div(gsize, gc) - 1);
                assert(gc * (f as int) <= gc * (ceil_div(gsize, gc) - 1)) by (nonlinear_arith)
                    requires
                        gc >= 1,
                        f as int <= ceil_div(gsize, gc) - 1,
                ;
            }
            assert(gc * (f as int) >= 0) by (nonlinear_arith)
                requires
                    gc >= 0,
                    f as int >= 0,
            ;
            assert(gc * (f as int + 1) == gc * (f as int) + gc) by (nonlinear_arith);
        }
        let start: usize = c * f;
        let end: usize = if start + c <= size {
            start + c
        } else {
            size
        };
        let fr = copy_range(data, start, end);
        r.push(fr);
        proof {
            assert(end as int == frame_end(gc, f as int, gsize));
            assert(r@[f as int]@ == frame_seq(data@, gc, gsize)[f as int]);
        }
        f = f + 1;
    }
    proof {
        assert(r.deep_view().len() == r@.len());
        assert forall|k: int| 0 <= k < n implies r.deep_view()[k] == frame_seq(
            data@,
            gc,
            gsize,
        )[k] by {
            assert(r.deep_view()[k] =~= r@[k]@);
        }
        assert(r.deep_view() =~~= frame_seq(data@, gc, gsize));
    }
    r
}

/// The context handed to a processor for one chunk: a sample rate, an input
/// buffer visible up to `input_buffer_size` samples, and an output buffer
/// visible up to `output_buffer_size` samples. The context owns both buffers
/// for the duration of one callback; the driver moves them back out
/// afterwards.
pub struct AudioProcessorData {
    /// Sample rate of the stream, in hertz.
    pub sample_rate: u32,
    /// Samples handed to the processor.
    pub input_buffer: AudioBuffer,
    /// How many input samples are visible to the processor.
    pub input_buffer_size: usize,
    /// Samples the processor fills.
    pub output_buffer: AudioBuffer,
    /// How many output samples the processor may write.
    pub output_buffer_size: usize,
}

impl AudioProcessorData {
    /// Well-formedness: both buffers well-formed and agreeing on the channel
    /// count, both visible lengths within the fixed capacity.
    pub open spec fn wf(&self) -> bool {
        &&& self.input_buffer.wf()
        &&& self.output_buffer.wf()
        &&& self.input_buffer.channels == self.output_buffer.channels
        &&& self.input_buffer_size <= MAX_BLOCK_SIZE
        &&& self.output_buffer_size <= MAX_BLOCK_SIZE
    }

    /// The samples a processor actually visits: frame pairing stops at the
    /// shorter of the two visible lengths.
    pub open spec fn active_len(&self) -> int {
        min2(self.input_buffer_size as int, self.output_buffer_size as int)
    }

    /// Packs a context from its parts.
    pub fn new(
        input_buffer: AudioBuffer,
        input_buffer_size: usize,
        output_buffer: AudioBuffer,
        output_buffer_size: usize,
        sample_rate: u32,
    ) -> (r: Self)
        requires
            input_buffer_size <= MAX_BLOCK_SIZE,
            output_buffer_size <= MAX_BLOCK_SIZE,
        ensures
            r == (AudioProcessorData {
                sample_rate,
                input_buffer,
                input_buffer_size,
                output_buffer,
                output_buffer_size,
            }),
    {
        AudioProcessorData { sample_rate, input_buffer, input_buffer_size, output_buffer, output_buffer_size }
    }

    /// The paired frames of the two buffers, zipped so that iteration stops
    /// at the shorter of the two framings.
    pub fn frames(&self) -> (r: Vec<(Vec<i64>, Vec<i64>)>)
        requires
            self.wf(),
        ensures
            r@.len() == min2(
                ceil_div(self.input_buffer_size as int, self.input_buffer.channels as int),
                ceil_div(self.output_buffer_size as int, self.output_buffer.channels as int),
            ),
            forall|f: int|
                0 <= f < r@.len() ==> (#[trigger] r@[f]).0@ == frame_seq(
                    self.input_buffer.data@,
                    self.input_buffer.channels as int,
                    self.input_buffer_size as int,
                )[f],
            forall|f: int|
                0 <= f < r@.len() ==> (#[trigger] r@[f]).1@ == frame_seq(
                    self.output_buffer.data@,
                    self.output_buffer.channels as int,
                    self.output_buffer_size as int,
                )[f],
    {
        let fi = self.input_buffer.frames(self.input_buffer_size);
        let fo = self.output_buffer.frames(self.output_buffer_size);
        let n: usize = if fi.len() <= fo.len() {
            fi.len()
        } else {
            fo.len()
        };
        let mut fi = fi;
        let mut fo = fo;
        let mut r: Vec<(Vec<i64>, Vec<i64>)> = Vec::new();
        let ghost si = frame_seq(
            self.input_buffer.data@,
            self.input_buffer.channels as int,
            self.input_buffer_size as int,
        );
        let ghost so = frame_seq(
            self.output_buffer.data@,
            self.output_buffer.channels as int,
            self.output_buffer_size as int,
        );
        proof {
            lemma_ceil_div_bounds(
                self.input_buffer_size as int,
                self.input_buffer.channels as int,
            );
            lemma_ceil_div_bounds(
                self.output_buffer_size as int,
                self.output_buffer.channels as int,
            );
            assert(fi@.len() == fi.deep_view().len());
            assert(fo@.len() == fo.deep_view().len());
        }
        let mut f: usize = 0;
        while f < n
            invariant
                f <= n,
                n <= fi@.len(),
                n <= fo@.len(),
                fi.deep_view() == si,
                fo.deep_view() == so,
                r@.len() == f,
                forall|k: int| 0 <= k < f ==> (#[trigger] r@[k]).0@ == si[k],
                forall|k: int| 0 <= k < f ==> (#[trigger] r@[k]).1@ == so[k],
            decreases n - f,
        {
            let a = copy_range(&fi[f], 0, fi[f].len());
            let b = copy_range(&fo[f], 0, fo[f].len());
            proof {
                assert(a@ =~= fi@[f as int]@);
                assert(b@ =~= fo@[f as int]@);
                assert(fi@[f as int]@ =~= fi.deep_view()[f as int]);
                assert(fo@[f as int]@ =~= fo.deep_view()[f as int]);
            }
            r.push((a, b));
            f = f + 1;
        }
        r
    }
}

/// The processor capability: transform the visible input samples of a context
/// into its visible output samples, frame by frame. A processor may mutate
/// its own state, but must leave the context well-formed and must not touch
/// its shape: channel counts, visible lengths and sample rate survive every
/// call.
pub trait AudioProcessor {
    fn process(&mut self, data: &mut AudioProcessorData)
        requires
            old(data).wf(),
        ensures
            final(data).wf(),
            final(data).input_buffer.channels == old(data).input_buffer.channels,
            final(data).output_buffer.channels == old(data).output_buffer.channels,
            final(data).input_buffer_size == old(data).input_buffer_size,
            final(data).output_buffer_size == old(data).output_buffer_size,
            final(data).sample_rate == old(data).sample_rate,
            final(data).input_buffer.data@.len() == old(data).input_buffer.data@.len(),
            final(data).output_buffer.data@.len() == old(data).output_buffer.data@.len(),
    ;
}

} // verus!
