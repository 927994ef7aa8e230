//! The stock processors and the unit-conversion helpers.
//!
//! `Identity` and `Gain` are also defined here at the toolkit root, next to
//! the richer set in `processors`, so both module paths offer the basic two.

pub mod freq;
pub mod processors;

use crate::processor::{AudioProcessor, AudioProcessorData};
use crate::sample::{apply_gain_sample, gain_sample, sample_in_range};
use vstd::prelude::*;

verus! {

/// Copies the visited input samples of `data` to its output samples: the
/// shared body of every identity processor.
pub(crate) fn identity_process(data: &mut AudioProcessorData)
    requires
        old(data).wf(),
    ensures
        final(data).wf(),
        final(data).input_buffer == old(data).input_buffer,
        final(data).input_buffer_size == old(data).input_buffer_size,
        final(data).output_buffer_size == old(data).output_buffer_size,
        final(data).sample_rate == old(data).sample_rate,
        final(data).output_buffer.channels == old(data).output_buffer.channels,
        final(data).output_buffer.data@.len() == old(data).output_buffer.data@.len(),
        forall|i: int|
            0 <= i < old(data).active_len() ==> final(data).output_buffer.data@[i] == old(data).input_buffer.data@[i],
        forall|i: int|
            old(data).active_len() <= i < old(data).output_buffer.data@.len() ==> final(data).output_buffer.data@[i] == old(data).output_buffer.data@[i],
{
    let active: usize = if data.input_buffer_size <= data.output_buffer_size {
        data.input_buffer_size
    } else {
        data.output_buffer_size
    };
    let mut i: usize = 0;
    while i < active
        invariant
            data.wf(),
            i <= active,
            active as int == old(data).active_len(),
            active <= data.input_buffer.data@.len(),
            active <= data.output_buffer.data@.len(),
            data.input_buffer == old(data).input_buffer,
            data.input_buffer_size == old(data).input_buffer_size,
            data.output_buffer_size == old(data).output_buffer_size,
            data.sample_rate == old(data).sample_rate,
            data.output_buffer.channels == old(data).output_buffer.channels,
            data.output_buffer.data@.len() == old(data).output_buffer.data@.len(),
            forall|j: int|
                0 <= j < i ==> data.output_buffer.data@[j] == old(data).input_buffer.data@[j],
            forall|j: int|
                i <= j < data.output_buffer.data@.len() ==> data.output_buffer.data@[j] == old(data).output_buffer.data@[j],
        decreases active - i,
    {
        let v = data.input_buffer.data[i];
        data.output_buffer.data.set(i, v);
        i = i + 1;
    }
}

/// Applies `amplitude` to the visited input samples of `data`, writing the
/// scaled (and clamped) results to its output samples: the shared body of
/// every gain processor.
pub(crate) fn gain_process(data: &mut AudioProcessorData, amplitude: i64)
    requires
        old(data).wf(),
        sample_in_range(amplitude as int),
    ensures
        final(data).wf(),
        final(data).input_buffer == old(data).input_buffer,
        final(data).input_buffer_size == old(data).input_buffer_size,
        final(data).output_buffer_size == old(data).output_buffer_size,
        final(data).sample_rate == old(data).sample_rate,
        final(data).output_buffer.channels == old(data).output_buffer.channels,
        final(data).output_buffer.data@.len() == old(data).output_buffer.data@.len(),
        forall|i: int|
            0 <= i < old(data).active_len() ==> final(data).output_buffer.data@[i] == gain_sample(
                old(data).input_buffer.data@[i] as int,
                amplitude as int,
            ),
        forall|i: int|
            old(data).active_len() <= i < old(data).output_buffer.data@.len() ==> final(data).output_buffer.data@[i] == old(data).output_buffer.data@[i],
{
    let active: usize = if data.input_buffer_size <= data.output_buffer_size {
        data.input_buffer_size
    } else {
        data.output_buffer_size
    };
    let mut i: usize = 0;
    while i < active
        invariant
            data.wf(),
            sample_in_range(amplitude as int),
            i <= active,
            active as int == old(data).active_len(),
            active <= data.input_buffer.data@.len(),
            active <= data.output_buffer.data@.len(),
            data.input_buffer == old(data).input_buffer,
            data.input_buffer_size == old(data).input_buffer_size,
            data.output_buffer_size == old(data).output_buffer_size,
            data.sample_rate == old(data).sample_rate,
            data.output_buffer.channels == old(data).output_buffer.channels,
            data.output_buffer.data@.len() == old(data).output_buffer.data@.len(),
            forall|j: int|
                0 <= j < i ==> data.output_buffer.data@[j] == gain_sample(
                    old(data).input_buffer.data@[j] as int,
                    amplitude as int,
                ),
            forall|j: int|
                i <= j < data.output_buffer.data@.len() ==> data.output_buffer.data@[j] == old(data).output_buffer.data@[j],
        decreases active - i,
    {
        let v = apply_gain_sample(data.input_buffer.data[i], amplitude);
        data.output_buffer.data.set(i, v);
        i = i + 1;
    }
}

/// Identity processor: does literally nothing to the samples it forwards.
pub struct Identity;

impl AudioProcessor for Identity {
    /// Copies input to output over the active length and touches nothing
    /// beyond it.
    fn process(&mut self, data: &mut AudioProcessorData)
        ensures
            final(data).input_buffer == old(data).input_buffer,
            forall|i: int|
                0 <= i < old(data).active_len() ==> final(data).output_buffer.data@[i] == old(data).input_buffer.data@[i],
            forall|i: int|
                old(data).active_len() <= i < old(data).output_buffer.data@.len() ==> final(data).output_buffer.data@[i] == old(data).output_buffer.data@[i],
    {
        identity_process(data);
    }
}

/// Gain processor: scales every visited sample by a fixed amplitude.
pub struct Gain {
    amplitude: i64,
}

impl Gain {
    /// The amplitude is always a representable fixed-point value.
    #[verifier::type_invariant]
    pub closed spec fn inv(self) -> bool {
        sample_in_range(self.amplitude as int)
    }

    /// The fixed-point amplitude this processor scales by.
    pub closed spec fn amplitude(&self) -> int {
        self.amplitude as int
    }

    /// Builds a gain processor with the given fixed-point amplitude.
    pub fn new(amplitude: i64) -> (r: Self)
        requires
            sample_in_range(amplitude as int),
        ensures
            r.amplitude() == amplitude as int,
    {
        Gain { amplitude }
    }
}

impl AudioProcessor for Gain {
    /// Writes `gain_sample(input, amplitude)` to the output over the active
    /// length and touches nothing beyond it.
    fn process(&mut self, data: &mut AudioProcessorData)
        ensures
            *final(self) == *old(self),
            final(data).input_buffer == old(data).input_buffer,
            forall|i: int|
                0 <= i < old(data).active_len() ==> final(data).output_buffer.data@[i]
                    == gain_sample(old(data).input_buffer.data@[i] as int, old(self).amplitude()),
            forall|i: int|
                old(data).active_len() <= i < old(data).output_buffer.data@.len() ==> final(data).output_buffer.data@[i] == old(data).output_buffer.data@[i],
    {
        proof {
            use_type_invariant(&*self);
        }
        gain_process(data, self.amplitude);
    }
}

} // verus!
