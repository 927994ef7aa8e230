use audio_toolkit::toolkit::{Gain, Identity};
use audio_toolkit::{AudioBuffer, AudioProcessor, AudioProcessorData, MAX_BLOCK_SIZE, SAMPLE_SCALE};

#[test]
fn toolkit_test_audio_processor_identity() {
    let mut input_buffer = AudioBuffer::new(1);
    let output_buffer = AudioBuffer::new(1);

    // Write some samples into the input_buffer
    for i in 0..8 {
        input_buffer.data[i] = (i as i64) * SAMPLE_SCALE;
    }

    let mut id = Identity;
    let mut data = AudioProcessorData::new(
        input_buffer,
        MAX_BLOCK_SIZE,
        output_buffer,
        MAX_BLOCK_SIZE,
        44_100,
    );

    // Process our samples into the output buffer, input = output (identity)
    id.process(&mut data);

    // If they're the same, we've processed the data into the output buffer.
    assert_eq!(data.input_buffer.data, data.output_buffer.data);
}

#[test]
fn toolkit_test_audio_processor_gain() {
    let mut input_buffer = AudioBuffer::new(2);
    let output_buffer = AudioBuffer::new(2);

    // Write some samples into the input_buffer
    for i in 0..8 {
        input_buffer.data[i] = (i as i64) * SAMPLE_SCALE;
    }

    // An amplitude of one half, in fixed point.
    let amplitude = SAMPLE_SCALE / 2;
    let mut gain = Gain::new(amplitude);
    let mut data = AudioProcessorData::new(
        input_buffer,
        MAX_BLOCK_SIZE,
        output_buffer,
        MAX_BLOCK_SIZE,
        44_100,
    );

    // Process our samples into the output buffer, output = input * amplitude
    gain.process(&mut data);

    // If they're the same, we've correctly processed the data into the output buffer.
    let expected: Vec<i64> = data.input_buffer.data.iter().map(|x| x / 2).collect();
    assert_eq!(expected, data.output_buffer.data);
}

#[test]
fn test_gain_zero_is_silence() {
    let mut input_buffer = AudioBuffer::new(1);
    for i in 0..8 {
        input_buffer.data[i] = (i as i64 + 1) * SAMPLE_SCALE;
    }
    let mut gain = Gain::new(0);
    let mut data =
        AudioProcessorData::new(input_buffer, 8, AudioBuffer::new(1), 8, 44_100);
    gain.process(&mut data);
    assert!(data.output_buffer.data.iter().all(|&s| s == 0));
}

#[test]
fn test_gain_unit_is_identity() {
    let mut input_buffer = AudioBuffer::new(1);
    for i in 0..8 {
        input_buffer.data[i] = (i as i64) * SAMPLE_SCALE - 3;
    }
    let mut gain = Gain::new(SAMPLE_SCALE);
    let mut data =
        AudioProcessorData::new(input_buffer, 8, AudioBuffer::new(1), 8, 44_100);
    gain.process(&mut data);
    for i in 0..8 {
        assert_eq!(data.output_buffer.data[i], data.input_buffer.data[i]);
    }
}
