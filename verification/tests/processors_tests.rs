use audio_toolkit::toolkit::processors::{
    Gain, Identity, WavError, WavFile, WavSampleFormat, WhiteNoise, HALF_SCALE,
};
use audio_toolkit::{AudioBuffer, AudioProcessor, AudioProcessorData, SAMPLE_SCALE};

#[test]
fn processors_test_audio_processor_identity() {
    let size = 16 as usize;
    let mut input_buffer = AudioBuffer::new(1);
    let output_buffer = AudioBuffer::new(1);

    // Write some samples into the input_buffer
    for i in 0..8 {
        input_buffer.data[i] = (i as i64) * SAMPLE_SCALE;
    }

    let mut id = Identity;
    let mut data = AudioProcessorData::new(input_buffer, size, output_buffer, size, 44_100);

    // Process our samples into the output buffer, input = output (identity)
    id.process(&mut data);

    // If they're the same, we've processed the data into the output buffer.
    assert_eq!(data.input_buffer.data, data.output_buffer.data);
}

#[test]
fn processors_test_audio_processor_gain() {
    let size = 16 as usize;
    let mut input_buffer = AudioBuffer::new(2);
    let output_buffer = AudioBuffer::new(2);

    // Write some samples into the input_buffer
    for i in 0..8 {
        input_buffer.data[i] = (i as i64) * SAMPLE_SCALE;
    }

    // An amplitude of one half, in fixed point.
    let amplitude = SAMPLE_SCALE / 2;
    let mut gain = Gain::new(amplitude);
    let mut data = AudioProcessorData::new(input_buffer, size, output_buffer, size, 44_100);

    // Process our samples into the output buffer, output = input * amplitude
    gain.process(&mut data);

    // If they're the same, we've correctly processed the data into the output buffer.
    let expected: Vec<i64> = data.input_buffer.data.iter().map(|x| x / 2).collect();
    assert_eq!(expected, data.output_buffer.data);
}

#[test]
fn test_white_noise_range() {
    let mut noise = WhiteNoise;
    let mut data =
        AudioProcessorData::new(AudioBuffer::new(1), 64, AudioBuffer::new(1), 64, 44_100);
    noise.process(&mut data);
    for i in 0..64 {
        let s = data.output_buffer.data[i];
        assert!(-HALF_SCALE <= s && s < HALF_SCALE);
    }
    // Beyond the active length the buffer is untouched.
    for i in 64..1024 {
        assert_eq!(data.output_buffer.data[i], 0);
    }
}

#[test]
fn test_wav_decode_normalization() {
    // A known 16-bit PCM value decodes to v / 2^16 of full scale.
    let mut wav = WavFile::new(WavSampleFormat::Int, 16, vec![16_384]).unwrap();
    let s = wav.next_sample();
    assert_eq!(s as f64 / SAMPLE_SCALE as f64, 16_384.0 / 65_536.0);
}

#[test]
fn test_wav_float_passthrough() {
    // A float-format source sample passes through unchanged.
    let mut wav = WavFile::new(WavSampleFormat::Float, 32, vec![123_456, -7]).unwrap();
    assert_eq!(wav.next_sample(), 123_456);
    assert_eq!(wav.next_sample(), -7);
}

#[test]
fn test_wav_negative_sample_normalization() {
    let mut wav = WavFile::new(WavSampleFormat::Int, 16, vec![-32_768]).unwrap();
    let s = wav.next_sample();
    assert_eq!(s as f64 / SAMPLE_SCALE as f64, -0.5);
}

#[test]
fn test_wav_exhaustion() {
    // Reading past end-of-file keeps yielding silence, never an error.
    let mut wav = WavFile::new(WavSampleFormat::Int, 16, vec![16_384, 16_384]).unwrap();
    let mut data =
        AudioProcessorData::new(AudioBuffer::new(1), 8, AudioBuffer::new(1), 8, 44_100);
    wav.process(&mut data);
    assert_eq!(data.output_buffer.data[0], SAMPLE_SCALE / 4);
    assert_eq!(data.output_buffer.data[1], SAMPLE_SCALE / 4);
    for i in 2..8 {
        assert_eq!(data.output_buffer.data[i], 0);
    }
    // And a later call still emits silence only.
    wav.process(&mut data);
    for i in 0..8 {
        assert_eq!(data.output_buffer.data[i], 0);
    }
}

#[test]
fn test_wav_invalid_bits() {
    assert!(matches!(
        WavFile::new(WavSampleFormat::Int, 0, vec![1]),
        Err(WavError::InvalidBitsPerSample)
    ));
    assert!(matches!(
        WavFile::new(WavSampleFormat::Int, 33, vec![1]),
        Err(WavError::InvalidBitsPerSample)
    ));
}

#[test]
fn test_wav_sample_out_of_range() {
    // An 8-bit source admits magnitudes up to 2^8 only.
    assert!(matches!(
        WavFile::new(WavSampleFormat::Int, 8, vec![300]),
        Err(WavError::SampleOutOfRange)
    ));
}
