use audio_toolkit::system::{apply_gain_chunked, stream_callback};
use audio_toolkit::toolkit::processors::{WavFile, WavSampleFormat};
use audio_toolkit::toolkit::Gain;
use audio_toolkit::{AudioBuffer, AudioProcessor, AudioProcessorData, SAMPLE_SCALE};

#[test]
fn test_gain_end_to_end() {
    // Input [0, 1, 2, 3, 4, 5, 6, 7], two channels, amplitude one half:
    // output [0, 0.5, 1, 1.5, 2, 2.5, 3, 3.5].
    let mut input_buffer = AudioBuffer::new(2);
    for i in 0..8 {
        input_buffer.data[i] = (i as i64) * SAMPLE_SCALE;
    }
    let mut gain = Gain::new(SAMPLE_SCALE / 2);
    let mut data = AudioProcessorData::new(input_buffer, 8, AudioBuffer::new(2), 8, 44_100);
    gain.process(&mut data);
    let out: Vec<f64> = data.output_buffer.data[..8]
        .iter()
        .map(|&s| s as f64 / SAMPLE_SCALE as f64)
        .collect();
    assert_eq!(out, [0.0, 0.5, 1.0, 1.5, 2.0, 2.5, 3.0, 3.5]);
}

#[test]
fn test_chunking_equivalence() {
    // A buffer longer than one block, processed in maximal chunks and in
    // tiny chunks, yields the same samples either way: the single-pass gain.
    let samples: Vec<i64> = (0..3000).map(|i| ((i % 100) - 50) * SAMPLE_SCALE / 10).collect();
    let amplitude = SAMPLE_SCALE / 2;
    let full = apply_gain_chunked(&samples, amplitude, 1024);
    let tiny = apply_gain_chunked(&samples, amplitude, 7);
    assert_eq!(full, tiny);
    assert_eq!(full.len(), samples.len());
    for i in 0..samples.len() {
        assert_eq!(full[i], samples[i] / 2);
    }
}

#[test]
fn test_stream_callback_with_wav_player() {
    // A device buffer longer than one block, fed through the WAV player:
    // every slot receives the decoded sample, then silence after exhaustion.
    let raw = vec![16_384i64; 2000];
    let mut wav = WavFile::new(WavSampleFormat::Int, 16, raw).unwrap();
    let input_buffer = AudioBuffer::new(2);
    let output_buffer = AudioBuffer::new(2);
    let mut device = vec![99i64; 2500];
    let (input_buffer, output_buffer) =
        stream_callback(2, 44_100, input_buffer, output_buffer, &mut wav, &mut device);
    assert_eq!(device.len(), 2500);
    for i in 0..2000 {
        assert_eq!(device[i], SAMPLE_SCALE / 4);
    }
    for i in 2000..2500 {
        assert_eq!(device[i], 0);
    }
    // The returned buffers stay usable for the next callback.
    assert_eq!(input_buffer.channels, 2);
    assert_eq!(output_buffer.channels, 2);
}

#[test]
fn test_apply_gain_chunked_empty() {
    let samples: Vec<i64> = Vec::new();
    assert!(apply_gain_chunked(&samples, SAMPLE_SCALE, 1024).is_empty());
}

#[test]
fn test_stream_callback_empty_device_buffer() {
    let mut gain = Gain::new(SAMPLE_SCALE);
    let mut device: Vec<i64> = Vec::new();
    stream_callback(1, 48_000, AudioBuffer::new(1), AudioBuffer::new(1), &mut gain, &mut device);
    assert!(device.is_empty());
}

#[test]
fn test_stream_callback_identity_silence() {
    // The callback zeroes the persistent buffers first, so an identity
    // processor over the zeroed input writes silence to the device buffer.
    let mut id = audio_toolkit::toolkit::Identity;
    let mut device = vec![7i64; 100];
    stream_callback(1, 44_100, AudioBuffer::new(1), AudioBuffer::new(1), &mut id, &mut device);
    assert!(device.iter().all(|&s| s == 0));
}
