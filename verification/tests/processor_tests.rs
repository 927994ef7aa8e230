use audio_toolkit::{AudioBuffer, AudioProcessorData, SAMPLE_SCALE};

#[test]
fn test_audio_buffer() {
    let mut buf = AudioBuffer::new(2);

    for i in 0..4 {
        buf.data[i] = (i as i64) * SAMPLE_SCALE;
    }

    let frames = buf.frames(16);

    let samples = &frames[0];

    // Expect to get two samples at a time
    assert_eq!(samples[0] as f64 / SAMPLE_SCALE as f64, 0.0);
    assert_eq!(samples[1] as f64 / SAMPLE_SCALE as f64, 1.0);

    let samples = &frames[1];

    // Same again
    assert_eq!(samples[0] as f64 / SAMPLE_SCALE as f64, 2.0);
    assert_eq!(samples[1] as f64 / SAMPLE_SCALE as f64, 3.0);
}

#[test]
fn test_framing_exact_multiple() {
    let buf = AudioBuffer::new(4);
    let frames = buf.frames(16);
    // 16 samples in groups of 4: exactly 4 frames of 4 samples each.
    assert_eq!(frames.len(), 4);
    for frame in &frames {
        assert_eq!(frame.len(), 4);
    }
}

#[test]
fn test_framing_short_tail() {
    let mut buf = AudioBuffer::new(4);
    for i in 0..18 {
        buf.data[i] = (i as i64) + 1;
    }
    let frames = buf.frames(18);
    // 18 samples in groups of 4: four full frames and a short tail of 2.
    assert_eq!(frames.len(), 5);
    assert_eq!(frames[4].len(), 2);
    assert_eq!(frames[4][0], 17);
    assert_eq!(frames[4][1], 18);
}

#[test]
fn test_framing_empty() {
    let buf = AudioBuffer::new(3);
    assert!(buf.frames(0).is_empty());
}

#[test]
fn test_framing_full_capacity() {
    let buf = AudioBuffer::new(1);
    let frames = buf.frames(1024);
    assert_eq!(frames.len(), 1024);
    assert!(frames.iter().all(|f| f.len() == 1));
}

#[test]
fn test_zero_clears_storage() {
    let mut buf = AudioBuffer::new(1);
    for i in 0..8 {
        buf.data[i] = 42;
    }
    buf.zero();
    assert!(buf.data.iter().all(|&s| s == 0));
}

#[test]
fn test_context_frames_pairing() {
    let mut input = AudioBuffer::new(2);
    for i in 0..6 {
        input.data[i] = i as i64;
    }
    let output = AudioBuffer::new(2);
    // Input framing sees 6 samples, output framing only 4: the zip stops at
    // the shorter side.
    let data = AudioProcessorData::new(input, 6, output, 4, 44_100);
    let pairs = data.frames();
    assert_eq!(pairs.len(), 2);
    assert_eq!(pairs[0].0, [0, 1]);
    assert_eq!(pairs[1].0, [2, 3]);
    assert_eq!(pairs[0].1, [0, 0]);
}
