use audio_toolkit::toolkit::freq::{Frequency, ToDuration, ToFrequency};

#[test]
fn test_to_frequency() {
    let freq = 440.hz();
    assert_eq!(freq.millihertz() as f64 / 1000.0, 440.0);

    // 3.3 kHz, written as its exact millihertz count.
    let freq = Frequency::from_millihertz(3_300_000);
    assert_eq!(freq.millihertz() as f64 / 1000.0, 3_300.0);
}

#[test]
fn test_frequency_to_samples() {
    let sample_rate = 44_100;
    let freq = 2.khz();

    let period = freq.period_in_milliseconds(sample_rate);

    assert_eq!(period as f64 / 1_000_000.0, 22.05);
}

#[test]
fn test_duration() {
    let duration = 10.seconds();
    assert_eq!(duration.microseconds() as f64 / 1_000_000.0, 10.0);

    let duration = 10.milliseconds();
    assert_eq!(duration.microseconds() as f64 / 1_000_000.0, 0.01);
}

#[test]
fn test_duration_in_samples() {
    let duration = 10.seconds();
    let samples = duration.into_samples(44_100);

    assert_eq!(samples as f64, 44_100.0 * 10.0);
}

#[test]
fn test_period_in_seconds() {
    let freq = 2.khz();
    let period = freq.period_in_seconds(44_100);
    assert_eq!(period as f64 / 1_000_000.0, 0.022_05);
}

#[test]
fn test_negative_frequency_period() {
    let freq = Frequency::from_millihertz(-2_000_000);
    let period = freq.period_in_milliseconds(44_100);
    assert_eq!(period as f64 / 1_000_000.0, -22.05);
}

#[test]
fn test_negative_duration_in_samples() {
    let duration = (-10).seconds();
    assert_eq!(duration.into_samples(44_100), -441_000);
}
