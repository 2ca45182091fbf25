use orbit_tones::errors::ConfigError;
use orbit_tones::pitch::{frequency_uhz, pitch_class_index, shift_frequency, FREQ_MAX};
use orbit_tones::scale::{scale_values, ScaleGen};

#[test]
fn scale_gen_walks_the_cyclic_pattern() {
    let mut g = ScaleGen::new(0, vec![4, 3, 9, 8, 2, 9]).unwrap();
    let mut got: Vec<i64> = Vec::new();
    for _ in 0..10 {
        got.push(g.next());
    }
    assert_eq!(got, vec![0, 4, 7, 16, 24, 26, 35, 39, 42, 51]);
}

#[test]
fn scale_gen_consecutive_difference_is_the_pattern_step() {
    let pattern: Vec<u8> = vec![2, 7, 1];
    let mut g = ScaleGen::new(-5, pattern.clone()).unwrap();
    let mut prev = g.next();
    for n in 0..30 {
        let next = g.next();
        assert_eq!(next - prev, pattern[n % pattern.len()] as i64);
        prev = next;
    }
}

#[test]
fn scale_gen_is_restartable() {
    let mut a = ScaleGen::new(-16, vec![1, 9, 2, 2, 2, 2, 1]).unwrap();
    let mut b = ScaleGen::new(-16, vec![1, 9, 2, 2, 2, 2, 1]).unwrap();
    for _ in 0..50 {
        assert_eq!(a.next(), b.next());
    }
}

#[test]
fn scale_gen_rejects_bad_configurations() {
    assert!(matches!(
        ScaleGen::new(0, vec![]),
        Err(ConfigError::EmptyIntervals)
    ));
    assert!(matches!(
        ScaleGen::new(0, vec![4, 0, 2]),
        Err(ConfigError::StepOutOfRange)
    ));
    assert!(matches!(
        ScaleGen::new(0, vec![16]),
        Err(ConfigError::StepOutOfRange)
    ));
    assert!(matches!(
        ScaleGen::new(2_000_000, vec![1]),
        Err(ConfigError::StartOutOfRange)
    ));
}

#[test]
fn scale_values_matches_the_generator() {
    let vals = scale_values(0, &vec![4, 3, 9, 8, 2, 9], 10);
    assert_eq!(vals, vec![0, 4, 7, 16, 24, 26, 35, 39, 42, 51]);
}

#[test]
fn reference_pitch_frequency() {
    // Pitch 0 is the 440 Hz reference, within the table's rounding grain.
    assert_eq!(frequency_uhz(0), 440_000_512);
    // Ten octaves down sits exactly at the tabulated base.
    assert_eq!(frequency_uhz(-120), 429_688);
}

#[test]
fn octave_up_exactly_doubles() {
    for p in -120..=119i64 {
        assert_eq!(frequency_uhz(p + 12), 2 * frequency_uhz(p));
    }
}

#[test]
fn octave_down_exactly_halves() {
    assert_eq!(frequency_uhz(-12) * 2, frequency_uhz(0));
    assert_eq!(frequency_uhz(-12), 220_000_256);
}

#[test]
fn pitch_class_wraps_every_twelve_semitones() {
    assert_eq!(pitch_class_index(0), 0);
    assert_eq!(pitch_class_index(12), 0);
    assert_eq!(pitch_class_index(-3), 9);
    assert_eq!(pitch_class_index(5), 5);
    assert_eq!(pitch_class_index(-12), 0);
}

#[test]
fn semitone_shift_up_and_down() {
    assert_eq!(shift_frequency(440_000_512, 0), 440_000_512);
    assert_eq!(shift_frequency(440_000_512, 1), 466_164_303);
    assert_eq!(shift_frequency(440_000_512, -1), 415_305_180);
}

#[test]
fn semitone_shift_clamps_at_the_band_edges() {
    assert_eq!(shift_frequency(FREQ_MAX, 7), FREQ_MAX);
    assert_eq!(shift_frequency(1, -5), 1);
}
