use orbit_tones::control::{Command, ControlChannel};
use orbit_tones::engine::render_buffer;
use orbit_tones::engine::render_sample;
use orbit_tones::errors::ConfigError;
use orbit_tones::pool::{Tone, TonePool, DEFAULT_FREQ, INITIAL_VOL};
use orbit_tones::sine::sine_fp;
use orbit_tones::units::{HALF_TURN, TURN, UNIT};

#[test]
fn pool_rejects_bad_capacities() {
    assert_eq!(TonePool::new(0).unwrap_err(), ConfigError::ZeroCapacity);
    assert_eq!(TonePool::new(65).unwrap_err(), ConfigError::CapacityTooLarge);
}

#[test]
fn fresh_pool_is_silent_at_one_kilohertz() {
    let p = TonePool::new(10).unwrap();
    assert_eq!(p.capacity(), 10);
    for i in 0..10 {
        let t = p.get(i);
        assert_eq!(t.vol, 0);
        assert_eq!(t.freq_uhz, DEFAULT_FREQ);
        assert_eq!(t.phase_samples, 0);
    }
}

#[test]
fn trigger_resets_phase_and_volume_regardless_of_prior_state() {
    let mut p = TonePool::new(10).unwrap();
    p.set_voice(
        3,
        Tone { vol: 123, freq_uhz: 7_777_777, phase_samples: 999_999 },
    );
    p.decay_step();
    p.trigger(3, 0);
    let t = p.get(3);
    assert_eq!(t.vol, INITIAL_VOL);
    assert_eq!(t.freq_uhz, 440_000_512);
    assert_eq!(t.phase_samples, 0);
    // Untouched slots keep their state.
    assert_eq!(p.get(4).vol, 0);
}

#[test]
fn one_decay_step_from_full_scale() {
    let mut p = TonePool::new(10).unwrap();
    p.set_voice(0, Tone { vol: UNIT, freq_uhz: 440_000_000, phase_samples: 0 });
    p.decay_step();
    // 1.0 / 1.00001, in billionths.
    assert_eq!(p.get(0).vol, 999_990_000);
}

#[test]
fn decay_is_monotone_and_never_negative() {
    let mut p = TonePool::new(1).unwrap();
    p.set_voice(0, Tone { vol: UNIT, freq_uhz: 440_000_000, phase_samples: 0 });
    let mut prev = p.get(0).vol;
    for _ in 0..10_000 {
        p.decay_step();
        let v = p.get(0).vol;
        assert!(v <= prev);
        prev = v;
    }
    assert!(prev < UNIT);
}

#[test]
fn phase_clock_ticks_every_voice() {
    let mut p = TonePool::new(3).unwrap();
    p.advance_phase();
    p.advance_phase();
    for i in 0..3 {
        assert_eq!(p.get(i).phase_samples, 2);
    }
}

#[test]
fn integer_sine_hits_the_cardinal_points() {
    assert_eq!(sine_fp(0), 0);
    assert_eq!(sine_fp(HALF_TURN), 0);
    assert_eq!(sine_fp(TURN), 0);
    assert_eq!(sine_fp(250_000_000), UNIT as i64);
    assert_eq!(sine_fp(750_000_000), -(UNIT as i64));
    assert_eq!(sine_fp(TURN + 250_000_000), UNIT as i64);
}

#[test]
fn integer_sine_eighth_turn_value() {
    // Bhaskara's approximation at 45 degrees: 12/17 of full scale.
    assert_eq!(sine_fp(125_000_000), 705_882_352);
    assert_eq!(sine_fp(875_000_000), -705_882_352);
}

#[test]
fn fresh_voices_render_an_exactly_zero_sample() {
    let mut p = TonePool::new(10).unwrap();
    p.set_voice(0, Tone { vol: UNIT, freq_uhz: 440_000_000, phase_samples: 0 });
    assert_eq!(render_sample(&p, 44_100), 0);
}

#[test]
fn samples_stay_within_the_proved_bound() {
    let mut p = TonePool::new(10).unwrap();
    p.set_voice(0, Tone { vol: UNIT, freq_uhz: 440_000_000, phase_samples: 0 });
    p.set_voice(1, Tone { vol: UNIT, freq_uhz: 660_000_000, phase_samples: 0 });
    for _ in 0..2_000 {
        let s = render_sample(&p, 44_100);
        assert!(s.unsigned_abs() <= 10 * UNIT);
        p.advance_phase();
        p.decay_step();
    }
}

#[test]
fn channel_drops_sends_beyond_its_bound() {
    let mut ch = ControlChannel::new(2);
    let cmd = Command::ScaleFrequency { slot: 0, semitones: 7 };
    assert!(ch.send(cmd));
    assert!(ch.send(cmd));
    assert!(!ch.send(cmd));
    let cmds = ch.drain();
    assert_eq!(cmds.len(), 2);
    assert_eq!(cmds[0], cmd);
    assert!(ch.send(cmd));
}

#[test]
fn buffer_applies_queued_commands_then_decays() {
    let mut p = TonePool::new(10).unwrap();
    let mut ch = ControlChannel::new(8);
    assert!(ch.send(Command::SetVoice {
        slot: 0,
        tone: Tone { vol: UNIT, freq_uhz: 440_000_000, phase_samples: 0 },
    }));
    let out = render_buffer(&mut p, &mut ch, 44_100, 2);
    assert_eq!(out.len(), 2);
    // The freshly triggered voice starts its wave at the zero crossing...
    assert_eq!(out[0], 0);
    // ...and is audibly under way one sample later.
    assert!(out[1] > 0);
    // Two decay steps have run, one per sample.
    assert_eq!(p.get(0).vol, 999_980_000);
    assert_eq!(p.get(0).phase_samples, 2);
    assert_eq!(p.get(1).vol, 0);
}

#[test]
fn scale_frequency_command_shifts_a_voice() {
    let mut p = TonePool::new(4).unwrap();
    let mut ch = ControlChannel::new(4);
    assert!(ch.send(Command::SetVoice {
        slot: 2,
        tone: Tone { vol: UNIT, freq_uhz: 440_000_512, phase_samples: 0 },
    }));
    assert!(ch.send(Command::ScaleFrequency { slot: 2, semitones: -1 }));
    let _ = render_buffer(&mut p, &mut ch, 48_000, 1);
    assert_eq!(p.get(2).freq_uhz, 415_305_180);
}

#[test]
fn out_of_range_commands_are_dropped() {
    let mut p = TonePool::new(2).unwrap();
    let mut ch = ControlChannel::new(4);
    assert!(ch.send(Command::SetVoice {
        slot: 9,
        tone: Tone { vol: UNIT, freq_uhz: 440_000_000, phase_samples: 0 },
    }));
    assert!(ch.send(Command::ScaleFrequency { slot: 9, semitones: 7 }));
    let _ = render_buffer(&mut p, &mut ch, 48_000, 1);
    assert_eq!(p.get(0).freq_uhz, DEFAULT_FREQ);
    assert_eq!(p.get(1).freq_uhz, DEFAULT_FREQ);
}
