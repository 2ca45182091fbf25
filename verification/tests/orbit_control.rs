use orbit_tones::control::Command;
use orbit_tones::errors::ConfigError;
use orbit_tones::orbit::{
    frame_commands, on_key, KeyEvent, OrbitScheduler, RESET_ANGLE_NT,
};
use orbit_tones::pitch::frequency_uhz;
use orbit_tones::pool::{Tone, INITIAL_VOL};

#[test]
fn scheduler_rejects_bad_capacities() {
    assert_eq!(OrbitScheduler::new(0).unwrap_err(), ConfigError::ZeroCapacity);
    assert_eq!(
        OrbitScheduler::new(65).unwrap_err(),
        ConfigError::CapacityTooLarge
    );
}

#[test]
fn default_scene_has_seven_graduated_balls() {
    let s = OrbitScheduler::new(30).unwrap();
    assert_eq!(s.ball_count(), 7);
    let b0 = s.get_ball(0);
    assert_eq!(b0.angle_nt, 0);
    assert_eq!(b0.speed_nt, 25_000_000 + 13_089_969 * 7);
    assert_eq!(b0.pitch, -12);
    let b1 = s.get_ball(1);
    assert_eq!(b1.speed_nt, 25_000_000 + 13_089_969 * 6);
    assert_eq!(b1.pitch, 4 - 12);
    let b6 = s.get_ball(6);
    assert_eq!(b6.speed_nt, 25_000_000 + 13_089_969);
    assert_eq!(b6.pitch, 35 - 12);
}

#[test]
fn slow_frame_advances_without_triggering() {
    let mut s = OrbitScheduler::new(30).unwrap();
    let trigs = s.step_frame(1_000_000);
    assert!(trigs.is_empty());
    assert_eq!(s.get_ball(0).angle_nt, 116_629_783);
}

#[test]
fn zero_delta_never_fires() {
    let mut s = OrbitScheduler::new(30).unwrap();
    for _ in 0..100 {
        assert!(s.step_frame(0).is_empty());
    }
    assert_eq!(s.get_ball(0).angle_nt, 0);
}

#[test]
fn whole_turn_in_one_frame_fires_exactly_once_per_ball() {
    let mut s = OrbitScheduler::new(30).unwrap();
    // Ten seconds: the two fastest balls cover more than a full turn.
    let trigs = s.step_frame(10_000_000);
    assert_eq!(trigs.len(), 2);
    assert_eq!(trigs[0].slot, 0);
    assert_eq!(trigs[1].slot, 1);
}

#[test]
fn wrap_subtracts_one_turn() {
    let mut s = OrbitScheduler::new(30).unwrap();
    let trigs = s.step_frame(10_000_000);
    assert_eq!(trigs[0].pitch, -12);
    // speed * 10 s, minus the one revolution it completed.
    assert_eq!(
        s.get_ball(0).angle_nt,
        (25_000_000u64 + 13_089_969 * 7) * 10 - 1_000_000_000
    );
}

#[test]
fn regenerate_respects_the_documented_bounds() {
    let mut s = OrbitScheduler::new(30).unwrap();
    for rc in 0..12u64 {
        s.regenerate(rc, rc * 7, &vec![rc; 10]);
        let n = s.ball_count();
        assert!((6..=11).contains(&n));
        assert_eq!(n as u64, 6 + rc % 6);
        for i in 0..n {
            let b = s.get_ball(i);
            assert_eq!(b.angle_nt, RESET_ANGLE_NT);
        }
    }
}

#[test]
fn regenerate_is_capped_by_the_pool_capacity() {
    let mut s = OrbitScheduler::new(3).unwrap();
    s.regenerate(5, 0, &vec![0; 10]);
    assert_eq!(s.ball_count(), 3);
}

#[test]
fn regenerated_pitches_follow_the_drawn_scale() {
    let mut s = OrbitScheduler::new(30).unwrap();
    // Draws of zero: count 6, start -16, every step 1.
    s.regenerate(0, 0, &vec![0; 10]);
    assert_eq!(s.ball_count(), 6);
    for i in 0..6 {
        assert_eq!(s.get_ball(i).pitch, -16 + i as i64 - 12);
    }
}

#[test]
fn regenerated_scene_fires_almost_immediately() {
    let mut s = OrbitScheduler::new(30).unwrap();
    s.regenerate(0, 0, &vec![0; 10]);
    // One second is enough for the five fastest of the six balls.
    let trigs = s.step_frame(1_000_000);
    assert_eq!(trigs.len(), 5);
    assert_eq!(trigs[0].slot, 0);
    assert_eq!(trigs[0].pitch, -28);
    assert_eq!(trigs[4].slot, 4);
    assert_eq!(trigs[4].pitch, -24);
}

#[test]
fn frame_commands_wrap_triggers_into_voice_writes() {
    let mut s = OrbitScheduler::new(30).unwrap();
    let cmds = frame_commands(&mut s, 10_000_000);
    assert_eq!(cmds.len(), 2);
    assert_eq!(
        cmds[0],
        Command::SetVoice {
            slot: 0,
            tone: Tone {
                vol: INITIAL_VOL,
                freq_uhz: frequency_uhz(-12),
                phase_samples: 0,
            },
        }
    );
}

#[test]
fn pitch_keys_become_commands_for_the_lead_voice() {
    let mut s = OrbitScheduler::new(30).unwrap();
    assert_eq!(
        on_key(&mut s, &KeyEvent::RaisePitch),
        Some(Command::ScaleFrequency { slot: 0, semitones: 7 })
    );
    assert_eq!(
        on_key(&mut s, &KeyEvent::LowerPitch),
        Some(Command::ScaleFrequency { slot: 0, semitones: -1 })
    );
    assert_eq!(s.ball_count(), 7);
}

#[test]
fn regenerate_key_reshapes_the_scene_in_place() {
    let mut s = OrbitScheduler::new(30).unwrap();
    let key = KeyEvent::Regenerate {
        rand_count: 3,
        rand_start: 11,
        rand_steps: vec![2; 10],
    };
    assert_eq!(on_key(&mut s, &key), None);
    assert_eq!(s.ball_count(), 9);
    assert_eq!(s.get_ball(0).angle_nt, RESET_ANGLE_NT);
}
