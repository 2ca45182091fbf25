//! The orbit scheduler: one ball per voice slot, each circling at its own
//! graduated speed, firing a pitched trigger every time it completes a
//! revolution.
//!
//! Angles are nanoturns.  Each frame a ball advances by `speed * dt`; on
//! crossing a full turn it emits a trigger for its slot and wraps by
//! subtracting one turn (clamped defensively if a single frame somehow
//! spans many revolutions).  The deliberately desynchronized speeds — a
//! base rate plus a fixed step times the ball's distance from the last
//! slot — are the generative mechanism.

use vstd::prelude::*;

use crate::control::Command;
use crate::errors::ConfigError;
use crate::pitch::{frequency_spec, frequency_uhz, PITCH_MAX, PITCH_MIN};
use crate::pool::{Tone, INITIAL_VOL, MAX_VOICES};
use crate::scale::{pattern_of, scale_spec, scale_values};
use crate::units::{mul_div, TURN};

verus! {

/// Upper bound on any ball's angular speed, in nanoturns per second.
pub const SPEED_MAX: u64 = 4_000_000_000;

/// Longest frame delta a step accepts: ten seconds, in microseconds.
pub const DT_MAX_US: u64 = 10_000_000;

/// Base angular speed: one revolution every forty seconds.
pub const BASE_SPEED_NT: u64 = 25_000_000;

/// Speed step between neighbouring balls (pi/240 of a turn per second).
pub const SPEED_STEP_NT: u64 = 13_089_969;

/// The angle every regenerated ball restarts from: a full turn minus
/// 0.3 radians, so the first trigger fires almost immediately.
pub const RESET_ANGLE_NT: u64 = 952_253_517;

/// Defensive ceiling on a stored angle (one turn plus the largest possible
/// single-frame increment).
pub const ANGLE_CAP_NT: u64 = 41_000_000_000;

/// How many random interval steps a regenerated scale pattern uses.
pub const PATTERN_LEN: usize = 10;

/// One orbiting ball: an unbounded angle accumulator, an angular speed and
/// the pitch its slot plays, all tied to one voice slot by index.
#[derive(Clone, Copy, Debug, PartialEq, Eq, Structural)]
pub struct Ball {
    pub angle_nt: u64,
    pub speed_nt: u64,
    pub pitch: i64,
}

/// A note-on event: which voice slot, at which pitch.
#[derive(Clone, Copy, Debug, PartialEq, Eq, Structural)]
pub struct Trigger {
    pub slot: usize,
    pub pitch: i64,
}

/// The ranges every ball stays inside.
pub open spec fn ball_wf(b: Ball) -> bool {
    &&& b.speed_nt <= SPEED_MAX
    &&& b.angle_nt <= ANGLE_CAP_NT
    &&& PITCH_MIN <= b.pitch <= PITCH_MAX
}

/// How far a ball advances in one frame of `dt_us` microseconds.
pub open spec fn angle_inc_spec(speed: int, dt_us: int) -> int {
    speed * dt_us / 1_000_000
}

/// Whether a ball completes a revolution this frame.
pub open spec fn fires_spec(b: Ball, dt_us: int) -> bool {
    b.angle_nt + angle_inc_spec(b.speed_nt as int, dt_us) >= TURN
}

/// The ball one frame later: advanced, and wrapped by exactly one turn if
/// it fired (with the defensive angle ceiling applied).
pub open spec fn stepped_ball_spec(b: Ball, dt_us: int) -> Ball {
    let a = b.angle_nt + angle_inc_spec(b.speed_nt as int, dt_us);
    if a >= TURN {
        let w = a - TURN;
        Ball {
            angle_nt: (if w > ANGLE_CAP_NT {
                ANGLE_CAP_NT as int
            } else {
                w
            }) as u64,
            speed_nt: b.speed_nt,
            pitch: b.pitch,
        }
    } else {
        Ball { angle_nt: a as u64, speed_nt: b.speed_nt, pitch: b.pitch }
    }
}

/// The triggers the first `k` balls emit this frame, in slot order.
pub open spec fn triggers_upto_spec(balls: Seq<Ball>, dt_us: int, k: nat) -> Seq<Trigger>
    decreases k,
{
    if k == 0 {
        Seq::empty()
    } else {
        let pre = triggers_upto_spec(balls, dt_us, (k - 1) as nat);
        if fires_spec(balls[k - 1], dt_us) {
            pre.push(Trigger { slot: (k - 1) as usize, pitch: balls[k - 1].pitch })
        } else {
            pre
        }
    }
}

/// How many triggers in a sequence carry a given slot.
pub open spec fn count_slot_spec(s: Seq<Trigger>, slot: int) -> nat
    decreases s.len(),
{
    if s.len() == 0 {
        0nat
    } else {
        count_slot_spec(s.drop_last(), slot) + (if s.last().slot == slot {
            1nat
        } else {
            0nat
        })
    }
}

/// Each ball contributes exactly one trigger when it fires and none when it
/// does not: the single-wrap rule, per slot.
pub proof fn lemma_trigger_count(balls: Seq<Ball>, dt_us: int, slot: int, k: nat)
    requires
        k <= balls.len(),
        balls.len() <= usize::MAX,
    ensures
        count_slot_spec(triggers_upto_spec(balls, dt_us, k), slot) == if 0 <= slot < k
            && fires_spec(balls[slot], dt_us) {
            1nat
        } else {
            0nat
        },
    decreases k,
{
    if k > 0 {
        lemma_trigger_count(balls, dt_us, slot, (k - 1) as nat);
        let pre = triggers_upto_spec(balls, dt_us, (k - 1) as nat);
        if fires_spec(balls[k - 1], dt_us) {
            let t = Trigger { slot: (k - 1) as usize, pitch: balls[k - 1].pitch };
            assert(pre.push(t).drop_last() =~= pre);
        }
    }
}

/// A ball with zero speed never fires, and never even moves, as long as it
/// starts inside its revolution.
pub proof fn lemma_zero_speed_never_fires(b: Ball, dt_us: int)
    requires
        b.speed_nt == 0,
        b.angle_nt < TURN,
        0 <= dt_us,
    ensures
        !fires_spec(b, dt_us),
        stepped_ball_spec(b, dt_us) == b,
{
    assert(angle_inc_spec(0, dt_us) == 0) by {
        vstd::arithmetic::div_mod::lemma_div_of0(1_000_000);
    }
}

/// A ball fast enough to cover a whole turn in one frame fires exactly one
/// trigger that frame.
pub proof fn lemma_fast_ball_fires_once(balls: Seq<Ball>, dt_us: int, i: int)
    requires
        0 <= i < balls.len(),
        balls.len() <= usize::MAX,
        angle_inc_spec(balls[i].speed_nt as int, dt_us) >= TURN,
    ensures
        fires_spec(balls[i], dt_us),
        count_slot_spec(triggers_upto_spec(balls, dt_us, balls.len()), i) == 1,
{
    lemma_trigger_count(balls, dt_us, i, balls.len());
}

/// Every trigger a frame emits names a slot below `k` and carries that
/// ball's pitch, so its pitch is in range whenever the balls' are.
pub proof fn lemma_triggers_in_range(balls: Seq<Ball>, dt_us: int, k: nat)
    requires
        k <= balls.len(),
        balls.len() <= usize::MAX,
        forall|i: int| 0 <= i < balls.len() ==> ball_wf(#[trigger] balls[i]),
    ensures
        forall|j: int|
            0 <= j < triggers_upto_spec(balls, dt_us, k).len() ==> {
                let t = #[trigger] triggers_upto_spec(balls, dt_us, k)[j];
                &&& t.slot < k
                &&& PITCH_MIN <= t.pitch <= PITCH_MAX
            },
    decreases k,
{
    if k > 0 {
        lemma_triggers_in_range(balls, dt_us, (k - 1) as nat);
        let s = triggers_upto_spec(balls, dt_us, k);
        let pre = triggers_upto_spec(balls, dt_us, (k - 1) as nat);
        assert(ball_wf(balls[k - 1]));
        assert forall|j: int| 0 <= j < s.len() implies {
            let t = #[trigger] s[j];
            &&& t.slot < k
            &&& PITCH_MIN <= t.pitch <= PITCH_MAX
        } by {
            if j < pre.len() {
                assert(s[j] == pre[j]);
            }
        }
    }
}

/// A pitch forced into the playable range.
pub open spec fn clamp_pitch_spec(p: int) -> int {
    if p < PITCH_MIN {
        PITCH_MIN as int
    } else if p > PITCH_MAX {
        PITCH_MAX as int
    } else {
        p
    }
}

/// The graduated speed of ball `i` out of `count`: the base rate plus the
/// step times the ball's distance from the last slot.
pub open spec fn ball_speed_spec(count: int, i: int) -> int {
    BASE_SPEED_NT + SPEED_STEP_NT * (count - i)
}

/// The interval pattern the scheduler starts from.
pub open spec fn default_pattern_spec() -> Seq<int> {
    seq![4, 3, 9, 8, 2, 9]
}

/// The scheduler: one ball per used voice slot, never more balls than the
/// pool it drives has slots.
#[derive(Debug)]
pub struct OrbitScheduler {
    balls: Vec<Ball>,
    capacity: usize,
}

impl OrbitScheduler {
    /// The balls, in slot order.
    pub closed spec fn balls(&self) -> Seq<Ball> {
        self.balls@
    }

    /// The voice-pool capacity this scheduler was built against.
    pub closed spec fn capacity(&self) -> int {
        self.capacity as int
    }

    /// Every ball in range, and no ball referencing a slot the pool lacks.
    pub open spec fn wf(&self) -> bool {
        &&& self.balls().len() <= self.capacity()
        &&& self.capacity() <= MAX_VOICES
        &&& forall|i: int| 0 <= i < self.balls().len() ==> ball_wf(#[trigger] self.balls()[i])
    }

    /// Builds the scheduler with its starting scale: seven balls (fewer if
    /// the pool is smaller) on the default pattern, transposed an octave
    /// down, all starting at angle zero.
    pub fn new(capacity: usize) -> (r: Result<OrbitScheduler, ConfigError>)
        ensures
            capacity == 0 <==> r == Err::<OrbitScheduler, ConfigError>(ConfigError::ZeroCapacity),
            capacity > MAX_VOICES <==> r == Err::<OrbitScheduler, ConfigError>(
                ConfigError::CapacityTooLarge,
            ),
            1 <= capacity <= MAX_VOICES <==> r matches Ok(_),
            r matches Ok(s) ==> {
                &&& s.wf()
                &&& s.capacity() == capacity
                &&& s.balls().len() == (if capacity < 7 {
                    capacity as int
                } else {
                    7int
                })
                &&& forall|i: int|
                    0 <= i < s.balls().len() ==> {
                        let b = #[trigger] s.balls()[i];
                        &&& b.angle_nt == 0
                        &&& b.speed_nt == ball_speed_spec(s.balls().len() as int, i)
                        &&& b.pitch == clamp_pitch_spec(
                            scale_spec(0, default_pattern_spec(), i as nat) - 12,
                        )
                    }
            },
    {
        if capacity == 0 {
            return Err(ConfigError::ZeroCapacity);
        }
        if capacity > MAX_VOICES {
            return Err(ConfigError::CapacityTooLarge);
        }
        let pattern: Vec<u8> = vec![4, 3, 9, 8, 2, 9];
        proof {
            assert(pattern@ =~= seq![4u8, 3u8, 9u8, 8u8, 2u8, 9u8]);
            assert(pattern_of(pattern@) =~= default_pattern_spec());
        }
        let count: usize = if capacity < 7 {
            capacity
        } else {
            7
        };
        let degrees = scale_values(0, &pattern, count);
        let balls = make_balls(count, 0, &degrees);
        Ok(OrbitScheduler { balls, capacity })
    }

    /// How many balls are in play.
    pub fn ball_count(&self) -> (r: usize)
        ensures
            r == self.balls().len(),
    {
        self.balls.len()
    }

    /// A read-only snapshot of one ball, for visualization.
    pub fn get_ball(&self, i: usize) -> (r: Ball)
        requires
            i < self.balls().len(),
        ensures
            r == self.balls()[i as int],
    {
        self.balls[i]
    }

    /// Advances every ball by one frame and collects the triggers of the
    /// balls that completed a revolution, in slot order.
    pub fn step_frame(&mut self, dt_us: u64) -> (trigs: Vec<Trigger>)
        requires
            old(self).wf(),
            dt_us <= DT_MAX_US,
        ensures
            final(self).wf(),
            final(self).capacity() == old(self).capacity(),
            final(self).balls().len() == old(self).balls().len(),
            forall|i: int|
                0 <= i < old(self).balls().len() ==> #[trigger] final(self).balls()[i]
                    == stepped_ball_spec(old(self).balls()[i], dt_us as int),
            trigs@ == triggers_upto_spec(
                old(self).balls(),
                dt_us as int,
                old(self).balls().len() as nat,
            ),
    {
        let ghost orig = self.balls@;
        let ghost cap0 = self.capacity;
        let mut trigs: Vec<Trigger> = Vec::new();
        let n = self.balls.len();
        let mut i: usize = 0;
        while i < n
            invariant
                i <= n,
                n == self.balls@.len() == orig.len(),
                self.capacity == cap0,
                n <= cap0 <= MAX_VOICES,
                dt_us <= DT_MAX_US,
                forall|j: int| 0 <= j < orig.len() ==> ball_wf(#[trigger] orig[j]),
                forall|j: int| 0 <= j < i ==> #[trigger] self.balls@[j] == stepped_ball_spec(
                    orig[j],
                    dt_us as int,
                ),
                forall|j: int| i <= j < n ==> #[trigger] self.balls@[j] == orig[j],
                trigs@ == triggers_upto_spec(orig, dt_us as int, i as nat),
            decreases n - i,
        {
            let b = self.balls[i];
            proof {
                assert(b.speed_nt * dt_us <= (SPEED_MAX as int) * (DT_MAX_US as int))
                    by (nonlinear_arith)
                    requires
                        0 <= b.speed_nt <= SPEED_MAX,
                        0 <= dt_us <= DT_MAX_US,
                ;
                vstd::arithmetic::div_mod::lemma_div_is_ordered(
                    (b.speed_nt as int) * (dt_us as int),
                    (SPEED_MAX as int) * (DT_MAX_US as int),
                    1_000_000,
                );
                vstd::arithmetic::div_mod::lemma_div_pos_is_pos(
                    (b.speed_nt as int) * (dt_us as int),
                    1_000_000,
                );
            }
            let inc = mul_div(b.speed_nt, dt_us, 1_000_000);
            let a = b.angle_nt + inc;
            if a >= TURN {
                let w = a - TURN;
                let w2 = if w > ANGLE_CAP_NT {
                    ANGLE_CAP_NT
                } else {
                    w
                };
                self.balls[i] = Ball { angle_nt: w2, speed_nt: b.speed_nt, pitch: b.pitch };
                trigs.push(Trigger { slot: i, pitch: b.pitch });
            } else {
                self.balls[i] = Ball { angle_nt: a, speed_nt: b.speed_nt, pitch: b.pitch };
            }
            i = i + 1;
        }
        proof {
            assert forall|j: int| 0 <= j < n implies ball_wf(#[trigger] self.balls@[j]) by {
                assert(self.balls@[j] == stepped_ball_spec(orig[j], dt_us as int));
            }
        }
        trigs
    }

    /// Regenerates the whole ball collection from raw random draws: a ball
    /// count in `6..=11` (capped by the pool), a starting degree in
    /// `-16..=15`, and ten interval steps each in `1..=9`; every new ball
    /// restarts just short of a full turn so the music resumes at once.
    pub fn regenerate(&mut self, rand_count: u64, rand_start: u64, rand_steps: &Vec<u64>)
        requires
            old(self).wf(),
            rand_steps@.len() == PATTERN_LEN,
        ensures
            final(self).wf(),
            final(self).capacity() == old(self).capacity(),
            final(self).balls().len() == (if 6 + (rand_count as int) % 6 <= old(self).capacity() {
                6 + (rand_count as int) % 6
            } else {
                old(self).capacity()
            }),
            final(self).balls().len() <= 11,
            old(self).capacity() >= 6 ==> final(self).balls().len() >= 6,
            forall|i: int|
                0 <= i < final(self).balls().len() ==> {
                    let b = #[trigger] final(self).balls()[i];
                    &&& b.angle_nt == RESET_ANGLE_NT
                    &&& b.speed_nt == ball_speed_spec(final(self).balls().len() as int, i)
                    &&& b.pitch == clamp_pitch_spec(
                        scale_spec(
                            -16 + (rand_start as int) % 32,
                            rand_steps@.map_values(|v: u64| 1 + (v as int) % 9),
                            i as nat,
                        ) - 12,
                    )
                },
    {
        let start: i64 = -16 + ((rand_start % 32) as i64);
        let count_raw: usize = 6 + ((rand_count % 6) as usize);
        let count: usize = if count_raw <= self.capacity {
            count_raw
        } else {
            self.capacity
        };
        let mut steps: Vec<u8> = Vec::new();
        let mut j: usize = 0;
        while j < PATTERN_LEN
            invariant
                j <= PATTERN_LEN,
                rand_steps@.len() == PATTERN_LEN,
                steps@.len() == j,
                forall|k: int| 0 <= k < j ==> #[trigger] steps@[k] == 1 + (rand_steps@[k] as int)
                    % 9,
            decreases PATTERN_LEN - j,
        {
            let s = rand_steps[j];
            steps.push(1 + ((s % 9) as u8));
            j = j + 1;
        }
        proof {
            assert(pattern_of(steps@) =~= rand_steps@.map_values(|v: u64| 1 + (v as int) % 9));
        }
        let degrees = scale_values(start, &steps, count);
        self.balls = make_balls(count, RESET_ANGLE_NT, &degrees);
    }
}

/// A fresh set of `count` balls at one starting angle: graduated speeds,
/// pitches one octave below the given scale degrees, clamped into range.
fn make_balls(count: usize, start_angle: u64, degrees: &Vec<i64>) -> (balls: Vec<Ball>)
    requires
        count <= MAX_VOICES,
        count <= degrees@.len(),
        start_angle <= ANGLE_CAP_NT,
    ensures
        balls@.len() == count,
        forall|i: int|
            0 <= i < count ==> {
                let b = #[trigger] balls@[i];
                &&& b.angle_nt == start_angle
                &&& b.speed_nt == ball_speed_spec(count as int, i)
                &&& b.pitch == clamp_pitch_spec(degrees@[i] - 12)
                &&& ball_wf(b)
            },
{
    let mut balls: Vec<Ball> = Vec::new();
    let mut i: usize = 0;
    while i < count
        invariant
            i <= count,
            count <= MAX_VOICES,
            count <= degrees@.len(),
            start_angle <= ANGLE_CAP_NT,
            balls@.len() == i,
            forall|k: int|
                0 <= k < i ==> {
                    let b = #[trigger] balls@[k];
                    &&& b.angle_nt == start_angle
                    &&& b.speed_nt == ball_speed_spec(count as int, k)
                    &&& b.pitch == clamp_pitch_spec(degrees@[k] - 12)
                    &&& ball_wf(b)
                },
        decreases count - i,
    {
        let d: u64 = (count - i) as u64;
        proof {
            assert(SPEED_STEP_NT * d <= (SPEED_STEP_NT as int) * 64) by (nonlinear_arith)
                requires
                    0 <= d <= 64,
            ;
        }
        let speed: u64 = BASE_SPEED_NT + SPEED_STEP_NT * d;
        let raw = degrees[i];
        let pitch: i64 = if raw < PITCH_MIN + 12 {
            PITCH_MIN
        } else if raw > PITCH_MAX + 12 {
            PITCH_MAX
        } else {
            raw - 12
        };
        balls.push(Ball { angle_nt: start_angle, speed_nt: speed, pitch });
        i = i + 1;
    }
    balls
}

/// A discrete input event from the host: nudge the lead voice's pitch, or
/// regenerate the whole scene from fresh random draws.
#[derive(Clone, Debug)]
pub enum KeyEvent {
    /// Raise the lead voice (slot zero) by a musical fifth.
    RaisePitch,
    /// Lower the lead voice (slot zero) by one semitone.
    LowerPitch,
    /// Throw the balls away and start a new random scale.
    Regenerate { rand_count: u64, rand_start: u64, rand_steps: Vec<u64> },
}

/// Decides what a key event does: the pitch keys become commands for the
/// render side, the regenerate key reshapes the scheduler on the spot and
/// sends nothing.
pub fn on_key(sched: &mut OrbitScheduler, key: &KeyEvent) -> (r: Option<Command>)
    requires
        old(sched).wf(),
        key matches KeyEvent::Regenerate { rand_steps, .. } ==> rand_steps@.len() == PATTERN_LEN,
    ensures
        final(sched).wf(),
        final(sched).capacity() == old(sched).capacity(),
        key matches KeyEvent::RaisePitch ==> r == Some(
            Command::ScaleFrequency { slot: 0usize, semitones: 7i32 },
        ) && *final(sched) == *old(sched),
        key matches KeyEvent::LowerPitch ==> r == Some(
            Command::ScaleFrequency { slot: 0usize, semitones: -1i32 },
        ) && *final(sched) == *old(sched),
        key matches KeyEvent::Regenerate { rand_count, rand_start, rand_steps } ==> {
            &&& r is None
            &&& final(sched).balls().len() <= 11
            &&& old(sched).capacity() >= 6 ==> final(sched).balls().len() >= 6
            &&& final(sched).balls().len() == (if 6 + (rand_count as int) % 6 <= old(
                sched,
            ).capacity() {
                6 + (rand_count as int) % 6
            } else {
                old(sched).capacity()
            })
            &&& forall|i: int|
                0 <= i < final(sched).balls().len() ==> {
                    let b = #[trigger] final(sched).balls()[i];
                    &&& b.angle_nt == RESET_ANGLE_NT
                    &&& b.speed_nt == ball_speed_spec(final(sched).balls().len() as int, i)
                    &&& b.pitch == clamp_pitch_spec(
                        scale_spec(
                            -16 + (rand_start as int) % 32,
                            rand_steps@.map_values(|v: u64| 1 + (v as int) % 9),
                            i as nat,
                        ) - 12,
                    )
                }
        },
{
    match key {
        KeyEvent::RaisePitch => Some(Command::ScaleFrequency { slot: 0, semitones: 7 }),
        KeyEvent::LowerPitch => Some(Command::ScaleFrequency { slot: 0, semitones: -1 }),
        KeyEvent::Regenerate { rand_count, rand_start, rand_steps } => {
            sched.regenerate(*rand_count, *rand_start, rand_steps);
            None
        },
    }
}

/// The command a trigger turns into: overwrite the slot's voice with a
/// fresh tone at the pitch's frequency, initial volume and phase zero.
pub open spec fn trigger_command_spec(t: Trigger) -> Command {
    Command::SetVoice {
        slot: t.slot,
        tone: Tone {
            vol: INITIAL_VOL,
            freq_uhz: frequency_spec(t.pitch as int) as u64,
            phase_samples: 0,
        },
    }
}

/// One control-side frame: advances the orbits and turns every completed
/// revolution into a queueable voice command, in slot order.
pub fn frame_commands(sched: &mut OrbitScheduler, dt_us: u64) -> (cmds: Vec<Command>)
    requires
        old(sched).wf(),
        dt_us <= DT_MAX_US,
    ensures
        final(sched).wf(),
        final(sched).capacity() == old(sched).capacity(),
        final(sched).balls().len() == old(sched).balls().len(),
        forall|i: int|
            0 <= i < old(sched).balls().len() ==> #[trigger] final(sched).balls()[i]
                == stepped_ball_spec(old(sched).balls()[i], dt_us as int),
        cmds@ == triggers_upto_spec(
            old(sched).balls(),
            dt_us as int,
            old(sched).balls().len() as nat,
        ).map_values(|t: Trigger| trigger_command_spec(t)),
{
    let trigs = sched.step_frame(dt_us);
    proof {
        lemma_triggers_in_range(
            old(sched).balls(),
            dt_us as int,
            old(sched).balls().len() as nat,
        );
    }
    let mut cmds: Vec<Command> = Vec::new();
    let mut i: usize = 0;
    while i < trigs.len()
        invariant
            i <= trigs@.len(),
            cmds@.len() == i,
            forall|j: int|
                0 <= j < trigs@.len() ==> PITCH_MIN <= (#[trigger] trigs@[j]).pitch <= PITCH_MAX,
            forall|j: int| 0 <= j < i ==> #[trigger] cmds@[j] == trigger_command_spec(trigs@[j]),
        decreases trigs@.len() - i,
    {
        let t = trigs[i];
        let f = frequency_uhz(t.pitch);
        cmds.push(
            Command::SetVoice {
                slot: t.slot,
                tone: Tone { vol: INITIAL_VOL, freq_uhz: f, phase_samples: 0 },
            },
        );
        i = i + 1;
    }
    proof {
        assert(cmds@ =~= triggers_upto_spec(
            old(sched).balls(),
            dt_us as int,
            old(sched).balls().len() as nat,
        ).map_values(|t: Trigger| trigger_command_spec(t)));
    }
    cmds
}

} // verus!
