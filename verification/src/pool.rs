//! The fixed-capacity pool of oscillator voices.
//!
//! A voice ("tone") holds a volume, a frequency and a free-running phase.
//! The pool's size never changes after construction; a note trigger simply
//! overwrites one slot wholesale.  Volume decays exponentially once per
//! sample; phase counts samples since the voice was last triggered.

use vstd::prelude::*;

use crate::errors::ConfigError;
use crate::pitch::{frequency_spec, frequency_uhz, FREQ_MAX, PITCH_MAX, PITCH_MIN};
use crate::units::UNIT;

verus! {

/// Numerator of the per-sample decay ratio (the divisor is `1.00001`).
pub const DECAY_NUM: u64 = 100_000;

/// Denominator of the per-sample decay ratio.
pub const DECAY_DEN: u64 = 100_001;

/// The volume a freshly triggered voice starts from (`0.1` of full scale).
pub const INITIAL_VOL: u64 = 100_000_000;

/// Saturation bound for a voice's free-running phase, in samples: beyond
/// this (months of uninterrupted audio) the phase clock pins instead of
/// overflowing the engine's intermediate products.
pub const PHASE_MAX: u64 = 274_877_906_944;

/// Most voice slots a pool may be built with.
pub const MAX_VOICES: usize = 64;

/// Frequency the pool's slots hold before anything is triggered (1 kHz).
pub const DEFAULT_FREQ: u64 = 1_000_000_000;

/// One oscillator voice: volume and ratio scales of [`UNIT`], frequency in
/// micro-hertz, phase in samples since the last trigger.
#[derive(Clone, Copy, Debug, PartialEq, Eq, Structural)]
pub struct Tone {
    pub vol: u64,
    pub freq_uhz: u64,
    pub phase_samples: u64,
}

/// The numeric ranges every voice stays inside.
pub open spec fn tone_wf(t: Tone) -> bool {
    &&& t.vol <= UNIT
    &&& 1 <= t.freq_uhz <= FREQ_MAX
    &&& t.phase_samples <= PHASE_MAX
}

/// A whole pool's voices are in range, and there are few enough of them for
/// the mixer's accumulator.
pub open spec fn pool_wf(s: Seq<Tone>) -> bool {
    &&& s.len() <= MAX_VOICES
    &&& forall|i: int| 0 <= i < s.len() ==> tone_wf(#[trigger] s[i])
}

/// One step of exponential volume decay, in integer arithmetic.
pub open spec fn decayed_vol(v: int) -> int {
    v * DECAY_NUM / (DECAY_DEN as int)
}

/// The volume after `n` decay steps.
pub open spec fn decayed_vol_n(v: int, n: nat) -> int
    decreases n,
{
    if n == 0 {
        v
    } else {
        decayed_vol(decayed_vol_n(v, (n - 1) as nat))
    }
}

/// One decay step never raises a volume, never makes it negative, and
/// strictly lowers any audible one.
pub proof fn lemma_decay_monotone(v: int)
    requires
        0 <= v,
    ensures
        0 <= decayed_vol(v) <= v,
        v >= 1 ==> decayed_vol(v) < v,
{
    vstd::arithmetic::div_mod::lemma_div_pos_is_pos(v * DECAY_NUM, DECAY_DEN as int);
    assert(v * DECAY_NUM < (DECAY_DEN as int) * v || v == 0) by (nonlinear_arith)
        requires
            0 <= v,
    ;
    if v >= 1 {
        vstd::arithmetic::div_mod::lemma_multiply_divide_lt(v * DECAY_NUM, DECAY_DEN as int, v);
    } else {
        assert(v == 0);
    }
}

/// Decay is monotone across any number of steps: the volume after `n + 1`
/// steps never exceeds the volume after `n`, and never drops below zero.
pub proof fn lemma_decay_n_monotone(v: int, n: nat)
    requires
        0 <= v,
    ensures
        0 <= decayed_vol_n(v, n) <= v,
        decayed_vol_n(v, n + 1) <= decayed_vol_n(v, n),
    decreases n,
{
    if n == 0 {
        lemma_decay_monotone(v);
    } else {
        lemma_decay_n_monotone(v, (n - 1) as nat);
        lemma_decay_monotone(decayed_vol_n(v, (n - 1) as nat));
        lemma_decay_monotone(decayed_vol_n(v, n));
    }
}

/// Decay is asymptotic to the exact exponential: after `n` steps the volume
/// is at most `v * (100000/100001)^n`, stated multiplicatively so it stays
/// in the integers.
pub proof fn lemma_decay_n_exponential(v: int, n: nat)
    requires
        0 <= v,
    ensures
        decayed_vol_n(v, n) * vstd::arithmetic::power::pow(DECAY_DEN as int, n) <= v
            * vstd::arithmetic::power::pow(DECAY_NUM as int, n),
    decreases n,
{
    let a = DECAY_NUM as int;
    let b = DECAY_DEN as int;
    if n == 0 {
        assert(vstd::arithmetic::power::pow(a, 0) == 1) by {
            vstd::arithmetic::power::lemma_pow0(a);
        }
        assert(vstd::arithmetic::power::pow(b, 0) == 1) by {
            vstd::arithmetic::power::lemma_pow0(b);
        }
    } else {
        let m = (n - 1) as nat;
        lemma_decay_n_exponential(v, m);
        lemma_decay_n_monotone(v, m);
        let x = decayed_vol_n(v, m);
        let pa = vstd::arithmetic::power::pow(a, m);
        let pb = vstd::arithmetic::power::pow(b, m);
        vstd::arithmetic::power::lemma_pow_positive(a, m);
        vstd::arithmetic::power::lemma_pow_positive(b, m);
        // One floor-division step loses at most its remainder:
        vstd::arithmetic::div_mod::lemma_fundamental_div_mod(x * a, b);
        vstd::arithmetic::div_mod::lemma_mod_division_less_than_divisor(x * a, b);
        assert(decayed_vol(x) * b <= x * a) by (nonlinear_arith)
            requires
                x * a == b * ((x * a) / b) + (x * a) % b,
                (x * a) % b >= 0,
                decayed_vol(x) == (x * a) / b,
        ;
        assert(decayed_vol_n(v, n) == decayed_vol(x));
        vstd::arithmetic::power::lemma_pow1(a);
        vstd::arithmetic::power::lemma_pow1(b);
        vstd::arithmetic::power::lemma_pow_adds(a, 1, m);
        vstd::arithmetic::power::lemma_pow_adds(b, 1, m);
        assert(vstd::arithmetic::power::pow(b, n) == b * pb);
        assert(vstd::arithmetic::power::pow(a, n) == a * pa);
        assert(decayed_vol(x) * (b * pb) <= v * (a * pa)) by (nonlinear_arith)
            requires
                decayed_vol(x) * b <= x * a,
                x * pb <= v * pa,
                pa > 0,
                pb > 0,
                a > 0,
                b > 0,
                x >= 0,
                v >= 0,
                decayed_vol(x) >= 0,
        ;
    }
}

/// A voice one sample later: the phase clock has ticked (saturating far
/// beyond any realistic runtime) and the volume has decayed one step.
pub open spec fn advanced_tone(t: Tone) -> Tone {
    Tone {
        vol: t.vol,
        freq_uhz: t.freq_uhz,
        phase_samples: if t.phase_samples < PHASE_MAX {
            (t.phase_samples + 1) as u64
        } else {
            PHASE_MAX
        },
    }
}

/// A voice after one volume-decay step.
pub open spec fn decayed_tone(t: Tone) -> Tone {
    Tone { vol: (decayed_vol(t.vol as int)) as u64, freq_uhz: t.freq_uhz, phase_samples: t.phase_samples }
}

/// The fixed-capacity voice pool, owned by the render side.
#[derive(Debug)]
pub struct TonePool {
    tones: Vec<Tone>,
}

impl View for TonePool {
    type V = Seq<Tone>;

    closed spec fn view(&self) -> Seq<Tone> {
        self.tones@
    }
}

impl TonePool {
    /// Every slot in range; the engine's contracts assume nothing else.
    pub open spec fn wf(&self) -> bool {
        pool_wf(self@)
    }

    /// Builds a pool of `capacity` silent slots; a pool with no slots at all
    /// is a configuration fault.
    pub fn new(capacity: usize) -> (r: Result<TonePool, ConfigError>)
        ensures
            capacity == 0 <==> r == Err::<TonePool, ConfigError>(ConfigError::ZeroCapacity),
            capacity > MAX_VOICES <==> r == Err::<TonePool, ConfigError>(
                ConfigError::CapacityTooLarge,
            ),
            1 <= capacity <= MAX_VOICES <==> r matches Ok(_),
            r matches Ok(p) ==> {
                &&& p.wf()
                &&& p@.len() == capacity
                &&& forall|i: int| 0 <= i < capacity ==> #[trigger] p@[i] == (Tone {
                    vol: 0u64,
                    freq_uhz: DEFAULT_FREQ,
                    phase_samples: 0u64,
                })
            },
    {
        if capacity == 0 {
            return Err(ConfigError::ZeroCapacity);
        }
        if capacity > MAX_VOICES {
            return Err(ConfigError::CapacityTooLarge);
        }
        let mut tones: Vec<Tone> = Vec::new();
        let mut i: usize = 0;
        while i < capacity
            invariant
                i <= capacity,
                tones@.len() == i,
                forall|j: int| 0 <= j < i ==> #[trigger] tones@[j] == (Tone {
                    vol: 0u64,
                    freq_uhz: DEFAULT_FREQ,
                    phase_samples: 0u64,
                }),
            decreases capacity - i,
        {
            tones.push(Tone { vol: 0, freq_uhz: DEFAULT_FREQ, phase_samples: 0 });
            i = i + 1;
        }
        Ok(TonePool { tones })
    }

    /// How many voice slots the pool was built with.
    pub fn capacity(&self) -> (r: usize)
        ensures
            r == self@.len(),
    {
        self.tones.len()
    }

    /// A read-only snapshot of one voice.
    pub fn get(&self, slot: usize) -> (r: Tone)
        requires
            slot < self@.len(),
        ensures
            r == self@[slot as int],
    {
        self.tones[slot]
    }

    /// Replaces one slot's voice wholesale.
    pub fn set_voice(&mut self, slot: usize, tone: Tone)
        requires
            old(self).wf(),
            slot < old(self)@.len(),
            tone_wf(tone),
        ensures
            final(self).wf(),
            final(self)@ == old(self)@.update(slot as int, tone),
    {
        self.tones[slot] = tone;
    }

    /// A note trigger: overwrites the slot with a voice at the pitch's
    /// frequency, the configured initial volume, and phase zero — whatever
    /// decayed state the slot held before.
    pub fn trigger(&mut self, slot: usize, pitch: i64)
        requires
            old(self).wf(),
            slot < old(self)@.len(),
            PITCH_MIN <= pitch <= PITCH_MAX,
        ensures
            final(self).wf(),
            final(self)@.len() == old(self)@.len(),
            final(self)@[slot as int].vol == INITIAL_VOL,
            final(self)@[slot as int].freq_uhz == frequency_spec(pitch as int),
            final(self)@[slot as int].phase_samples == 0,
            forall|j: int|
                0 <= j < old(self)@.len() && j != slot ==> final(self)@[j] == old(self)@[j],
    {
        let f = frequency_uhz(pitch);
        self.tones[slot] = Tone { vol: INITIAL_VOL, freq_uhz: f, phase_samples: 0 };
    }

    /// Advances every voice's free-running phase clock by one sample,
    /// triggered or silent alike.
    pub fn advance_phase(&mut self)
        requires
            old(self).wf(),
        ensures
            final(self).wf(),
            final(self)@.len() == old(self)@.len(),
            forall|i: int| 0 <= i < old(self)@.len() ==> #[trigger] final(self)@[i]
                == advanced_tone(old(self)@[i]),
    {
        let ghost orig = self.tones@;
        let n = self.tones.len();
        let mut i: usize = 0;
        while i < n
            invariant
                pool_wf(orig),
                i <= n,
                self.tones@.len() == orig.len() == n,
                forall|j: int| 0 <= j < i ==> #[trigger] self.tones@[j] == advanced_tone(orig[j]),
                forall|j: int| i <= j < n ==> #[trigger] self.tones@[j] == orig[j],
            decreases n - i,
        {
            let t = self.tones[i];
            let ph = if t.phase_samples < PHASE_MAX {
                t.phase_samples + 1
            } else {
                PHASE_MAX
            };
            self.tones[i] = Tone { vol: t.vol, freq_uhz: t.freq_uhz, phase_samples: ph };
            i = i + 1;
        }
    }

    /// One step of exponential decay on every voice's volume.
    pub fn decay_step(&mut self)
        requires
            old(self).wf(),
        ensures
            final(self).wf(),
            final(self)@.len() == old(self)@.len(),
            forall|i: int| 0 <= i < old(self)@.len() ==> #[trigger] final(self)@[i]
                == decayed_tone(old(self)@[i]),
    {
        let ghost orig = self.tones@;
        let n = self.tones.len();
        let mut i: usize = 0;
        while i < n
            invariant
                pool_wf(orig),
                i <= n,
                self.tones@.len() == orig.len() == n,
                forall|j: int| 0 <= j < i ==> #[trigger] self.tones@[j] == decayed_tone(orig[j]),
                forall|j: int| i <= j < n ==> #[trigger] self.tones@[j] == orig[j],
            decreases n - i,
        {
            let t = self.tones[i];
            proof {
                lemma_decay_monotone(t.vol as int);
            }
            let v = crate::units::mul_div(t.vol, DECAY_NUM, DECAY_DEN);
            self.tones[i] = Tone { vol: v, freq_uhz: t.freq_uhz, phase_samples: t.phase_samples };
            i = i + 1;
        }
    }
}

} // verus!
