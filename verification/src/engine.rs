//! The per-sample synthesis engine.
//!
//! For each voice the engine builds a vibrato-modulated carrier from the
//! voice's frequency and free-running phase, sums two harmonics (the second
//! a musical fifth above the fundamental, at half weight), applies tremolo
//! and the voice's decaying volume, and mixes all voices into one bounded
//! sample.  Within a sample the order is fixed: pending commands apply only
//! at a buffer boundary, the sample is computed from the current voices,
//! then every phase advances and every volume decays — so the first sample
//! after a trigger always sees full volume and zero phase.

use vstd::prelude::*;

use crate::control::{apply_commands, apply_commands_spec, ControlChannel};
use crate::pitch::FREQ_MAX;
use crate::pool::{advanced_tone, decayed_tone, tone_wf, Tone, TonePool, PHASE_MAX};
use crate::sine::{sine_fp, sine_spec};
use crate::units::{mul_div, TURN, UNIT};

verus! {

/// Vibrato rate in hertz.
pub const FM_FREQ: u64 = 5;

/// Vibrato depth, scaled by [`UNIT`] (five millionths).
pub const FM_AMP_FP: u64 = 5_000;

/// Tremolo rate in hertz.
pub const TREM_FREQ: u64 = 3;

/// Tremolo depth, scaled by [`UNIT`] (three tenths).
pub const TREM_AMP_FP: u64 = 300_000_000;

/// Divisor that turns `freq_uhz * phase_fp * ratio` into nanoturns of the
/// carrier's half-cycle argument.
pub const CARRIER_DEN: u64 = 2_000_000_000_000_000;

/// Master output attenuation: every mixed sample is halved.
pub const MASTER_DEN: u64 = 2;

/// Lowest supported sample rate, in hertz.
pub const MIN_RATE: u32 = 8_000;

/// Highest supported sample rate, in hertz.
pub const MAX_RATE: u32 = 192_000;

/// Largest value the per-voice phase position can reach, in nanoseconds.
pub const PFP_MAX: u64 = 34_359_738_368_000_000;

/// The voice's phase as elapsed time, in nanoseconds since its trigger.
pub open spec fn phase_fp_spec(phase: int, rate: int) -> int {
    phase * TURN / rate
}

/// `1 +- depth * sine`: the multiplicative shape shared by vibrato and
/// tremolo, scaled by [`UNIT`] and split on the sine's sign so all integer
/// divisions act on non-negative values.
pub open spec fn ratio_mod_spec(s: int, amp: int) -> int {
    if s >= 0 {
        UNIT + s * amp / (UNIT as int)
    } else {
        UNIT - (-s) * amp / (UNIT as int)
    }
}

/// The vibrato factor at a phase position.
pub open spec fn vibrato_spec(pfp: int) -> int {
    ratio_mod_spec(sine_spec(pfp * FM_FREQ), FM_AMP_FP as int)
}

/// The tremolo factor at a phase position.
pub open spec fn tremolo_spec(pfp: int) -> int {
    ratio_mod_spec(sine_spec(pfp * TREM_FREQ), TREM_AMP_FP as int)
}

/// The carrier argument of one harmonic, in nanoturns: frequency times
/// elapsed time times vibrato times the harmonic's ratio, reduced to one
/// turn.
pub open spec fn carrier_arg_spec(freq: int, pfp: int, vib: int, rnum: int, rden: int) -> int {
    (freq * pfp * vib * rnum / ((CARRIER_DEN as int) * rden)) % (TURN as int)
}

/// Signed halving toward zero, matching unsigned division on magnitudes.
pub open spec fn halved_spec(s: int) -> int {
    if s >= 0 {
        s / 2
    } else {
        -((-s) / 2)
    }
}

/// One voice's contribution to a sample: two harmonics of the vibrato
/// carrier (the second at ratio 3/2 and half weight), shaped by tremolo and
/// the voice's volume.  Opaque: the mixer reasons about it as a value, and
/// only the proofs about a single voice look inside.
#[verifier::opaque]
pub open spec fn voice_amp_spec(t: Tone, rate: int) -> int {
    let pfp = phase_fp_spec(t.phase_samples as int, rate);
    let vib = vibrato_spec(pfp);
    let s1 = sine_spec(carrier_arg_spec(t.freq_uhz as int, pfp, vib, 1, 1));
    let s2 = sine_spec(carrier_arg_spec(t.freq_uhz as int, pfp, vib, 3, 2));
    let h = s1 + halved_spec(s2);
    let hm = if h >= 0 {
        h
    } else {
        -h
    };
    let trem = tremolo_spec(pfp);
    let mag = hm * trem / (UNIT as int) * (t.vol as int) / (UNIT as int);
    if h >= 0 {
        mag
    } else {
        -mag
    }
}

/// The unattenuated mix of every voice's contribution.
pub open spec fn mix_spec(s: Seq<Tone>, rate: int) -> int
    decreases s.len(),
{
    if s.len() == 0 {
        0
    } else {
        mix_spec(s.drop_last(), rate) + voice_amp_spec(s.last(), rate)
    }
}

/// One output sample: the mix after master attenuation.
pub open spec fn sample_spec(s: Seq<Tone>, rate: int) -> int {
    halved_spec(mix_spec(s, rate))
}

/// A voice one sample later: phase advanced, then volume decayed.
pub open spec fn tick_tone(t: Tone) -> Tone {
    decayed_tone(advanced_tone(t))
}

/// The whole pool one sample later.
pub open spec fn tick_pool_spec(s: Seq<Tone>) -> Seq<Tone> {
    s.map_values(|t: Tone| tick_tone(t))
}

/// The whole pool `n` samples later.
pub open spec fn tick_n_spec(s: Seq<Tone>, n: nat) -> Seq<Tone>
    decreases n,
{
    if n == 0 {
        s
    } else {
        tick_pool_spec(tick_n_spec(s, (n - 1) as nat))
    }
}

/// A signed fixed-point amplitude, kept as sign and magnitude so every
/// division in the engine acts on non-negative integers.
struct Amp {
    neg: bool,
    mag: u64,
}

impl Amp {
    spec fn val(&self) -> int {
        if self.neg {
            -(self.mag as int)
        } else {
            self.mag as int
        }
    }
}

/// Signed addition on sign-magnitude amplitudes.
fn amp_add(a: Amp, b: Amp) -> (r: Amp)
    requires
        a.mag + b.mag <= u64::MAX,
    ensures
        r.val() == a.val() + b.val(),
        r.mag <= a.mag + b.mag,
{
    if a.neg == b.neg {
        Amp { neg: a.neg, mag: a.mag + b.mag }
    } else if a.mag >= b.mag {
        Amp { neg: a.neg, mag: a.mag - b.mag }
    } else {
        Amp { neg: b.neg, mag: b.mag - a.mag }
    }
}

/// The voice's phase position in nanoseconds, as executable code.
fn phase_fp_val(phase: u64, rate: u32) -> (r: u64)
    requires
        phase <= PHASE_MAX,
        MIN_RATE <= rate,
    ensures
        r == phase_fp_spec(phase as int, rate as int),
        r <= PFP_MAX,
{
    proof {
        vstd::arithmetic::mul::lemma_mul_inequality(phase as int, PHASE_MAX as int, TURN as int);
        vstd::arithmetic::div_mod::lemma_div_is_ordered_by_denominator(
            phase * TURN,
            MIN_RATE as int,
            rate as int,
        );
        vstd::arithmetic::div_mod::lemma_div_is_ordered(
            phase * TURN,
            (PHASE_MAX as int) * (TURN as int),
            MIN_RATE as int,
        );
    }
    mul_div(phase, TURN, rate as u64)
}

/// `1 +- depth * sine`, as executable code.
fn ratio_mod_val(s: i64, amp: u64) -> (r: u64)
    requires
        -UNIT <= s <= UNIT,
        amp <= UNIT,
    ensures
        r == ratio_mod_spec(s as int, amp as int),
        UNIT - amp <= r <= UNIT + amp,
{
    let m: u64 = if s >= 0 {
        s as u64
    } else {
        (-s) as u64
    };
    proof {
        vstd::arithmetic::mul::lemma_mul_inequality(m as int, UNIT as int, amp as int);
        vstd::arithmetic::div_mod::lemma_div_is_ordered(
            (m as int) * (amp as int),
            (UNIT as int) * (amp as int),
            UNIT as int,
        );
        vstd::arithmetic::div_mod::lemma_div_multiples_vanish(amp as int, UNIT as int);
        vstd::arithmetic::div_mod::lemma_div_pos_is_pos((m as int) * (amp as int), UNIT as int);
        assert((m as int) * (amp as int) >= 0) by (nonlinear_arith)
            requires
                m >= 0,
                amp >= 0,
        ;
    }
    let d = mul_div(m, amp, UNIT);
    if s >= 0 {
        UNIT + d
    } else {
        UNIT - d
    }
}

/// The carrier argument of one harmonic, as executable code.
fn carrier_arg_val(freq: u64, pfp: u64, vib: u64, rnum: u64, rden: u64) -> (r: u64)
    requires
        1 <= freq <= FREQ_MAX,
        pfp <= PFP_MAX,
        UNIT - FM_AMP_FP <= vib <= UNIT + FM_AMP_FP,
        1 <= rnum <= 3,
        1 <= rden <= 2,
    ensures
        r == carrier_arg_spec(freq as int, pfp as int, vib as int, rnum as int, rden as int),
        r < TURN,
{
    proof {
        assert((freq as int) * (pfp as int) <= (FREQ_MAX as int) * (PFP_MAX as int))
            by (nonlinear_arith)
            requires
                0 <= freq <= FREQ_MAX,
                0 <= pfp <= PFP_MAX,
        ;
        assert((freq as int) * (pfp as int) * (vib as int) <= (FREQ_MAX as int) * (PFP_MAX as int)
            * ((UNIT + FM_AMP_FP) as int)) by (nonlinear_arith)
            requires
                0 <= (freq as int) * (pfp as int) <= (FREQ_MAX as int) * (PFP_MAX as int),
                0 <= vib <= UNIT + FM_AMP_FP,
        ;
        assert((freq as int) * (pfp as int) * (vib as int) * (rnum as int) <= (FREQ_MAX as int) * (
        PFP_MAX as int) * ((UNIT + FM_AMP_FP) as int) * 3) by (nonlinear_arith)
            requires
                0 <= (freq as int) * (pfp as int) * (vib as int) <= (FREQ_MAX as int) * (
                PFP_MAX as int) * ((UNIT + FM_AMP_FP) as int),
                0 <= rnum <= 3,
        ;
        vstd::arithmetic::div_mod::lemma_mod_division_less_than_divisor(
            (freq as int) * (pfp as int) * (vib as int) * (rnum as int) / ((CARRIER_DEN as int) * (
            rden as int)),
            TURN as int,
        );
        vstd::arithmetic::div_mod::lemma_div_pos_is_pos(
            (freq as int) * (pfp as int) * (vib as int) * (rnum as int),
            (CARRIER_DEN as int) * (rden as int),
        );
    }
    let p1: u128 = (freq as u128) * (pfp as u128);
    proof {
        assert((p1 as int) * (vib as int) <= (FREQ_MAX as int) * (PFP_MAX as int) * ((UNIT
            + FM_AMP_FP) as int) && (p1 as int) * (vib as int) <= u128::MAX) by (nonlinear_arith)
            requires
                0 <= p1 <= (FREQ_MAX as int) * (PFP_MAX as int),
                0 <= vib <= UNIT + FM_AMP_FP,
        ;
    }
    let p2: u128 = p1 * (vib as u128);
    proof {
        assert((p2 as int) * (rnum as int) <= u128::MAX) by (nonlinear_arith)
            requires
                0 <= p2 <= (FREQ_MAX as int) * (PFP_MAX as int) * ((UNIT + FM_AMP_FP) as int),
                0 <= rnum <= 3,
        ;
    }
    let p3: u128 = p2 * (rnum as u128);
    let den: u128 = (CARRIER_DEN as u128) * (rden as u128);
    ((p3 / den) % (TURN as u128)) as u64
}

/// One voice's contribution to the current sample, as executable code.
fn voice_amp(t: &Tone, rate: u32) -> (r: Amp)
    requires
        tone_wf(*t),
        MIN_RATE <= rate <= MAX_RATE,
    ensures
        r.val() == voice_amp_spec(*t, rate as int),
        r.mag <= 2 * UNIT,
{
    proof {
        reveal(voice_amp_spec);
    }
    let pfp = phase_fp_val(t.phase_samples, rate);
    let sv = sine_fp(pfp * FM_FREQ);
    let vib = ratio_mod_val(sv, FM_AMP_FP);
    let a1 = carrier_arg_val(t.freq_uhz, pfp, vib, 1, 1);
    let a2 = carrier_arg_val(t.freq_uhz, pfp, vib, 3, 2);
    let s1 = sine_fp(a1);
    let s2 = sine_fp(a2);
    let s2h: i64 = if s2 >= 0 {
        ((s2 as u64) / 2) as i64
    } else {
        -((((-s2) as u64) / 2) as i64)
    };
    let h: i64 = s1 + s2h;
    let st = sine_fp(pfp * TREM_FREQ);
    let trem = ratio_mod_val(st, TREM_AMP_FP);
    let (neg, hm): (bool, u64) = if h >= 0 {
        (false, h as u64)
    } else {
        (true, (-h) as u64)
    };
    proof {
        assert((hm as int) * (trem as int) <= 1_500_000_000 * ((UNIT + TREM_AMP_FP) as int))
            by (nonlinear_arith)
            requires
                0 <= hm <= 1_500_000_000,
                0 <= trem <= UNIT + TREM_AMP_FP,
        ;
        vstd::arithmetic::div_mod::lemma_div_is_ordered(
            (hm as int) * (trem as int),
            1_500_000_000 * ((UNIT + TREM_AMP_FP) as int),
            UNIT as int,
        );
        vstd::arithmetic::div_mod::lemma_div_pos_is_pos((hm as int) * (trem as int), UNIT as int);
        assert((hm as int) * (trem as int) >= 0) by (nonlinear_arith)
            requires
                hm >= 0,
                trem >= 0,
        ;
    }
    let m1 = mul_div(hm, trem, UNIT);
    proof {
        assert((m1 as int) * (t.vol as int) <= 1_950_000_000 * (UNIT as int)) by (nonlinear_arith)
            requires
                0 <= m1 <= 1_950_000_000,
                0 <= t.vol <= UNIT,
        ;
        vstd::arithmetic::div_mod::lemma_div_is_ordered(
            (m1 as int) * (t.vol as int),
            1_950_000_000 * (UNIT as int),
            UNIT as int,
        );
        vstd::arithmetic::div_mod::lemma_div_pos_is_pos((m1 as int) * (t.vol as int), UNIT as int);
        assert((m1 as int) * (t.vol as int) >= 0) by (nonlinear_arith)
            requires
                m1 >= 0,
                t.vol >= 0,
        ;
    }
    let mag = mul_div(m1, t.vol, UNIT);
    Amp { neg, mag }
}

/// Renders one output sample from the current pool state: every voice's
/// contribution mixed and halved by the master attenuation.  The result is
/// always bounded by the pool size times full scale — the engine cannot
/// emit an unbounded (let alone non-finite) sample.
/// Extending the mixed prefix by one voice adds exactly that voice's
/// contribution.
proof fn lemma_mix_push(s: Seq<Tone>, rate: int, i: int)
    requires
        0 <= i < s.len(),
    ensures
        mix_spec(s.take(i + 1), rate) == mix_spec(s.take(i), rate) + voice_amp_spec(s[i], rate),
{
    assert(s.take(i + 1).drop_last() =~= s.take(i));
    assert(s.take(i + 1).last() == s[i]);
}

#[verifier::rlimit(80)]
pub fn render_sample(pool: &TonePool, rate: u32) -> (r: i64)
    requires
        pool.wf(),
        MIN_RATE <= rate <= MAX_RATE,
    ensures
        r == sample_spec(pool@, rate as int),
        -((pool@.len() as int) * UNIT) <= r <= (pool@.len() as int) * UNIT,
{
    let n = pool.capacity();
    let mut acc = Amp { neg: false, mag: 0 };
    let mut i: usize = 0;
    while i < n
        invariant
            pool.wf(),
            MIN_RATE <= rate <= MAX_RATE,
            i <= n,
            n == pool@.len(),
            acc.val() == mix_spec(pool@.take(i as int), rate as int),
            acc.mag <= (i as int) * 2_000_000_000,
        decreases n - i,
    {
        let t = pool.get(i);
        let v = voice_amp(&t, rate);
        proof {
            lemma_mix_push(pool@, rate as int, i as int);
        }
        acc = amp_add(acc, v);
        i = i + 1;
    }
    proof {
        assert(pool@.take(n as int) =~= pool@);
        vstd::arithmetic::div_mod::lemma_div_is_ordered(
            acc.mag as int,
            (n as int) * 2_000_000_000,
            MASTER_DEN as int,
        );
        assert((n as int) * 2_000_000_000 == 2 * ((n as int) * 1_000_000_000));
        vstd::arithmetic::div_mod::lemma_div_multiples_vanish((n as int) * 1_000_000_000, 2);
        vstd::arithmetic::div_mod::lemma_div_pos_is_pos(acc.mag as int, MASTER_DEN as int);
    }
    let m = acc.mag / MASTER_DEN;
    if acc.neg {
        -(m as i64)
    } else {
        m as i64
    }
}

/// A voice at phase zero, or one whose volume has fully died, contributes
/// exactly nothing to the mix.
pub proof fn lemma_silent_voice(t: Tone, rate: int)
    requires
        rate >= 1,
        t.phase_samples == 0 || t.vol == 0,
    ensures
        voice_amp_spec(t, rate) == 0,
{
    reveal(voice_amp_spec);
    let pfp = phase_fp_spec(t.phase_samples as int, rate);
    if t.phase_samples == 0 {
        vstd::arithmetic::div_mod::lemma_div_of0(rate);
        assert(pfp == 0);
        vstd::arithmetic::div_mod::lemma_small_mod(0, TURN as nat);
        crate::sine::lemma_sine_bounds(0);
        assert(sine_spec(0) == 0);
        vstd::arithmetic::div_mod::lemma_div_of0(UNIT as int);
        assert(vibrato_spec(0) == UNIT);
        assert(tremolo_spec(0) == UNIT);
        let vib = UNIT as int;
        vstd::arithmetic::div_mod::lemma_div_of0((CARRIER_DEN as int) * 1);
        vstd::arithmetic::div_mod::lemma_div_of0((CARRIER_DEN as int) * 2);
        assert(carrier_arg_spec(t.freq_uhz as int, 0, vib, 1, 1) == 0);
        assert(carrier_arg_spec(t.freq_uhz as int, 0, vib, 3, 2) == 0);
        vstd::arithmetic::div_mod::lemma_div_of0(2);
        assert(halved_spec(0) == 0);
        vstd::arithmetic::div_mod::lemma_div_of0(UNIT as int);
        assert(voice_amp_spec(t, rate) == 0);
    } else {
        let vib = vibrato_spec(pfp);
        let s1 = sine_spec(carrier_arg_spec(t.freq_uhz as int, pfp, vib, 1, 1));
        let s2 = sine_spec(carrier_arg_spec(t.freq_uhz as int, pfp, vib, 3, 2));
        let h = s1 + halved_spec(s2);
        let hm = if h >= 0 {
            h
        } else {
            -h
        };
        let trem = tremolo_spec(pfp);
        vstd::arithmetic::div_mod::lemma_div_of0(UNIT as int);
        assert(hm * trem / (UNIT as int) * (t.vol as int) == 0);
        assert(voice_amp_spec(t, rate) == 0);
    }
}

/// The mix of a pool in which every voice is fresh (phase zero) or dead
/// (volume zero) is exactly zero.
proof fn lemma_fresh_mix_zero(s: Seq<Tone>, rate: int)
    requires
        rate >= 1,
        forall|i: int|
            0 <= i < s.len() ==> (#[trigger] s[i]).phase_samples == 0 || s[i].vol == 0,
    ensures
        mix_spec(s, rate) == 0,
    decreases s.len(),
{
    if s.len() > 0 {
        lemma_silent_voice(s.last(), rate);
        assert(forall|i: int|
            0 <= i < s.drop_last().len() ==> (#[trigger] s.drop_last()[i]).phase_samples == 0
                || s.drop_last()[i].vol == 0);
        lemma_fresh_mix_zero(s.drop_last(), rate);
    }
}

/// A pool in which every voice is fresh (phase zero) or dead (volume zero)
/// renders an exactly zero sample: the first sample after a trigger starts
/// the wave at its zero crossing.
pub proof fn lemma_fresh_voices_silent(s: Seq<Tone>, rate: int)
    requires
        rate >= 1,
        forall|i: int|
            0 <= i < s.len() ==> (#[trigger] s[i]).phase_samples == 0 || s[i].vol == 0,
    ensures
        sample_spec(s, rate) == 0,
{
    lemma_fresh_mix_zero(s, rate);
    vstd::arithmetic::div_mod::lemma_div_of0(2);
}

/// Every command queue application keeps the pool's size.
pub proof fn lemma_apply_commands_len(s: Seq<Tone>, cmds: Seq<crate::control::Command>)
    ensures
        apply_commands_spec(s, cmds).len() == s.len(),
    decreases cmds.len(),
{
    if cmds.len() > 0 {
        lemma_apply_commands_len(s, cmds.drop_last());
    }
}

/// Renders one buffer of `frames` samples.
///
/// Exactly once, before the first sample, the whole pending command queue
/// is applied; then each sample is computed from the current voices, after
/// which every phase advances and every volume decays.  Mutations queued
/// while a buffer renders therefore never land mid-buffer.
pub fn render_buffer(
    pool: &mut TonePool,
    channel: &mut ControlChannel,
    rate: u32,
    frames: usize,
) -> (out: Vec<i64>)
    requires
        old(pool).wf(),
        old(channel).wf(),
        MIN_RATE <= rate <= MAX_RATE,
    ensures
        final(pool).wf(),
        final(channel).wf(),
        final(channel).cap() == old(channel).cap(),
        final(channel).pending().len() == 0,
        out@.len() == frames,
        final(pool)@ == tick_n_spec(
            apply_commands_spec(old(pool)@, old(channel).pending()),
            frames as nat,
        ),
        forall|k: int|
            0 <= k < frames ==> #[trigger] out@[k] == sample_spec(
                tick_n_spec(apply_commands_spec(old(pool)@, old(channel).pending()), k as nat),
                rate as int,
            ),
        forall|k: int|
            0 <= k < frames ==> -((old(pool)@.len() as int) * UNIT) <= #[trigger] out@[k] <= (old(
                pool,
            )@.len() as int) * UNIT,
{
    let cmds = channel.drain();
    apply_commands(pool, &cmds);
    proof {
        lemma_apply_commands_len(old(pool)@, cmds@);
    }
    let ghost p0 = pool@;
    let mut out: Vec<i64> = Vec::new();
    let mut k: usize = 0;
    while k < frames
        invariant
            pool.wf(),
            MIN_RATE <= rate <= MAX_RATE,
            k <= frames,
            out@.len() == k,
            pool@ == tick_n_spec(p0, k as nat),
            pool@.len() == p0.len(),
            forall|j: int|
                0 <= j < k ==> #[trigger] out@[j] == sample_spec(
                    tick_n_spec(p0, j as nat),
                    rate as int,
                ),
            forall|j: int|
                0 <= j < k ==> -((p0.len() as int) * UNIT) <= #[trigger] out@[j] <= (
                p0.len() as int) * UNIT,
        decreases frames - k,
    {
        let s = render_sample(pool, rate);
        out.push(s);
        let ghost before = pool@;
        pool.advance_phase();
        let ghost mid = pool@;
        pool.decay_step();
        proof {
            assert forall|j: int| 0 <= j < before.len() implies #[trigger] pool@[j] == tick_tone(
                before[j],
            ) by {
                assert(mid[j] == advanced_tone(before[j]));
                assert(pool@[j] == decayed_tone(mid[j]));
            }
            assert(pool@ =~= tick_pool_spec(before));
        }
        k = k + 1;
    }
    out
}

} // verus!
