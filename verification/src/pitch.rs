//! Equal-tempered pitch arithmetic in integer micro-hertz.
//!
//! A pitch is a signed semitone offset from the A above middle C.  Its
//! frequency is `440 Hz * 2^(pitch/12)`.  The twelve pitch classes of the
//! lowest supported octave are tabulated in micro-hertz, and every other
//! octave is an exact power-of-two multiple, so "one octave up doubles the
//! frequency" holds exactly, not merely within rounding.

use vstd::prelude::*;

use crate::units::UNIT;

verus! {

/// Lowest supported pitch, ten octaves below the reference.
pub const PITCH_MIN: i64 = -120;

/// Highest supported pitch (just under eleven octaves above the lowest).
pub const PITCH_MAX: i64 = 131;

/// Upper clamp for any voice frequency, in micro-hertz (one megahertz).
pub const FREQ_MAX: u64 = 1_000_000_000_000;

/// `2^(1/12)` scaled by [`UNIT`]: one semitone up.
pub const SEMITONE_UP_FP: u64 = 1_059_463_094;

/// `2^(-1/12)` scaled by [`UNIT`]: one semitone down.
pub const SEMITONE_DOWN_FP: u64 = 943_874_313;

/// Micro-hertz of the twelve pitch classes of the lowest octave
/// (`440 Hz / 2^10` upward), rounded once when the table was fixed.
pub open spec fn pitch_class_base(m: int) -> int {
    if m == 0 {
        429688
    } else if m == 1 {
        455238
    } else if m == 2 {
        482309
    } else if m == 3 {
        510987
    } else if m == 4 {
        541372
    } else if m == 5 {
        573564
    } else if m == 6 {
        607670
    } else if m == 7 {
        643804
    } else if m == 8 {
        682086
    } else if m == 9 {
        722645
    } else if m == 10 {
        765616
    } else {
        811143
    }
}

/// The frequency of `pitch`, in micro-hertz: the tabulated pitch-class base
/// of the lowest octave, doubled once per octave above it.
pub open spec fn frequency_spec(pitch: int) -> int {
    pitch_class_base((pitch + 120) % 12) * vstd::arithmetic::power2::pow2(
        ((pitch + 120) / 12) as nat,
    )
}

/// One octave up exactly doubles the frequency.
pub proof fn lemma_octave_doubles(pitch: int)
    requires
        PITCH_MIN <= pitch,
        pitch + 12 <= PITCH_MAX,
    ensures
        frequency_spec(pitch + 12) == 2 * frequency_spec(pitch),
{
    let a = pitch + 120;
    vstd::arithmetic::div_mod::lemma_mod_add_multiples_vanish(a, 12);
    vstd::arithmetic::div_mod::lemma_div_plus_one(a, 12);
    vstd::arithmetic::div_mod::lemma_div_pos_is_pos(a, 12);
    vstd::arithmetic::power2::lemma_pow2_unfold(((a + 12) / 12) as nat);
    let b = pitch_class_base(a % 12);
    let p = vstd::arithmetic::power2::pow2((a / 12) as nat);
    assert(frequency_spec(pitch + 12) == b * (2 * p));
    assert(b * (2 * p) == 2 * (b * p)) by (nonlinear_arith);
}

/// The tabulated pitch-class base, as executable code.
fn pitch_class_base_val(m: u64) -> (r: u64)
    requires
        m < 12,
    ensures
        r == pitch_class_base(m as int),
        429688 <= r <= 811143,
{
    if m == 0 {
        429688
    } else if m == 1 {
        455238
    } else if m == 2 {
        482309
    } else if m == 3 {
        510987
    } else if m == 4 {
        541372
    } else if m == 5 {
        573564
    } else if m == 6 {
        607670
    } else if m == 7 {
        643804
    } else if m == 8 {
        682086
    } else if m == 9 {
        722645
    } else if m == 10 {
        765616
    } else {
        811143
    }
}

/// A small power of two, as executable code.
fn pow2_val(e: u64) -> (r: u64)
    requires
        e <= 20,
    ensures
        r == vstd::arithmetic::power2::pow2(e as nat),
        1 <= r <= 1048576,
{
    proof {
        vstd::arithmetic::power2::lemma2_to64();
    }
    if e == 0 {
        1
    } else if e == 1 {
        2
    } else if e == 2 {
        4
    } else if e == 3 {
        8
    } else if e == 4 {
        16
    } else if e == 5 {
        32
    } else if e == 6 {
        64
    } else if e == 7 {
        128
    } else if e == 8 {
        256
    } else if e == 9 {
        512
    } else if e == 10 {
        1024
    } else if e == 11 {
        2048
    } else if e == 12 {
        4096
    } else if e == 13 {
        8192
    } else if e == 14 {
        16384
    } else if e == 15 {
        32768
    } else if e == 16 {
        65536
    } else if e == 17 {
        131072
    } else if e == 18 {
        262144
    } else if e == 19 {
        524288
    } else {
        1048576
    }
}

/// The frequency a pitched trigger assigns to a voice, in micro-hertz.
pub fn frequency_uhz(pitch: i64) -> (r: u64)
    requires
        PITCH_MIN <= pitch <= PITCH_MAX,
    ensures
        r == frequency_spec(pitch as int),
        1 <= r <= FREQ_MAX,
{
    let off: u64 = (pitch + 120) as u64;
    let m: u64 = off % 12;
    let q: u64 = off / 12;
    assert(q <= 20);
    let base = pitch_class_base_val(m);
    let p2 = pow2_val(q);
    proof {
        assert(base * p2 <= 811143 * 1048576) by (nonlinear_arith)
            requires
                base <= 811143,
                p2 <= 1048576,
        ;
        assert(base * p2 >= 1) by (nonlinear_arith)
            requires
                base >= 1,
                p2 >= 1,
        ;
    }
    base * p2
}

/// The pitch class (0 == A, 11 == G sharp) a visualization labels a ball by.
pub fn pitch_class_index(pitch: i64) -> (r: usize)
    requires
        PITCH_MIN <= pitch <= PITCH_MAX,
    ensures
        r == (pitch + 120) % 12,
        r < 12,
{
    let off: u64 = (pitch + 120) as u64;
    (off % 12) as usize
}

/// One semitone step on a raw frequency, clamped into `[1, FREQ_MAX]` so a
/// runaway chain of steps can never silence or overflow a voice.
pub open spec fn scaled_freq_spec(freq: int, up: bool) -> int {
    let raw = if up {
        freq * SEMITONE_UP_FP / (UNIT as int)
    } else {
        freq * SEMITONE_DOWN_FP / (UNIT as int)
    };
    if raw < 1 {
        1int
    } else if raw > FREQ_MAX {
        FREQ_MAX as int
    } else {
        raw
    }
}

/// The frequency after `semitones` clamped semitone steps (negative steps
/// go down), applied one at a time.
pub open spec fn shifted_freq_spec(freq: int, semitones: int) -> int
    decreases
            (if semitones >= 0 {
                semitones
            } else {
                -semitones
            }),
{
    if semitones == 0 {
        freq
    } else if semitones > 0 {
        scaled_freq_spec(shifted_freq_spec(freq, semitones - 1), true)
    } else {
        scaled_freq_spec(shifted_freq_spec(freq, semitones + 1), false)
    }
}

/// One clamped semitone step, as executable code.
fn scale_frequency_once(freq: u64, up: bool) -> (r: u64)
    requires
        freq <= FREQ_MAX,
    ensures
        r == scaled_freq_spec(freq as int, up),
        1 <= r <= FREQ_MAX,
{
    let ratio: u64 = if up {
        SEMITONE_UP_FP
    } else {
        SEMITONE_DOWN_FP
    };
    proof {
        assert(freq * ratio <= FREQ_MAX * SEMITONE_UP_FP) by (nonlinear_arith)
            requires
                freq <= FREQ_MAX,
                ratio <= SEMITONE_UP_FP,
        ;
        vstd::arithmetic::div_mod::lemma_div_is_ordered(
            freq * ratio,
            FREQ_MAX * SEMITONE_UP_FP,
            UNIT as int,
        );
    }
    let raw = crate::units::mul_div(freq, ratio, UNIT);
    if raw < 1 {
        1
    } else if raw > FREQ_MAX {
        FREQ_MAX
    } else {
        raw
    }
}

/// The frequency after a whole semitone shift, as a command applies it.
pub fn shift_frequency(freq: u64, semitones: i32) -> (r: u64)
    requires
        1 <= freq <= FREQ_MAX,
    ensures
        r == shifted_freq_spec(freq as int, semitones as int),
        1 <= r <= FREQ_MAX,
{
    let up: bool = semitones >= 0;
    let k: u32 = if semitones >= 0 {
        semitones as u32
    } else {
        (-(semitones as i64)) as u32
    };
    let mut f: u64 = freq;
    let mut i: u32 = 0;
    while i < k
        invariant
            i <= k,
            1 <= f <= FREQ_MAX,
            up ==> f == shifted_freq_spec(freq as int, i as int),
            !up ==> f == shifted_freq_spec(freq as int, -(i as int)),
        decreases k - i,
    {
        f = scale_frequency_once(f, up);
        i = i + 1;
    }
    f
}

} // verus!
