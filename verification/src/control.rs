//! The one-directional control protocol between the control side (frame
//! updates, key input) and the render side (the audio callback).
//!
//! The control side never touches the voice pool directly: it queues small
//! commands on a bounded channel, and the render side applies the whole
//! queue atomically at a buffer boundary, so every sample of one buffer sees
//! a single consistent pool state at each mutation point.  A command that
//! cannot be queued is simply dropped — a missed note is better than a
//! glitch on the real-time path.

use vstd::prelude::*;

use crate::pitch::shift_frequency;
use crate::pitch::shifted_freq_spec;
use crate::pool::{tone_wf, Tone, TonePool};

verus! {

/// A mutation of the voice pool, applied between buffers.
#[derive(Clone, Copy, Debug, PartialEq, Eq, Structural)]
pub enum Command {
    /// Overwrite one slot's voice wholesale (a note trigger).
    SetVoice { slot: usize, tone: Tone },
    /// Shift one slot's frequency by a number of semitones (negative goes
    /// down), clamped to the representable band.
    ScaleFrequency { slot: usize, semitones: i32 },
}

/// What one command does to the pool's voices.  A command aimed at a slot
/// the pool does not have, or carrying an out-of-range voice, is dropped.
pub open spec fn apply_command_spec(s: Seq<Tone>, c: Command) -> Seq<Tone> {
    match c {
        Command::SetVoice { slot, tone } => {
            if slot < s.len() && tone_wf(tone) {
                s.update(slot as int, tone)
            } else {
                s
            }
        },
        Command::ScaleFrequency { slot, semitones } => {
            if slot < s.len() {
                s.update(
                    slot as int,
                    Tone {
                        vol: s[slot as int].vol,
                        freq_uhz: shifted_freq_spec(
                            s[slot as int].freq_uhz as int,
                            semitones as int,
                        ) as u64,
                        phase_samples: s[slot as int].phase_samples,
                    },
                )
            } else {
                s
            }
        },
    }
}

/// What a whole queue of commands does, first to last.
pub open spec fn apply_commands_spec(s: Seq<Tone>, cmds: Seq<Command>) -> Seq<Tone>
    decreases cmds.len(),
{
    if cmds.len() == 0 {
        s
    } else {
        apply_command_spec(apply_commands_spec(s, cmds.drop_last()), cmds.last())
    }
}

/// Applies one command to the pool.
pub fn apply_command(pool: &mut TonePool, c: &Command)
    requires
        old(pool).wf(),
    ensures
        final(pool).wf(),
        final(pool)@ == apply_command_spec(old(pool)@, *c),
{
    match c {
        Command::SetVoice { slot, tone } => {
            if *slot < pool.capacity() {
                let t = *tone;
                if t.vol <= crate::units::UNIT && 1 <= t.freq_uhz && t.freq_uhz
                    <= crate::pitch::FREQ_MAX && t.phase_samples <= crate::pool::PHASE_MAX {
                    pool.set_voice(*slot, t);
                }
            }
        },
        Command::ScaleFrequency { slot, semitones } => {
            if *slot < pool.capacity() {
                let t = pool.get(*slot);
                let f = shift_frequency(t.freq_uhz, *semitones);
                pool.set_voice(
                    *slot,
                    Tone { vol: t.vol, freq_uhz: f, phase_samples: t.phase_samples },
                );
            }
        },
    }
}

/// Applies a whole queue of commands, first to last.
pub fn apply_commands(pool: &mut TonePool, cmds: &Vec<Command>)
    requires
        old(pool).wf(),
    ensures
        final(pool).wf(),
        final(pool)@ == apply_commands_spec(old(pool)@, cmds@),
{
    let ghost orig = old(pool)@;
    let mut i: usize = 0;
    while i < cmds.len()
        invariant
            pool.wf(),
            i <= cmds@.len(),
            pool@ == apply_commands_spec(orig, cmds@.take(i as int)),
        decreases cmds@.len() - i,
    {
        apply_command(pool, &cmds[i]);
        proof {
            assert(cmds@.take(i + 1).drop_last() =~= cmds@.take(i as int));
            assert(cmds@.take(i + 1).last() == cmds@[i as int]);
        }
        i = i + 1;
    }
    proof {
        assert(cmds@.take(cmds@.len() as int) =~= cmds@);
    }
}

/// The bounded single-producer, single-consumer command queue.
pub struct ControlChannel {
    queue: Vec<Command>,
    cap: usize,
}

impl ControlChannel {
    /// The commands waiting to be applied, oldest first.
    pub closed spec fn pending(&self) -> Seq<Command> {
        self.queue@
    }

    /// The most commands the channel will hold at once.
    pub closed spec fn cap(&self) -> int {
        self.cap as int
    }

    /// The queue never outgrows its bound.
    pub open spec fn wf(&self) -> bool {
        self.pending().len() <= self.cap()
    }

    /// A fresh, empty channel holding at most `cap` commands.
    pub fn new(cap: usize) -> (r: ControlChannel)
        ensures
            r.wf(),
            r.pending().len() == 0,
            r.cap() == cap,
    {
        ControlChannel { queue: Vec::new(), cap }
    }

    /// Queues one command; fails exactly when the channel is full, and a
    /// failed send leaves the queue untouched.
    pub fn send(&mut self, c: Command) -> (ok: bool)
        requires
            old(self).wf(),
        ensures
            final(self).wf(),
            final(self).cap() == old(self).cap(),
            ok <==> old(self).pending().len() < old(self).cap(),
            ok ==> final(self).pending() == old(self).pending().push(c),
            !ok ==> final(self).pending() == old(self).pending(),
    {
        if self.queue.len() < self.cap {
            self.queue.push(c);
            true
        } else {
            false
        }
    }

    /// Takes every pending command, leaving the channel empty; the render
    /// side calls this once per buffer.
    pub fn drain(&mut self) -> (cmds: Vec<Command>)
        requires
            old(self).wf(),
        ensures
            final(self).wf(),
            final(self).cap() == old(self).cap(),
            cmds@ == old(self).pending(),
            final(self).pending().len() == 0,
    {
        let mut cmds: Vec<Command> = Vec::new();
        let n = self.queue.len();
        let mut i: usize = 0;
        while i < n
            invariant
                i <= n,
                self.queue@ == old(self).pending(),
                n == self.queue@.len(),
                cmds@ =~= self.queue@.take(i as int),
            decreases n - i,
        {
            cmds.push(self.queue[i]);
            i = i + 1;
        }
        proof {
            assert(self.queue@.take(n as int) =~= self.queue@);
        }
        self.queue.clear();
        cmds
    }
}

} // verus!
