//! Scale generation: an infinite, restartable sequence of scale degrees built
//! from a starting degree and a cyclic pattern of positive interval steps.

use vstd::prelude::*;

use crate::errors::ConfigError;

verus! {

/// Largest step a single scale interval may take (one hexadecimal digit).
pub const STEP_MAX: u8 = 15;

/// Bound on starting degrees; far from anything an `i64` accumulator could
/// overflow on, yet wide enough for any musical transposition.
pub const START_BOUND: i64 = 1_000_000;

/// The degree reached after `n` steps from `start` through the cyclic
/// interval pattern: `g(0) = start`, `g(n+1) = g(n) + intervals[n % len]`.
pub open spec fn scale_spec(start: int, intervals: Seq<int>, n: nat) -> int
    decreases n,
{
    if n == 0 {
        start
    } else {
        scale_spec(start, intervals, (n - 1) as nat)
            + intervals[(((n - 1) as nat) % intervals.len()) as int]
    }
}

/// A usable interval pattern: non-empty, every step positive and at most
/// [`STEP_MAX`].
pub open spec fn intervals_wf(s: Seq<u8>) -> bool {
    &&& s.len() > 0
    &&& forall|j: int| 0 <= j < s.len() ==> 1 <= #[trigger] s[j] <= STEP_MAX
}

/// The pattern seen as a sequence of mathematical integers.
pub open spec fn pattern_of(s: Seq<u8>) -> Seq<int> {
    s.map_values(|v: u8| v as int)
}

/// Consecutive degrees differ by exactly the pattern step at `n mod len`.
pub proof fn lemma_scale_step(start: int, intervals: Seq<int>, n: nat)
    requires
        intervals.len() > 0,
    ensures
        scale_spec(start, intervals, n + 1) - scale_spec(start, intervals, n)
            == intervals[(n % intervals.len()) as int],
{
}

/// Every degree stays within `start + n` and `start + STEP_MAX * n` as long
/// as the steps do: the sequence climbs, but slowly.
pub proof fn lemma_scale_bounds(start: int, intervals: Seq<int>, n: nat)
    requires
        intervals.len() > 0,
        forall|j: int| 0 <= j < intervals.len() ==> 1 <= #[trigger] intervals[j] <= STEP_MAX,
    ensures
        start + n <= scale_spec(start, intervals, n) <= start + (STEP_MAX as int) * n,
    decreases n,
{
    if n > 0 {
        lemma_scale_bounds(start, intervals, (n - 1) as nat);
    }
}

/// Stepping the cyclic cursor agrees with incrementing the step count
/// modulo the pattern length.
proof fn lemma_cursor_advance(e: int, l: int, idx: int)
    requires
        l > 0,
        0 <= e,
        idx == e % l,
    ensures
        (e + 1) % l == if idx + 1 == l {
            0int
        } else {
            idx + 1
        },
{
    vstd::arithmetic::div_mod::lemma_mod_division_less_than_divisor(e, l);
    vstd::arithmetic::div_mod::lemma_fundamental_div_mod(e, l);
    let q = e / l;
    if idx + 1 == l {
        assert(e + 1 == (q + 1) * l + 0) by (nonlinear_arith)
            requires
                e == l * q + idx,
                idx + 1 == l,
        ;
        vstd::arithmetic::div_mod::lemma_fundamental_div_mod_converse_mod(e + 1, l, q + 1, 0);
    } else {
        assert(e + 1 == q * l + (idx + 1)) by (nonlinear_arith)
            requires
                e == l * q + idx,
        ;
        vstd::arithmetic::div_mod::lemma_fundamental_div_mod_converse_mod(e + 1, l, q, idx + 1);
    }
}

/// A restartable lazy generator of scale degrees.
///
/// Its whole state is the starting degree, the pattern and how many degrees
/// it has already handed out, so two generators built alike always produce
/// identical sequences.
pub struct ScaleGen {
    current: i64,
    intervals: Vec<u8>,
    idx: usize,
    start: Ghost<int>,
    emitted: Ghost<nat>,
}

impl ScaleGen {
    /// The starting degree this generator was built with.
    pub closed spec fn start(&self) -> int {
        self.start@
    }

    /// The cyclic interval pattern, as integers.
    pub closed spec fn pattern(&self) -> Seq<int> {
        pattern_of(self.intervals@)
    }

    /// How many degrees have been handed out so far.
    pub closed spec fn emitted(&self) -> nat {
        self.emitted@
    }

    /// The degree the next call to [`Self::next`] will return.
    pub closed spec fn degree(&self) -> int {
        self.current as int
    }

    /// Internal consistency: the accumulator holds exactly the degree the
    /// pure sequence reaches after `emitted` steps, and the cursor points at
    /// the pattern slot that step uses.
    pub closed spec fn wf(&self) -> bool {
        &&& intervals_wf(self.intervals@)
        &&& self.idx < self.intervals@.len()
        &&& (self.idx as int) == (self.emitted@ % self.intervals@.len())
        &&& self.current == scale_spec(self.start@, self.pattern(), self.emitted@)
        &&& -START_BOUND <= self.start@ <= START_BOUND
    }

    /// Builds a generator, rejecting an empty pattern, a step outside
    /// `1..=STEP_MAX`, and a starting degree outside `±START_BOUND`.
    pub fn new(start: i64, intervals: Vec<u8>) -> (r: Result<ScaleGen, ConfigError>)
        ensures
            intervals@.len() == 0 <==> r == Err::<ScaleGen, ConfigError>(
                ConfigError::EmptyIntervals,
            ),
            intervals@.len() > 0 && !intervals_wf(intervals@) <==> r == Err::<
                ScaleGen,
                ConfigError,
            >(ConfigError::StepOutOfRange),
            intervals_wf(intervals@) && !(-START_BOUND <= start <= START_BOUND) <==> r == Err::<
                ScaleGen,
                ConfigError,
            >(ConfigError::StartOutOfRange),
            r matches Ok(g) ==> {
                &&& g.wf()
                &&& g.start() == start
                &&& g.pattern() == pattern_of(intervals@)
                &&& g.emitted() == 0
            },
    {
        if intervals.len() == 0 {
            return Err(ConfigError::EmptyIntervals);
        }
        let mut j: usize = 0;
        while j < intervals.len()
            invariant
                j <= intervals@.len(),
                forall|k: int| 0 <= k < j ==> 1 <= #[trigger] intervals@[k] <= STEP_MAX,
            decreases intervals@.len() - j,
        {
            let step = intervals[j];
            if step < 1 || step > STEP_MAX {
                return Err(ConfigError::StepOutOfRange);
            }
            j = j + 1;
        }
        if start < -START_BOUND || start > START_BOUND {
            return Err(ConfigError::StartOutOfRange);
        }
        proof {
            vstd::arithmetic::div_mod::lemma_small_mod(0, intervals@.len());
        }
        Ok(ScaleGen {
            current: start,
            intervals,
            idx: 0,
            start: Ghost(start as int),
            emitted: Ghost(0),
        })
    }

    /// Hands out the next degree and advances the cyclic cursor.
    ///
    /// The bound on the current degree only keeps the `i64` accumulator from
    /// overflowing; [`lemma_scale_bounds`] discharges it for any realistic
    /// number of calls.
    pub fn next(&mut self) -> (r: i64)
        requires
            old(self).wf(),
            old(self).degree() + STEP_MAX <= i64::MAX,
        ensures
            final(self).wf(),
            r == scale_spec(old(self).start(), old(self).pattern(), old(self).emitted()),
            r == old(self).degree(),
            final(self).start() == old(self).start(),
            final(self).pattern() == old(self).pattern(),
            final(self).emitted() == old(self).emitted() + 1,
    {
        let r = self.current;
        let step = self.intervals[self.idx];
        self.current = self.current + (step as i64);
        let len = self.intervals.len();
        proof {
            lemma_cursor_advance(
                self.emitted@ as int,
                self.intervals@.len() as int,
                self.idx as int,
            );
        }
        self.idx = self.idx + 1;
        if self.idx == len {
            self.idx = 0;
        }
        self.emitted = Ghost(self.emitted@ + 1);
        r
    }

    /// Restartability: a generator's next degree is a function of its start,
    /// its pattern and how far it has run — two generators built alike and
    /// stepped alike always agree.
    pub proof fn lemma_restartable(g1: &ScaleGen, g2: &ScaleGen)
        requires
            g1.wf(),
            g2.wf(),
            g1.start() == g2.start(),
            g1.pattern() == g2.pattern(),
            g1.emitted() == g2.emitted(),
        ensures
            g1.degree() == g2.degree(),
    {
    }
}

/// The first `count` degrees of the scale as a vector, for assigning pitches
/// to a fresh set of balls in index order.
pub fn scale_values(start: i64, intervals: &Vec<u8>, count: usize) -> (r: Vec<i64>)
    requires
        intervals_wf(intervals@),
        -START_BOUND <= start <= START_BOUND,
        count <= 1000,
    ensures
        r@.len() == count,
        forall|n: int| 0 <= n < count ==> #[trigger] r@[n] == scale_spec(
            start as int,
            pattern_of(intervals@),
            n as nat,
        ),
{
    let mut out: Vec<i64> = Vec::new();
    let mut cur: i64 = start;
    let mut idx: usize = 0;
    let mut n: usize = 0;
    while n < count
        invariant
            intervals_wf(intervals@),
            -START_BOUND <= start <= START_BOUND,
            count <= 1000,
            n <= count,
            idx < intervals@.len(),
            (idx as int) == (n as int) % (intervals@.len() as int),
            cur == scale_spec(start as int, pattern_of(intervals@), n as nat),
            out@.len() == n,
            forall|k: int| 0 <= k < n ==> #[trigger] out@[k] == scale_spec(
                start as int,
                pattern_of(intervals@),
                k as nat,
            ),
        decreases count - n,
    {
        proof {
            lemma_scale_bounds(start as int, pattern_of(intervals@), n as nat);
        }
        out.push(cur);
        let len = intervals.len();
        let step = intervals[idx];
        cur = cur + (step as i64);
        proof {
            lemma_cursor_advance(n as int, intervals@.len() as int, idx as int);
        }
        idx = idx + 1;
        if idx == len {
            idx = 0;
        }
        n = n + 1;
    }
    out
}

} // verus!
