//! Low-frequency noise modulator: a smoothed per-voice random process.
//!
//! A xorshift generator picks a new target level once per period; between
//! picks the output ramps linearly from the previous level to the target.
//! Every output lies in `[-1, 1]` (fixed point), and each voice owns an
//! independently seeded instance so partials receive decorrelated
//! modulation.

use vstd::prelude::*;

verus! {

use crate::fixed::{tdiv, div_trunc};
use crate::osc::lemma_interp_range;

/// One xorshift step of the underlying pseudo-random state.
pub open spec fn xorshift(s: u64) -> u64 {
    let a = s ^ (s << 13);
    let b = a ^ (a >> 7);
    b ^ (b << 17)
}

/// A raw level drawn from a state, mapped into `[-1, 1]` fixed point.
pub open spec fn level_of(s: u64) -> int {
    (s % 131073) - 65536
}

/// The smoothed noise source of one voice.
pub struct NoiseModulator {
    pub state: u64,
    pub current: i64,
    pub target: i64,
    pub counter: u32,
    pub period: u32,
}

impl NoiseModulator {
    /// A usable modulator: positive period, ramp position inside it, both
    /// levels within `[-1, 1]`.
    pub open spec fn wf(&self) -> bool {
        &&& 0 < self.period <= 16777216
        &&& self.counter < self.period
        &&& -65536 <= self.current <= 65536
        &&& -65536 <= self.target <= 65536
    }

    /// The state one `next` call leaves behind.
    pub open spec fn step_spec(&self) -> NoiseModulator {
        if self.counter + 1 >= self.period {
            NoiseModulator {
                state: xorshift(self.state),
                current: self.target,
                target: level_of(xorshift(self.state)) as i64,
                counter: 0,
                period: self.period,
            }
        } else {
            NoiseModulator {
                state: self.state,
                current: self.current,
                target: self.target,
                counter: (self.counter + 1) as u32,
                period: self.period,
            }
        }
    }

    /// The value a `next` call returns: the post-step ramp position,
    /// interpolated between the current level and the target.
    pub open spec fn out_spec(&self) -> int {
        let n = self.step_spec();
        n.current + tdiv((n.target - n.current) * n.counter, n.period as int)
    }

    /// A fresh modulator at level zero.
    pub fn new(seed: u64, period: u32) -> (m: NoiseModulator)
        requires
            0 < period <= 16777216,
        ensures
            m.wf(),
            m.current == 0,
            m.period == period,
    {
        NoiseModulator { state: seed, current: 0, target: 0, counter: 0, period }
    }

    /// Advance the process one sample and return the smoothed level.
    pub fn next(&mut self) -> (v: i64)
        requires
            old(self).wf(),
        ensures
            final(self).wf(),
            *final(self) == old(self).step_spec(),
            v == old(self).out_spec(),
            -65536 <= v <= 65536,
    {
        if self.counter + 1 >= self.period {
            self.counter = 0;
            self.current = self.target;
            let s = self.xorshift_step();
            self.state = s;
            self.target = (s % 131073) as i64 - 65536;
        } else {
            self.counter = self.counter + 1;
        }
        let diff: i64 = self.target - self.current;
        proof {
            assert(diff * (self.counter as int) <= 131072 * 16777216) by (nonlinear_arith)
                requires
                    -131072 <= diff <= 131072,
                    0 <= self.counter <= 16777216,
            ;
            assert(diff * (self.counter as int) >= -(131072 * 16777216)) by (nonlinear_arith)
                requires
                    -131072 <= diff <= 131072,
                    0 <= self.counter <= 16777216,
            ;
            lemma_interp_range(
                self.current as int,
                self.target as int,
                self.counter as int,
                self.period as int,
            );
        }
        let ramp: i64 = div_trunc(diff * (self.counter as i64), self.period as i64);
        self.current + ramp
    }

    /// One exec xorshift step, matching `xorshift` exactly.
    fn xorshift_step(&self) -> (s: u64)
        ensures
            s == xorshift(self.state),
    {
        let a: u64 = self.state ^ (self.state << 13u64);
        let b: u64 = a ^ (a >> 7u64);
        b ^ (b << 17u64)
    }
}

} // verus!
