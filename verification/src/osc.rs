//! Wavetable oscillator: a phase accumulator over the shared table.
//!
//! The phase is kept as an exact integer count of "ticks", `samplerate`
//! ticks per table slot, so the accumulator holds `table_len * samplerate`
//! ticks per cycle and wraps losslessly. One call advances the phase by
//! `frequency / samplerate` table lengths, offsets it by a phase-modulation
//! term, and returns the linearly interpolated table sample there.

use vstd::prelude::*;

verus! {

use vstd::arithmetic::div_mod::*;
use crate::fixed::{tdiv, lemma_tdiv_nonneg, div_trunc};
use crate::table::Wavetable;

/// Ticks per full table cycle at sample rate `sr`.
pub open spec fn osc_modulus(sr: int) -> int {
    2048 * sr
}

/// A phase-modulation offset, given in table cycles (Q16.16), converted to
/// phase ticks.
pub open spec fn offset_ticks(offset: int, sr: int) -> int {
    tdiv(offset * (2048 * sr), 65536)
}

/// The table position (in ticks) that a lookup reads: accumulator phase
/// plus modulation offset, wrapped around the cycle.
pub open spec fn lookup_pos(phase: int, offset: int, sr: int) -> int {
    (phase + offset_ticks(offset, sr)) % (2048 * sr)
}

/// Linear interpolation of the table at a tick position: slot `pos / sr`,
/// blended toward the next slot by the fractional remainder.
pub open spec fn table_at(t: Seq<i64>, pos: int, sr: int) -> int {
    let idx = pos / sr;
    let frac = pos % sr;
    let a = t[idx];
    let b = t[if idx == 2047 { 0int } else { idx + 1 }];
    a + tdiv((b - a) * frac, sr)
}

/// The sample an oscillator lookup produces for a given (pre-advanced)
/// phase and modulation offset.
pub open spec fn table_lookup(t: Seq<i64>, phase: int, offset: int, sr: int) -> int {
    table_at(t, lookup_pos(phase, offset, sr), sr)
}

/// Interpolating between two values stays between them.
pub proof fn lemma_interp_range(a: int, b: int, frac: int, d: int)
    requires
        0 <= frac < d,
    ensures
        a <= b ==> a <= a + tdiv((b - a) * frac, d) <= b,
        b < a ==> b <= a + tdiv((b - a) * frac, d) <= a,
{
    if a <= b {
        assert(0 <= (b - a) * frac <= (b - a) * d) by (nonlinear_arith)
            requires
                0 <= frac < d,
                a <= b,
        ;
        lemma_tdiv_nonneg((b - a) * frac, d);
        lemma_div_is_ordered((b - a) * frac, (b - a) * d, d);
        lemma_div_by_multiple(b - a, d);
    } else {
        assert(0 <= (a - b) * frac <= (a - b) * d) by (nonlinear_arith)
            requires
                0 <= frac < d,
                b < a,
        ;
        lemma_tdiv_nonneg((a - b) * frac, d);
        lemma_div_is_ordered((a - b) * frac, (a - b) * d, d);
        lemma_div_by_multiple(a - b, d);
        assert((b - a) * frac == -((a - b) * frac)) by (nonlinear_arith);
    }
}

/// An interpolated lookup of a well-formed table stays within `[-1, 1]`.
pub proof fn lemma_table_at_range(t: Seq<i64>, pos: int, sr: int)
    requires
        sr > 0,
        0 <= pos < 2048 * sr,
        t.len() == 2048,
        forall|i: int| 0 <= i < 2048 ==> -65536 <= #[trigger] t[i] <= 65536,
    ensures
        -65536 <= table_at(t, pos, sr) <= 65536,
        0 <= pos / sr < 2048,
{
    lemma_div_pos_is_pos(pos, sr);
    lemma_multiply_divide_lt(pos, sr, 2048);
    lemma_mod_division_less_than_divisor(pos, sr);
    let idx = pos / sr;
    let a = t[idx];
    let b = t[if idx == 2047 { 0int } else { idx + 1 }];
    lemma_interp_range(a as int, b as int, pos % sr, sr);
}

/// One oscillator: the phase accumulator and its fixed sample rate.
pub struct Oscillator {
    pub phase: u64,
    pub samplerate: u32,
}

impl Oscillator {
    /// A usable oscillator: positive bounded sample rate, phase within one
    /// table cycle.
    pub open spec fn wf(&self) -> bool {
        &&& 0 < self.samplerate <= 1000000
        &&& (self.phase as int) < osc_modulus(self.samplerate as int)
    }

    /// A fresh oscillator starting at phase zero.
    pub fn new(samplerate: u32) -> (o: Oscillator)
        requires
            0 < samplerate <= 1000000,
        ensures
            o.wf(),
            o.phase == 0,
            o.samplerate == samplerate,
    {
        proof {
            assert(0 < 2048 * (samplerate as int)) by (nonlinear_arith)
                requires
                    samplerate > 0,
            ;
        }
        Oscillator { phase: 0, samplerate }
    }

    /// Advance the phase by `freq / samplerate` table lengths, apply the
    /// phase-modulation `offset` (table cycles, Q16.16), and return the
    /// interpolated table sample at the resulting position.
    pub fn render(&mut self, table: &Wavetable, freq: u32, offset: i64) -> (s: i64)
        requires
            old(self).wf(),
            table.wf(),
            0 < freq < old(self).samplerate,
            -1048576 <= offset <= 1048576,
        ensures
            final(self).wf(),
            final(self).samplerate == old(self).samplerate,
            final(self).phase as int == (old(self).phase + freq * 2048) % osc_modulus(
                old(self).samplerate as int,
            ),
            s == table_lookup(
                table.samples@,
                final(self).phase as int,
                offset as int,
                old(self).samplerate as int,
            ),
            -65536 <= s <= 65536,
    {
        let sr64: u64 = self.samplerate as u64;
        let m: u64 = 2048 * sr64;
        let step: u64 = (freq as u64) * 2048;
        proof {
            assert((freq as int) * 2048 < 2048 * (self.samplerate as int)) by (nonlinear_arith)
                requires
                    freq < self.samplerate,
            ;
            lemma_mod_division_less_than_divisor((old(self).phase + freq * 2048) as int, m as int);
            lemma_div_pos_is_pos((old(self).phase + freq * 2048) as int, m as int);
        }
        self.phase = (self.phase + step) % m;

        // Convert the cycle-fraction offset to ticks and wrap the sum.
        let pos: u64 = if offset >= 0 {
            proof {
                assert((offset as int) * (m as int) <= 1048576 * 2147483648) by (nonlinear_arith)
                    requires
                        0 <= offset <= 1048576,
                        0 <= m <= 2147483648,
                ;
            }
            let tick_mag: u64 = ((offset as u64) * m) / 65536;
            proof {
                lemma_tdiv_nonneg(offset * (2048 * (self.samplerate as int)), 65536);
                lemma_mod_division_less_than_divisor(tick_mag as int, m as int);
                lemma_div_pos_is_pos(tick_mag as int, m as int);
                lemma_add_mod_noop_right(
                    self.phase as int,
                    tick_mag as int,
                    m as int,
                );
                lemma_mod_division_less_than_divisor(
                    (self.phase + (tick_mag as int) % (m as int)) as int,
                    m as int,
                );
            }
            (self.phase + tick_mag % m) % m
        } else {
            let neg: i64 = -offset;
            proof {
                assert((neg as int) * (m as int) <= 1048576 * 2147483648) by (nonlinear_arith)
                    requires
                        0 <= neg <= 1048576,
                        0 <= m <= 2147483648,
                ;
            }
            let tick_mag: u64 = ((neg as u64) * m) / 65536;
            let tm: u64 = tick_mag % m;
            proof {
                let mi = m as int;
                lemma_tdiv_nonneg((neg as int) * (2048 * (self.samplerate as int)), 65536);
                assert(offset * (2048 * (self.samplerate as int)) == -(
                (neg as int) * (2048 * (self.samplerate as int)))) by (nonlinear_arith)
                    requires
                        neg == -offset,
                ;
                lemma_mod_division_less_than_divisor(tick_mag as int, mi);
                // (phase + (m - tm)) % m == (phase - tick_mag) % m
                lemma_sub_mod_noop_right(self.phase as int, tick_mag as int, mi);
                lemma_mod_add_multiples_vanish(self.phase - tm, mi);
                lemma_mod_division_less_than_divisor((self.phase + (mi - tm)) as int, mi);
            }
            (self.phase + (m - tm)) % m
        };
        proof {
            lemma_table_at_range(
                table.samples@,
                pos as int,
                self.samplerate as int,
            );
        }
        let idx: usize = (pos / sr64) as usize;
        let frac: u64 = pos % sr64;
        let a: i64 = self.table_get(table, idx);
        let nxt: usize = if idx == 2047 {
            0
        } else {
            idx + 1
        };
        let b: i64 = self.table_get(table, nxt);
        proof {
            assert((b - a) * (frac as int) < 9223372036854775807) by (nonlinear_arith)
                requires
                    -131072 <= b - a <= 131072,
                    0 <= frac <= 1000000,
            ;
            assert((b - a) * (frac as int) > -9223372036854775807) by (nonlinear_arith)
                requires
                    -131072 <= b - a <= 131072,
                    0 <= frac <= 1000000,
            ;
            lemma_interp_range(a as int, b as int, frac as int, self.samplerate as int);
        }
        let blend: i64 = div_trunc((b - a) * (frac as i64), self.samplerate as i64);
        a + blend
    }

    /// Read one table slot.
    fn table_get(&self, table: &Wavetable, i: usize) -> (v: i64)
        requires
            table.wf(),
            i < 2048,
        ensures
            v == table.samples@[i as int],
            -65536 <= v <= 65536,
    {
        table.samples[i]
    }
}

/// The phase an accumulator holds after `n` advances of `step` ticks,
/// starting from `start`, wrapped at `m`.
pub open spec fn phase_after(start: int, step: int, m: int, n: nat) -> int
    decreases n,
{
    if n == 0 {
        start
    } else {
        (phase_after(start, step, m, (n - 1) as nat) + step) % m
    }
}

/// Repeated wrapped advance equals one wrapped linear advance.
pub proof fn lemma_phase_after_linear(start: int, step: int, m: int, n: nat)
    requires
        m > 0,
        0 <= start < m,
        step >= 0,
    ensures
        phase_after(start, step, m, n) == (start + n * step) % m,
    decreases n,
{
    if n == 0 {
        lemma_small_mod(start as nat, m as nat);
        assert(n * step == 0) by (nonlinear_arith)
            requires
                n == 0,
        ;
    } else {
        let k = (n - 1) as nat;
        lemma_phase_after_linear(start, step, m, k);
        let prev = phase_after(start, step, m, k);
        assert(phase_after(start, step, m, n) == (prev + step) % m);
        assert(prev == (start + k * step) % m);
        lemma_add_mod_noop_right(step, start + k * step, m);
        assert((step + (start + k * step) % m) % m == (step + (start + k * step)) % m);
        assert(step + (start + k * step) == start + n * step) by (nonlinear_arith)
            requires
                k == n - 1,
        ;
    }
}

/// Lossless wrap: when the advance frequency divides the sample rate, the
/// accumulator returns exactly to its starting phase after
/// `samplerate / freq` calls (one full waveform period).
pub proof fn lemma_phase_wraps(start: int, freq: int, sr: int, n: nat)
    requires
        0 < freq < sr,
        0 <= start < 2048 * sr,
        n * freq == sr,
    ensures
        phase_after(start, freq * 2048, 2048 * sr, n) == start,
{
    let m = 2048 * sr;
    lemma_phase_after_linear(start, freq * 2048, m, n);
    assert(n * (freq * 2048) == 2048 * sr) by (nonlinear_arith)
        requires
            n * freq == sr,
    ;
    lemma_mod_add_multiples_vanish(start, m);
    lemma_small_mod(start as nat, m as nat);
}

} // verus!
