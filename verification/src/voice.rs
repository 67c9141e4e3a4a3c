//! Voice bank: one fundamental with stacked harmonic partials, combined
//! with noise modulation, per-voice amplitude, and an intra-frame feedback
//! coupling.
//!
//! Per frame, each partial's oscillator is rendered with a phase offset of
//! `modulation_signal * scale + feedback`, where the feedback term is the
//! running accumulation of the earlier partials in this frame, divided by
//! the partial's one-based index and scaled by the feedback depth. Each
//! partial's output is weighted, scaled by the voice amplitude, and added
//! to the running sum.

use vstd::prelude::*;

verus! {

use crate::fixed::{
    tdiv,
    q16_mul,
    lemma_tdiv_bound,
    lemma_q16_mul_bound,
    lemma_q16_mul_zero,
    div_trunc,
    mul_q16,
};
use crate::noise::NoiseModulator;
use crate::osc::{Oscillator, osc_modulus, table_lookup, lemma_table_at_range};
use crate::table::Wavetable;

/// Frequency ratio of harmonic partial `j` to the fundamental.
pub open spec fn ratio(j: int) -> int {
    if j == 0 {
        1
    } else if j == 1 {
        3
    } else if j == 2 {
        5
    } else {
        7
    }
}

/// Fixed relative amplitude weight of harmonic partial `j` (Q16.16).
pub open spec fn weight(j: int) -> int {
    if j == 0 {
        65536
    } else if j == 1 {
        55706
    } else if j == 2 {
        47514
    } else {
        32768
    }
}

/// How far the noise signal swings the oscillator phase, in table cycles
/// per unit of modulation (Q16.16).
pub open spec fn mod_scale() -> int {
    262
}

/// The per-voice modulation signal: the noise level mapped from `[-1, 1]`
/// onto `[0, 1]` and scaled by the modulation depth.
pub open spec fn mod_signal(noise_val: int, mod_depth: int) -> int {
    q16_mul(tdiv(noise_val + 65536, 2), mod_depth)
}

/// The modulation signal stays in `[0, depth]`.
pub proof fn lemma_mod_signal_range(noise_val: int, mod_depth: int)
    requires
        -65536 <= noise_val <= 65536,
        0 <= mod_depth <= 65536,
    ensures
        0 <= mod_signal(noise_val, mod_depth) <= 65536,
        mod_depth == 0 ==> mod_signal(noise_val, mod_depth) == 0,
{
    crate::fixed::lemma_tdiv_nonneg(noise_val + 65536, 2);
    vstd::arithmetic::div_mod::lemma_div_is_ordered(noise_val + 65536, 131072, 2);
    let half = tdiv(noise_val + 65536, 2);
    assert(0 <= half <= 65536);
    lemma_q16_mul_bound(half, mod_depth, 65536);
    assert(0 <= half * mod_depth) by (nonlinear_arith)
        requires
            0 <= half,
            0 <= mod_depth,
    ;
    crate::fixed::lemma_tdiv_nonneg(half * mod_depth, 65536);
    if mod_depth == 0 {
        lemma_q16_mul_zero(half);
    }
}

/// The running partial accumulation of one voice frame, after the first
/// `j` partials: partial `k` is rendered at its advanced phase with offset
/// `modulation * scale + (accumulation so far) / (k + 1) * feedback`, then
/// weighted, amplified, and added.
pub open spec fn partial_fold(
    t: Seq<i64>,
    oscs: Seq<Oscillator>,
    fund: int,
    msig: int,
    fb: int,
    amp: int,
    j: int,
) -> int
    decreases j,
{
    if j <= 0 {
        0
    } else {
        let acc = partial_fold(t, oscs, fund, msig, fb, amp, j - 1);
        let osc = oscs[j - 1];
        let off = q16_mul(msig, mod_scale()) + q16_mul(tdiv(acc, j), fb);
        let ph = (osc.phase + fund * ratio(j - 1) * 2048) % osc_modulus(osc.samplerate as int);
        let s = table_lookup(t, ph, off, osc.samplerate as int);
        acc + q16_mul(q16_mul(s, amp), weight(j - 1))
    }
}

/// Each weighted, amplified partial contributes at most one unit, so the
/// accumulation after `j` partials is bounded by `j` units.
pub proof fn lemma_partial_fold_bound(
    t: Seq<i64>,
    oscs: Seq<Oscillator>,
    fund: int,
    msig: int,
    fb: int,
    amp: int,
    j: int,
)
    requires
        0 <= j <= oscs.len(),
        t.len() == 2048,
        forall|i: int| 0 <= i < 2048 ==> -65536 <= #[trigger] t[i] <= 65536,
        forall|i: int| 0 <= i < oscs.len() ==> (#[trigger] oscs[i]).wf(),
        0 <= amp <= 65536,
    ensures
        -j * 65536 <= partial_fold(t, oscs, fund, msig, fb, amp, j) <= j * 65536,
    decreases j,
{
    if j > 0 {
        lemma_partial_fold_bound(t, oscs, fund, msig, fb, amp, j - 1);
        let acc = partial_fold(t, oscs, fund, msig, fb, amp, j - 1);
        let osc = oscs[j - 1];
        let m = osc_modulus(osc.samplerate as int);
        let off = q16_mul(msig, mod_scale()) + q16_mul(tdiv(acc, j), fb);
        let ph = (osc.phase + fund * ratio(j - 1) * 2048) % m;
        assert(m > 0) by (nonlinear_arith)
            requires
                osc.samplerate > 0,
                m == 2048 * (osc.samplerate as int),
        ;
        let pos = (ph + crate::osc::offset_ticks(off, osc.samplerate as int)) % m;
        assert(0 <= pos < m);
        lemma_table_at_range(t, pos, osc.samplerate as int);
        let s = table_lookup(t, ph, off, osc.samplerate as int);
        lemma_q16_mul_bound(s, amp, 65536);
        lemma_q16_mul_bound(q16_mul(s, amp), weight(j - 1), 65536);
        assert((j - 1) * 65536 + 65536 == j * 65536) by (nonlinear_arith);
    }
}

/// One voice: its fundamental, one oscillator per harmonic partial, and
/// its private noise source.
pub struct Voice {
    pub fundamental: u32,
    pub samplerate: u32,
    pub partials: Vec<Oscillator>,
    pub noise: NoiseModulator,
}

/// The raw output of one voice frame, given the control scalars in force.
pub open spec fn voice_out_spec(v: Voice, t: Seq<i64>, amp: int, mod_depth: int, fb: int) -> int {
    partial_fold(
        t,
        v.partials@,
        v.fundamental as int,
        mod_signal(v.noise.out_spec(), mod_depth),
        fb,
        amp,
        4,
    )
}

/// How one render call moves a voice's state: the noise process steps
/// once and every partial's phase advances by its own frequency, all else
/// unchanged.
pub open spec fn voice_advanced(o: Voice, n: Voice) -> bool {
    &&& n.fundamental == o.fundamental
    &&& n.samplerate == o.samplerate
    &&& n.noise == o.noise.step_spec()
    &&& n.partials@.len() == 4
    &&& forall|j: int|
        0 <= j < 4 ==> (#[trigger] n.partials@[j]).phase as int == (o.partials@[j].phase
            + o.fundamental * ratio(j) * 2048) % osc_modulus(o.samplerate as int)
            && n.partials@[j].samplerate == o.samplerate
}

impl Voice {
    /// A usable voice: four partials sharing the voice's sample rate, the
    /// highest partial still below it.
    pub open spec fn wf(&self) -> bool {
        &&& self.partials@.len() == 4
        &&& forall|j: int|
            0 <= j < 4 ==> (#[trigger] self.partials@[j]).wf() && self.partials@[j].samplerate
                == self.samplerate
        &&& self.noise.wf()
        &&& 0 < self.fundamental
        &&& self.fundamental * 7 < self.samplerate
        &&& self.samplerate <= 1000000
    }

    /// A fresh voice, all partial phases at zero.
    pub fn new(fundamental: u32, samplerate: u32, seed: u64, noise_period: u32) -> (v: Voice)
        requires
            0 < samplerate <= 1000000,
            0 < fundamental,
            fundamental * 7 < samplerate,
            0 < noise_period <= 16777216,
        ensures
            v.wf(),
            v.fundamental == fundamental,
            v.samplerate == samplerate,
            forall|j: int| 0 <= j < 4 ==> (#[trigger] v.partials@[j]).phase == 0,
            v.noise.current == 0,
    {
        let mut partials: Vec<Oscillator> = Vec::new();
        let mut j: usize = 0;
        while j < 4
            invariant
                j <= 4,
                partials@.len() == j,
                0 < samplerate <= 1000000,
                forall|k: int|
                    0 <= k < j ==> (#[trigger] partials@[k]).wf() && partials@[k].samplerate
                        == samplerate && partials@[k].phase == 0,
            decreases 4 - j,
        {
            partials.push(Oscillator::new(samplerate));
            j = j + 1;
        }
        Voice {
            fundamental,
            samplerate,
            partials,
            noise: NoiseModulator::new(seed, noise_period),
        }
    }

    /// The partial ratio as an executable value.
    fn ratio_of(&self, j: usize) -> (r: u32)
        requires
            j < 4,
        ensures
            r == ratio(j as int),
    {
        if j == 0 {
            1
        } else if j == 1 {
            3
        } else if j == 2 {
            5
        } else {
            7
        }
    }

    /// The partial weight as an executable value.
    fn weight_of(&self, j: usize) -> (w: i64)
        requires
            j < 4,
        ensures
            w == weight(j as int),
            0 <= w <= 65536,
    {
        if j == 0 {
            65536
        } else if j == 1 {
            55706
        } else if j == 2 {
            47514
        } else {
            32768
        }
    }

    /// Render one frame of this voice: advance the noise process, derive
    /// the modulation signal, and fold the four partials with the
    /// intra-frame feedback coupling.
    pub fn render(&mut self, table: &Wavetable, amp: i64, mod_depth: i64, fb_depth: i64) -> (out:
        i64)
        requires
            old(self).wf(),
            table.wf(),
            0 <= amp <= 65536,
            0 <= mod_depth <= 65536,
            0 <= fb_depth <= 65536,
        ensures
            final(self).wf(),
            voice_advanced(*old(self), *final(self)),
            out == voice_out_spec(*old(self), table.samples@, amp as int, mod_depth as int,
                fb_depth as int),
            -262144 <= out <= 262144,
    {
        let ghost orig = *self;
        let nv: i64 = self.noise.next();
        proof {
            lemma_mod_signal_range(nv as int, mod_depth as int);
        }
        let msig: i64 = mul_q16(div_trunc(nv + 65536, 2), mod_depth);
        let mut acc: i64 = 0;
        let mut j: usize = 0;
        while j < 4
            invariant
                j <= 4,
                self.fundamental == orig.fundamental,
                self.samplerate == orig.samplerate,
                self.noise == orig.noise.step_spec(),
                orig.wf(),
                table.wf(),
                self.partials@.len() == 4,
                0 <= amp <= 65536,
                0 <= mod_depth <= 65536,
                0 <= fb_depth <= 65536,
                0 <= msig <= 65536,
                msig == mod_signal(orig.noise.out_spec(), mod_depth as int),
                forall|k: int| j <= k < 4 ==> self.partials@[k] == orig.partials@[k],
                forall|k: int|
                    0 <= k < j ==> (#[trigger] self.partials@[k]).wf() && self.partials@[k].phase
                        as int == (orig.partials@[k].phase + orig.fundamental * ratio(k) * 2048)
                        % osc_modulus(orig.samplerate as int) && self.partials@[k].samplerate
                        == orig.samplerate,
                acc == partial_fold(
                    table.samples@,
                    orig.partials@,
                    orig.fundamental as int,
                    msig as int,
                    fb_depth as int,
                    amp as int,
                    j as int,
                ),
                -(j as int) * 65536 <= acc <= (j as int) * 65536,
            decreases 4 - j,
        {
            proof {
                lemma_tdiv_bound(acc as int, j + 1);
                lemma_q16_mul_bound(tdiv(acc as int, j + 1), fb_depth as int, 196608);
                lemma_q16_mul_bound(msig as int, mod_scale(), 65536);
                assert((j as int) * 65536 <= 196608) by (nonlinear_arith)
                    requires
                        0 <= j < 4,
                ;
            }
            let fbterm: i64 = mul_q16(div_trunc(acc, (j as i64) + 1), fb_depth);
            let off: i64 = mul_q16(msig, 262) + fbterm;
            let freq: u32 = self.fundamental * self.ratio_of(j);
            proof {
                assert(0 < orig.fundamental * ratio(j as int) < orig.samplerate) by (
                nonlinear_arith)
                    requires
                        0 < orig.fundamental,
                        orig.fundamental * 7 < orig.samplerate,
                        1 <= ratio(j as int) <= 7,
                ;
            }
            proof {
                assert(self.partials@[j as int] == orig.partials@[j as int]);
                assert((#[trigger] orig.partials@[j as int]).wf());
            }
            let s: i64 = self.partials[j].render(table, freq, off);
            let w: i64 = self.weight_of(j);
            proof {
                lemma_q16_mul_bound(s as int, amp as int, 65536);
                lemma_q16_mul_bound(q16_mul(s as int, amp as int), w as int, 65536);
                assert((j as int) * 65536 + 65536 == (j + 1) as int * 65536) by (nonlinear_arith);
            }
            let term: i64 = mul_q16(mul_q16(s, amp), w);
            acc = acc + term;
            j = j + 1;
        }
        proof {
            lemma_partial_fold_bound(
                table.samples@,
                orig.partials@,
                orig.fundamental as int,
                msig as int,
                fb_depth as int,
                amp as int,
                4,
            );
        }
        acc
    }
}

/// Degenerate-mode equivalence: with modulation depth zero and feedback
/// depth zero, every phase offset vanishes, and the voice output is the
/// plain sum of the unmodulated partials, scaled by their weights and the
/// voice amplitude.
pub open spec fn plain_partial_sum(
    t: Seq<i64>,
    oscs: Seq<Oscillator>,
    fund: int,
    amp: int,
    j: int,
) -> int
    decreases j,
{
    if j <= 0 {
        0
    } else {
        let osc = oscs[j - 1];
        let ph = (osc.phase + fund * ratio(j - 1) * 2048) % osc_modulus(osc.samplerate as int);
        let s = table_lookup(t, ph, 0, osc.samplerate as int);
        plain_partial_sum(t, oscs, fund, amp, j - 1) + q16_mul(q16_mul(s, amp), weight(j - 1))
    }
}

/// With both depths at zero the feedback-coupled fold collapses to the
/// plain weighted sum.
pub proof fn lemma_degenerate_fold(t: Seq<i64>, oscs: Seq<Oscillator>, fund: int, amp: int, j: int)
    ensures
        partial_fold(t, oscs, fund, 0, 0, amp, j) == plain_partial_sum(t, oscs, fund, amp, j),
    decreases j,
{
    if j > 0 {
        lemma_degenerate_fold(t, oscs, fund, amp, j - 1);
        let acc = partial_fold(t, oscs, fund, 0, 0, amp, j - 1);
        lemma_q16_mul_zero(mod_scale());
        lemma_q16_mul_zero(tdiv(acc, j));
        assert(q16_mul(0, mod_scale()) + q16_mul(tdiv(acc, j), 0) == 0);
    }
}

/// With amplitude zero a voice is silent: every partial contribution is
/// scaled to nothing, whatever the depths or the oscillator activity.
pub proof fn lemma_silent_fold(
    t: Seq<i64>,
    oscs: Seq<Oscillator>,
    fund: int,
    msig: int,
    fb: int,
    j: int,
)
    ensures
        partial_fold(t, oscs, fund, msig, fb, 0, j) == 0,
    decreases j,
{
    if j > 0 {
        lemma_silent_fold(t, oscs, fund, msig, fb, j - 1);
        let osc = oscs[j - 1];
        let off = q16_mul(msig, mod_scale()) + q16_mul(tdiv(0, j), fb);
        let ph = (osc.phase + fund * ratio(j - 1) * 2048) % osc_modulus(osc.samplerate as int);
        let s = table_lookup(t, ph, off, osc.samplerate as int);
        lemma_q16_mul_zero(s);
        lemma_q16_mul_zero(q16_mul(s, 0));
        assert(q16_mul(q16_mul(s, 0), weight(j - 1)) == 0);
    }
}

} // verus!
