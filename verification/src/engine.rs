//! The engine: the full voice bank, the shared wavetable, the control
//! bridge, and the running flag, rendered one frame at a time.
//!
//! Per frame the engine polls every control channel (last-write-wins,
//! falling back to each channel's cached value), renders and sums all
//! voices, soft-clips the mix, and replicates the clipped sample into
//! every output channel.

use vstd::prelude::*;

verus! {

use crate::bridge::{ControlBridge, ControlChannel, ControlError};
use crate::clip::{soft_clip, soft_clip_spec, lemma_soft_clip_bounded};
use crate::table::Wavetable;
use crate::voice::{Voice, voice_out_spec, voice_advanced, lemma_silent_fold, mod_signal};

/// The sum of the first `i` voices' frame outputs, each rendered with its
/// own polled amplitude and the polled global depths.
pub open spec fn voices_raw(
    voices: Seq<Voice>,
    amps: Seq<ControlChannel>,
    t: Seq<i64>,
    md: int,
    fb: int,
    i: int,
) -> int
    decreases i,
{
    if i <= 0 {
        0
    } else {
        voices_raw(voices, amps, t, md, fb, i - 1) + voice_out_spec(
            voices[i - 1],
            t,
            amps[i - 1].latest(),
            md,
            fb,
        )
    }
}

/// When every amplitude channel will poll to zero, the whole bank is
/// silent, whatever the depths and however the oscillators move.
pub proof fn lemma_voices_raw_silent(
    voices: Seq<Voice>,
    amps: Seq<ControlChannel>,
    t: Seq<i64>,
    md: int,
    fb: int,
    i: int,
)
    requires
        i <= amps.len(),
        forall|k: int| 0 <= k < amps.len() ==> (#[trigger] amps[k]).latest() == 0,
    ensures
        voices_raw(voices, amps, t, md, fb, i) == 0,
    decreases i,
{
    if i > 0 {
        lemma_voices_raw_silent(voices, amps, t, md, fb, i - 1);
        let v = voices[i - 1];
        lemma_silent_fold(
            t,
            v.partials@,
            v.fundamental as int,
            mod_signal(v.noise.out_spec(), md),
            fb,
            4,
        );
    }
}

/// End-to-end degenerate mode: when both global depths poll to zero, a
/// single-voice engine's raw mix is the plain weighted sum of that
/// voice's unmodulated partials — so each output frame carries exactly
/// the soft-clipped plain oscillator output.
pub proof fn lemma_degenerate_engine_raw(e: Engine)
    requires
        e.wf(),
        e.voices@.len() == 1,
        e.bridge.modulation.latest() == 0,
        e.bridge.feedback.latest() == 0,
    ensures
        engine_raw_spec(e) == crate::voice::plain_partial_sum(
            e.table.samples@,
            e.voices@[0].partials@,
            e.voices@[0].fundamental as int,
            e.bridge.amps@[0].latest(),
            4,
        ),
{
    let v = e.voices@[0];
    let t = e.table.samples@;
    let amp = e.bridge.amps@[0].latest();
    let nout = v.noise.out_spec();
    crate::fixed::lemma_q16_mul_zero(crate::fixed::tdiv(nout + 65536, 2));
    assert(mod_signal(nout, 0) == 0);
    assert(voices_raw(e.voices@, e.bridge.amps@, t, 0, 0, 0) == 0);
    assert(engine_raw_spec(e) == voice_out_spec(v, t, amp, 0, 0));
    assert(voice_out_spec(v, t, amp, 0, 0) == crate::voice::partial_fold(
        t,
        v.partials@,
        v.fundamental as int,
        0,
        0,
        amp,
        4,
    ));
    crate::voice::lemma_degenerate_fold(
        e.table.samples@,
        v.partials@,
        v.fundamental as int,
        e.bridge.amps@[0].latest(),
        4,
    );
}

/// The complete synthesis engine.
pub struct Engine {
    pub voices: Vec<Voice>,
    pub table: Wavetable,
    pub bridge: ControlBridge,
    pub samplerate: u32,
    pub running: bool,
}

/// The raw (pre-clip) mixed sample the next frame will produce from a
/// given engine state.
pub open spec fn engine_raw_spec(e: Engine) -> int {
    voices_raw(
        e.voices@,
        e.bridge.amps@,
        e.table.samples@,
        e.bridge.modulation.latest(),
        e.bridge.feedback.latest(),
        e.voices@.len() as int,
    )
}

/// No amplitude will reach the bank on the next poll: every amplitude
/// channel is cached at zero with nothing pending.
pub open spec fn amps_silent(e: Engine) -> bool {
    forall|i: int| 0 <= i < e.bridge.amps@.len() ==> (#[trigger] e.bridge.amps@[i]).latest() == 0
}

/// How one frame moves the engine's state: every control channel is
/// drained, its cache now holding the most recently sent value (or the
/// old cache when none was pending), every voice advances exactly one
/// frame, and everything else holds still.
pub open spec fn engine_advanced(o: Engine, n: Engine) -> bool {
    &&& n.running == o.running
    &&& n.samplerate == o.samplerate
    &&& n.table.samples@ == o.table.samples@
    &&& n.voices@.len() == o.voices@.len()
    &&& n.bridge.amps@.len() == o.bridge.amps@.len()
    &&& forall|i: int|
        0 <= i < o.bridge.amps@.len() ==> (#[trigger] n.bridge.amps@[i]).cached
            == o.bridge.amps@[i].latest() && n.bridge.amps@[i].pending@.len() == 0
            && n.bridge.amps@[i].connected == o.bridge.amps@[i].connected
    &&& n.bridge.modulation.cached == o.bridge.modulation.latest()
    &&& n.bridge.modulation.pending@.len() == 0
    &&& n.bridge.modulation.connected == o.bridge.modulation.connected
    &&& n.bridge.fm.cached == o.bridge.fm.latest()
    &&& n.bridge.fm.pending@.len() == 0
    &&& n.bridge.fm.connected == o.bridge.fm.connected
    &&& n.bridge.feedback.cached == o.bridge.feedback.latest()
    &&& n.bridge.feedback.pending@.len() == 0
    &&& n.bridge.feedback.connected == o.bridge.feedback.connected
    &&& forall|i: int|
        0 <= i < o.voices@.len() ==> voice_advanced(o.voices@[i], #[trigger] n.voices@[i])
}

/// A frame-by-frame trace: `states` walks the engine from `start` to
/// `end`, one advance per frame, and every channel of frame `f` in `out`
/// carries the soft-clipped raw mix of the state the frame started from.
pub open spec fn render_trace(
    states: Seq<Engine>,
    start: Engine,
    end: Engine,
    frames: int,
    channels: int,
    out: Seq<i64>,
) -> bool {
    &&& states.len() == frames + 1
    &&& states[0] == start
    &&& states[frames] == end
    &&& forall|f: int| 0 <= f < frames ==> engine_advanced(#[trigger] states[f], states[f + 1])
    &&& forall|f: int, c: int|
        0 <= f < frames && 0 <= c < channels ==> #[trigger] out[f * channels + c]
            == soft_clip_spec(engine_raw_spec(states[f]))
}

impl Engine {
    /// A usable engine: well-formed table, bridge and voices, one
    /// amplitude channel per voice, every voice at the engine's rate.
    pub open spec fn wf(&self) -> bool {
        &&& self.table.wf()
        &&& self.bridge.wf()
        &&& 1 <= self.voices@.len() <= 16
        &&& self.bridge.amps@.len() == self.voices@.len()
        &&& forall|i: int|
            0 <= i < self.voices@.len() ==> (#[trigger] self.voices@[i]).wf()
                && self.voices@[i].samplerate == self.samplerate
    }

    /// Build the engine: the shared triangle table, `num_voices` voices at
    /// fundamentals of 45 Hz per step, decorrelated noise sources, and a
    /// zeroed control bridge. Every parameter stays at zero until the
    /// foreground sends a value.
    pub fn new(num_voices: usize, samplerate: u32, seed: u64) -> (e: Engine)
        requires
            1 <= num_voices <= 16,
            5040 < samplerate <= 1000000,
        ensures
            e.wf(),
            e.running,
            e.samplerate == samplerate,
            e.voices@.len() == num_voices,
            amps_silent(e),
            forall|i: int| 0 <= i < num_voices ==> (#[trigger] e.bridge.amps@[i]).connected,
            e.bridge.modulation.latest() == 0,
            e.bridge.modulation.connected,
            e.bridge.fm.latest() == 0,
            e.bridge.fm.connected,
            e.bridge.feedback.latest() == 0,
            e.bridge.feedback.connected,
            forall|i: int|
                0 <= i < num_voices ==> (#[trigger] e.voices@[i]).fundamental == 45 * (i + 1)
                    && e.voices@[i].noise.current == 0 && (forall|j: int|
                    0 <= j < 4 ==> (#[trigger] e.voices@[i].partials@[j]).phase == 0),
    {
        let table = Wavetable::triangle();
        let bridge = ControlBridge::new(num_voices);
        let mut voices: Vec<Voice> = Vec::new();
        let mut i: usize = 0;
        while i < num_voices
            invariant
                i <= num_voices,
                num_voices <= 16,
                5040 < samplerate <= 1000000,
                voices@.len() == i,
                forall|k: int|
                    0 <= k < i ==> (#[trigger] voices@[k]).wf() && voices@[k].samplerate
                        == samplerate && voices@[k].fundamental == 45 * (k + 1)
                        && voices@[k].noise.current == 0 && (forall|j: int|
                        0 <= j < 4 ==> (#[trigger] voices@[k].partials@[j]).phase == 0),
            decreases num_voices - i,
        {
            let fundamental: u32 = 45 * ((i as u32) + 1);
            proof {
                assert(fundamental * 7 <= 5040) by (nonlinear_arith)
                    requires
                        fundamental == 45 * (i + 1),
                        i < 16,
                ;
            }
            let vseed: u64 = seed ^ ((i as u64) * 2654435769);
            voices.push(Voice::new(fundamental, samplerate, vseed, 12 * samplerate));
            i = i + 1;
        }
        Engine { voices, table, bridge, samplerate, running: true }
    }

    /// Render one raw mixed sample: poll every control channel, render
    /// every voice with the freshly cached values, and sum.
    pub fn mix_sample(&mut self) -> (raw: i64)
        requires
            old(self).wf(),
        ensures
            final(self).wf(),
            raw == engine_raw_spec(*old(self)),
            -4194304 <= raw <= 4194304,
            engine_advanced(*old(self), *final(self)),
            // an engine whose amplitudes were never set stays silent
            amps_silent(*old(self)) ==> raw == 0 && amps_silent(*final(self)),
    {
        let ghost orig = *self;
        let _ = self.bridge.modulation.poll_latest();
        let _ = self.bridge.fm.poll_latest();
        let _ = self.bridge.feedback.poll_latest();
        let md: i64 = self.bridge.modulation.current();
        let fb: i64 = self.bridge.feedback.current();
        let n: usize = self.voices.len();
        let mut sum: i64 = 0;
        let mut i: usize = 0;
        while i < n
            invariant
                i <= n,
                n == orig.voices@.len(),
                orig.wf(),
                self.table == orig.table,
                self.samplerate == orig.samplerate,
                self.running == orig.running,
                self.voices@.len() == n,
                self.bridge.amps@.len() == n,
                md == orig.bridge.modulation.latest(),
                fb == orig.bridge.feedback.latest(),
                0 <= md <= 65536,
                0 <= fb <= 65536,
                self.bridge.modulation.cached == orig.bridge.modulation.latest(),
                self.bridge.modulation.pending@.len() == 0,
                self.bridge.modulation.connected == orig.bridge.modulation.connected,
                self.bridge.modulation.wf(),
                self.bridge.fm.cached == orig.bridge.fm.latest(),
                self.bridge.fm.pending@.len() == 0,
                self.bridge.fm.connected == orig.bridge.fm.connected,
                self.bridge.fm.wf(),
                self.bridge.feedback.cached == orig.bridge.feedback.latest(),
                self.bridge.feedback.pending@.len() == 0,
                self.bridge.feedback.connected == orig.bridge.feedback.connected,
                self.bridge.feedback.wf(),
                forall|k: int| i <= k < n ==> self.bridge.amps@[k] == orig.bridge.amps@[k],
                forall|k: int|
                    0 <= k < i ==> (#[trigger] self.bridge.amps@[k]).cached
                        == orig.bridge.amps@[k].latest() && self.bridge.amps@[k].pending@.len()
                        == 0 && self.bridge.amps@[k].connected == orig.bridge.amps@[k].connected
                        && self.bridge.amps@[k].wf(),
                forall|k: int| i <= k < n ==> self.voices@[k] == orig.voices@[k],
                forall|k: int|
                    0 <= k < i ==> (#[trigger] self.voices@[k]).wf() && voice_advanced(
                        orig.voices@[k],
                        self.voices@[k],
                    ) && self.voices@[k].samplerate == orig.samplerate,
                sum == voices_raw(
                    orig.voices@,
                    orig.bridge.amps@,
                    orig.table.samples@,
                    md as int,
                    fb as int,
                    i as int,
                ),
                -(i as int) * 262144 <= sum <= (i as int) * 262144,
            decreases n - i,
        {
            proof {
                assert(self.bridge.amps@[i as int] == orig.bridge.amps@[i as int]);
                assert((#[trigger] orig.bridge.amps@[i as int]).wf());
                assert(self.voices@[i as int] == orig.voices@[i as int]);
                assert((#[trigger] orig.voices@[i as int]).wf());
            }
            let _ = self.bridge.amps[i].poll_latest();
            let a: i64 = self.bridge.amps[i].current();
            let out: i64 = self.voices[i].render(&self.table, a, md, fb);
            proof {
                assert((i as int) * 262144 + 262144 == ((i + 1) as int) * 262144) by (
                nonlinear_arith);
                assert((i as int) * 262144 <= 16 * 262144) by (nonlinear_arith)
                    requires
                        0 <= i <= 16,
                ;
            }
            sum = sum + out;
            i = i + 1;
        }
        proof {
            assert((n as int) * 262144 <= 4194304) by (nonlinear_arith)
                requires
                    n <= 16,
            ;
            if amps_silent(orig) {
                lemma_voices_raw_silent(
                    orig.voices@,
                    orig.bridge.amps@,
                    orig.table.samples@,
                    md as int,
                    fb as int,
                    n as int,
                );
            }
        }
        sum
    }

    /// Render one output frame: the soft-clipped mix, replicated into
    /// every channel.
    pub fn render_frame(&mut self, channels: usize) -> (frame: Vec<i64>)
        requires
            old(self).wf(),
            1 <= channels <= 64,
        ensures
            final(self).wf(),
            engine_advanced(*old(self), *final(self)),
            frame@.len() == channels,
            forall|c: int|
                0 <= c < channels ==> #[trigger] frame@[c] == soft_clip_spec(
                    engine_raw_spec(*old(self)),
                ),
            forall|c: int| 0 <= c < channels ==> -65536 < #[trigger] frame@[c] < 65536,
            amps_silent(*old(self)) ==> amps_silent(*final(self)) && (forall|c: int|
                0 <= c < channels ==> #[trigger] frame@[c] == 0),
    {
        let raw: i64 = self.mix_sample();
        let clipped: i64 = soft_clip(raw);
        proof {
            lemma_soft_clip_bounded(raw as int);
        }
        let mut frame: Vec<i64> = Vec::new();
        let mut c: usize = 0;
        while c < channels
            invariant
                c <= channels,
                frame@.len() == c,
                forall|k: int| 0 <= k < c ==> #[trigger] frame@[k] == clipped,
            decreases channels - c,
        {
            frame.push(clipped);
            c = c + 1;
        }
        frame
    }

    /// Render a whole buffer of `frames` frames with `channels` channels
    /// each, frame by frame: each frame carries the soft-clipped raw mix
    /// of the engine state it started from (see `render_trace`), so
    /// within one frame every channel holds the identical clipped sample,
    /// and every sample is strictly inside `(-1, 1)`. An engine whose
    /// amplitudes were never set renders silence.
    pub fn render_buffer(&mut self, frames: usize, channels: usize) -> (buf: Vec<i64>)
        requires
            old(self).wf(),
            1 <= channels <= 64,
            frames <= 1000000,
        ensures
            final(self).wf(),
            final(self).running == old(self).running,
            buf@.len() == frames * channels,
            exists|states: Seq<Engine>| #[trigger] render_trace(
                states,
                *old(self),
                *final(self),
                frames as int,
                channels as int,
                buf@,
            ),
            forall|k: int| 0 <= k < buf@.len() ==> -65536 < #[trigger] buf@[k] < 65536,
            forall|f: int, c: int|
                0 <= f < frames && 0 <= c < channels ==> #[trigger] buf@[f * channels + c]
                    == buf@[f * channels],
            amps_silent(*old(self)) ==> forall|k: int|
                0 <= k < buf@.len() ==> #[trigger] buf@[k] == 0,
    {
        let ghost orig = *self;
        let ghost mut states: Seq<Engine> = seq![orig];
        let mut buf: Vec<i64> = Vec::new();
        let mut f: usize = 0;
        while f < frames
            invariant
                f <= frames,
                frames <= 1000000,
                1 <= channels <= 64,
                self.wf(),
                self.running == orig.running,
                buf@.len() == (f as int) * channels,
                states.len() == f + 1,
                states[0] == orig,
                states[f as int] == *self,
                forall|g: int|
                    0 <= g < f ==> engine_advanced(#[trigger] states[g], states[g + 1]),
                forall|g: int, c: int|
                    0 <= g < f && 0 <= c < channels ==> #[trigger] buf@[g * channels + c]
                        == soft_clip_spec(engine_raw_spec(states[g])),
                forall|k: int| 0 <= k < buf@.len() ==> -65536 < #[trigger] buf@[k] < 65536,
                forall|g: int, c: int|
                    0 <= g < f && 0 <= c < channels ==> #[trigger] buf@[g * channels + c]
                        == buf@[g * channels],
                amps_silent(orig) ==> amps_silent(*self) && (forall|k: int|
                    0 <= k < buf@.len() ==> #[trigger] buf@[k] == 0),
            decreases frames - f,
        {
            proof {
                assert((f as int) * channels + channels == ((f + 1) as int) * channels) by (
                nonlinear_arith);
                assert((f as int) * channels <= 1000000 * 64) by (nonlinear_arith)
                    requires
                        0 <= f <= 1000000,
                        0 <= channels <= 64,
                ;
            }
            let ghost before = buf@;
            let ghost prev = *self;
            let frame: Vec<i64> = self.render_frame(channels);
            proof {
                states = states.push(*self);
            }
            let mut c: usize = 0;
            while c < channels
                invariant
                    c <= channels,
                    frame@.len() == channels,
                    buf@.len() == before.len() + c,
                    buf@ == before + frame@.subrange(0, c as int),
                decreases channels - c,
            {
                let v: i64 = frame[c];
                buf.push(v);
                proof {
                    assert(frame@.subrange(0, (c + 1) as int) == frame@.subrange(0, c as int)
                        + seq![frame@[c as int]]);
                }
                c = c + 1;
            }
            proof {
                assert(buf@ == before + frame@) by {
                    assert(frame@.subrange(0, channels as int) == frame@);
                }
                assert(states[f as int] == prev);
                assert(states[(f + 1) as int] == *self);
                assert(engine_advanced(prev, *self));
                assert forall|g: int, cc: int|
                    0 <= g < f + 1 && 0 <= cc < channels implies #[trigger] buf@[g * channels + cc]
                    == buf@[g * channels] && buf@[g * channels + cc] == soft_clip_spec(
                    engine_raw_spec(states[g]),
                ) by {
                    if g < f {
                        assert(0 <= g * channels && g * channels + cc < before.len()) by (
                        nonlinear_arith)
                            requires
                                0 <= g < f,
                                0 <= cc < channels,
                                before.len() == f * channels,
                        ;
                        assert(buf@[g * channels + cc] == before[g * channels + cc]);
                        assert(buf@[g * channels] == before[g * channels]);
                        assert(before[g * channels + cc] == soft_clip_spec(
                            engine_raw_spec(#[trigger] states[g]),
                        ));
                    } else {
                        assert(g * channels == before.len()) by (nonlinear_arith)
                            requires
                                g == f,
                                before.len() == f * channels,
                        ;
                        assert(buf@[g * channels + cc] == frame@[cc]);
                        assert(buf@[g * channels] == frame@[0]);
                        assert(frame@[cc] == soft_clip_spec(engine_raw_spec(prev)));
                    }
                }
            }
            f = f + 1;
        }
        proof {
            assert(states[frames as int] == *self);
            assert(render_trace(states, orig, *self, frames as int, channels as int, buf@));
        }
        buf
    }

    /// Set one voice's amplitude (fixed point, `[0, 1]`). An out-of-range
    /// voice index is a caller error; a send after the engine stopped is
    /// reported and dropped, and may be ignored.
    pub fn set_amplitude(&mut self, voice_index: usize, value: i64) -> (r: Result<
        (),
        ControlError,
    >)
        requires
            old(self).wf(),
            0 <= value <= 65536,
        ensures
            final(self).wf(),
            voice_index >= old(self).voices@.len() ==> r == Result::<(), ControlError>::Err(
                ControlError::InvalidIndex,
            ) && *final(self) == *old(self),
            voice_index < old(self).voices@.len() && old(self).bridge.amps@[voice_index as int].connected ==> r is Ok && final(self).bridge.amps@[voice_index as int].pending@ == old(self).bridge.amps@[voice_index as int].pending@.push(value),
            voice_index < old(self).voices@.len() && !old(self).bridge.amps@[voice_index as int].connected ==> r == Result::<(), ControlError>::Err(
                ControlError::Stopped,
            ) && *final(self) == *old(self),
    {
        if voice_index >= self.voices.len() {
            return Err(ControlError::InvalidIndex);
        }
        proof {
            assert((#[trigger] self.bridge.amps@[voice_index as int]).wf());
        }
        if !self.bridge.amps[voice_index].is_connected() {
            return Err(ControlError::Stopped);
        }
        let _ = self.bridge.amps[voice_index].send(value);
        Ok(())
    }

    /// Set the global modulation depth (fixed point, `[0, 1]`).
    pub fn set_modulation_depth(&mut self, value: i64) -> (r: Result<(), ControlError>)
        requires
            old(self).wf(),
            0 <= value <= 65536,
        ensures
            final(self).wf(),
            old(self).bridge.modulation.connected ==> r is Ok && final(self).bridge.modulation.pending@ == old(self).bridge.modulation.pending@.push(value),
            !old(self).bridge.modulation.connected ==> r == Result::<(), ControlError>::Err(
                ControlError::Stopped,
            ) && *final(self) == *old(self),
    {
        if !self.bridge.modulation.is_connected() {
            return Err(ControlError::Stopped);
        }
        let _ = self.bridge.modulation.send(value);
        Ok(())
    }

    /// Set the global FM depth (fixed point, `[0, 1]`).
    pub fn set_fm_depth(&mut self, value: i64) -> (r: Result<(), ControlError>)
        requires
            old(self).wf(),
            0 <= value <= 65536,
        ensures
            final(self).wf(),
            old(self).bridge.fm.connected ==> r is Ok && final(self).bridge.fm.pending@ == old(self).bridge.fm.pending@.push(value),
            !old(self).bridge.fm.connected ==> r == Result::<(), ControlError>::Err(
                ControlError::Stopped,
            ) && *final(self) == *old(self),
    {
        if !self.bridge.fm.is_connected() {
            return Err(ControlError::Stopped);
        }
        let _ = self.bridge.fm.send(value);
        Ok(())
    }

    /// Set the global feedback depth (fixed point, `[0, 1]`).
    pub fn set_feedback_depth(&mut self, value: i64) -> (r: Result<(), ControlError>)
        requires
            old(self).wf(),
            0 <= value <= 65536,
        ensures
            final(self).wf(),
            old(self).bridge.feedback.connected ==> r is Ok && final(self).bridge.feedback.pending@ == old(self).bridge.feedback.pending@.push(value),
            !old(self).bridge.feedback.connected ==> r == Result::<(), ControlError>::Err(
                ControlError::Stopped,
            ) && *final(self) == *old(self),
    {
        if !self.bridge.feedback.is_connected() {
            return Err(ControlError::Stopped);
        }
        let _ = self.bridge.feedback.send(value);
        Ok(())
    }

    /// Whether the engine is still running.
    pub fn is_running(&self) -> (r: bool)
        ensures
            r == self.running,
    {
        self.running
    }

    /// Stop the engine: clear the running flag and tear down the consumer
    /// side of every control channel, so later sends fail with `Stopped`.
    pub fn stop(&mut self)
        requires
            old(self).wf(),
        ensures
            final(self).wf(),
            !final(self).running,
            forall|i: int|
                0 <= i < final(self).bridge.amps@.len() ==> !(#[trigger] final(self).bridge.amps@[i]).connected,
            !final(self).bridge.modulation.connected,
            !final(self).bridge.fm.connected,
            !final(self).bridge.feedback.connected,
            final(self).voices@.len() == old(self).voices@.len(),
    {
        self.running = false;
        let n: usize = self.bridge.amps.len();
        let mut i: usize = 0;
        while i < n
            invariant
                i <= n,
                !self.running,
                self.bridge.amps@.len() == n,
                old(self).bridge.amps@.len() == n,
                self.table == old(self).table,
                self.voices@ == old(self).voices@,
                self.samplerate == old(self).samplerate,
                self.bridge.modulation == old(self).bridge.modulation,
                self.bridge.fm == old(self).bridge.fm,
                self.bridge.feedback == old(self).bridge.feedback,
                old(self).wf(),
                forall|k: int| i <= k < n ==> self.bridge.amps@[k] == old(self).bridge.amps@[k],
                forall|k: int|
                    0 <= k < i ==> !(#[trigger] self.bridge.amps@[k]).connected
                        && self.bridge.amps@[k].wf(),
            decreases n - i,
        {
            proof {
                assert(self.bridge.amps@[i as int] == old(self).bridge.amps@[i as int]);
                assert((#[trigger] old(self).bridge.amps@[i as int]).wf());
            }
            self.bridge.amps[i].disconnect();
            i = i + 1;
        }
        self.bridge.modulation.disconnect();
        self.bridge.fm.disconnect();
        self.bridge.feedback.disconnect();
    }
}

} // verus!
