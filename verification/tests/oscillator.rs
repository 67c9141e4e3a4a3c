use synth_engine::osc::Oscillator;
use synth_engine::table::{Wavetable, TABLE_LEN};

/// The phase accumulator advances by `freq / samplerate` table lengths per
/// call and wraps losslessly: after `samplerate / freq` calls (one full
/// waveform period) the phase returns exactly to its start.
#[test]
fn phase_returns_after_one_period() {
    let table = Wavetable::triangle();
    let mut osc = Oscillator::new(48000);
    assert_eq!(osc.phase, 0);
    // 100 Hz divides 48 kHz: one period is 480 calls.
    for _ in 0..480 {
        let _ = osc.render(&table, 100, 0);
    }
    assert_eq!(osc.phase, 0);
}

/// One call advances the phase by exactly `freq * table_len` ticks.
#[test]
fn phase_advances_one_step() {
    let table = Wavetable::triangle();
    let mut osc = Oscillator::new(48000);
    let _ = osc.render(&table, 100, 0);
    assert_eq!(osc.phase, 100 * 2048);
    let _ = osc.render(&table, 100, 0);
    assert_eq!(osc.phase, 2 * 100 * 2048);
}

/// Wrap stays exact from an arbitrary starting phase: a second full
/// period from mid-cycle lands back on the same phase.
#[test]
fn phase_wrap_from_midcycle() {
    let table = Wavetable::triangle();
    let mut osc = Oscillator::new(48000);
    for _ in 0..7 {
        let _ = osc.render(&table, 125, 0);
    }
    let start = osc.phase;
    // 48000 / 125 = 384 calls per period.
    for _ in 0..384 {
        let _ = osc.render(&table, 125, 0);
    }
    assert_eq!(osc.phase, start);
}

/// With a zero offset and a step that lands on a whole table slot, the
/// render returns the exact table value.
#[test]
fn render_exact_table_value() {
    let table = Wavetable::triangle();
    let mut osc = Oscillator::new(48000);
    // 750 * 2048 ticks = slot 32 exactly; triangle slot 32 is 32 * 128.
    let s = osc.render(&table, 750, 0);
    assert_eq!(s, 32 * 128);
}

/// A step that lands between slots interpolates linearly: at 100 Hz the
/// first sample sits at slot 4 plus 12800/48000 of the ramp to slot 5.
#[test]
fn render_exact_interpolated_value() {
    let table = Wavetable::triangle();
    let mut osc = Oscillator::new(48000);
    let s = osc.render(&table, 100, 0);
    assert_eq!(s, 4 * 128 + (128 * 12800) / 48000);
    assert_eq!(s, 546);
}

/// The triangle table holds the four exact quarter ramps.
#[test]
fn triangle_table_values() {
    let t = Wavetable::triangle();
    assert_eq!(t.samples.len(), TABLE_LEN);
    assert_eq!(t.samples[0], 0);
    assert_eq!(t.samples[1], 128);
    assert_eq!(t.samples[512], 65536);
    assert_eq!(t.samples[1024], 0);
    assert_eq!(t.samples[1536], -65536);
    assert_eq!(t.samples[2047], -128);
    for v in t.samples.iter() {
        assert!(-65536 <= *v && *v <= 65536);
    }
}

/// Rendering with phase-modulation offsets, positive and negative, stays
/// within the waveform's range.
#[test]
fn render_bounded_under_offsets() {
    let table = Wavetable::triangle();
    let mut osc = Oscillator::new(48000);
    let offsets = [0i64, 262, -262, 65536, -65536, 1048576, -1048576, 7777, -31415];
    for (i, off) in offsets.iter().cycle().take(500).enumerate() {
        let s = osc.render(&table, 45 + (i as u32 % 300), *off);
        assert!(-65536 <= s && s <= 65536);
    }
}
