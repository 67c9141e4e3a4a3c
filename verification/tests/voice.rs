use synth_engine::fixed::mul_q16;
use synth_engine::noise::NoiseModulator;
use synth_engine::osc::Oscillator;
use synth_engine::table::Wavetable;
use synth_engine::voice::Voice;

const RATIOS: [u32; 4] = [1, 3, 5, 7];
const WEIGHTS: [i64; 4] = [65536, 55706, 47514, 32768];

/// Degenerate-mode equivalence: with modulation depth 0 and feedback
/// depth 0, the voice output equals the plain sum of unmodulated
/// partials scaled by their weights and the voice amplitude.
#[test]
fn degenerate_voice_equals_plain_sum() {
    let table = Wavetable::triangle();
    let mut voice = Voice::new(90, 48000, 12345, 1000);
    // an independent, unmodulated mirror of the four partials
    let mut mirror: Vec<Oscillator> = (0..4).map(|_| Oscillator::new(48000)).collect();
    let amp: i64 = 50000;
    for _ in 0..32 {
        let out = voice.render(&table, amp, 0, 0);
        let mut expected: i64 = 0;
        for j in 0..4 {
            let s = mirror[j].render(&table, 90 * RATIOS[j], 0);
            expected += mul_q16(mul_q16(s, amp), WEIGHTS[j]);
        }
        assert_eq!(out, expected);
    }
}

/// A voice with amplitude zero is silent whatever the depths.
#[test]
fn zero_amplitude_voice_is_silent() {
    let table = Wavetable::triangle();
    let mut voice = Voice::new(135, 48000, 99, 64);
    for _ in 0..64 {
        assert_eq!(voice.render(&table, 0, 65536, 65536), 0);
    }
}

/// Voice output is bounded by the number of partials even at full
/// amplitude and full depths.
#[test]
fn voice_output_bounded() {
    let table = Wavetable::triangle();
    let mut voice = Voice::new(45, 48000, 7, 17);
    for _ in 0..256 {
        let out = voice.render(&table, 65536, 65536, 65536);
        assert!(-262144 <= out && out <= 262144);
    }
}

/// The smoothed noise level always stays within `[-1, 1]` fixed point.
#[test]
fn noise_stays_in_range() {
    let mut n = NoiseModulator::new(0xDECAFBAD, 13);
    for _ in 0..1000 {
        let v = n.next();
        assert!(-65536 <= v && v <= 65536);
    }
}

/// A fresh modulator ramps from level zero; the first outputs stay near
/// zero until the first target pick completes.
#[test]
fn noise_starts_at_zero_level() {
    let mut n = NoiseModulator::new(1, 1000);
    let v = n.next();
    assert_eq!(v, 0);
}
