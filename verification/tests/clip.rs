use synth_engine::clip::soft_clip;
use synth_engine::fixed::FRAC_ONE;

/// Exact values of the saturating curve `x / (1 + |x|)` in fixed point.
#[test]
fn soft_clip_exact_values() {
    assert_eq!(soft_clip(0), 0);
    // 1.0 clips to 0.5
    assert_eq!(soft_clip(FRAC_ONE), FRAC_ONE / 2);
    assert_eq!(soft_clip(65536), 32768);
    assert_eq!(soft_clip(-65536), -32768);
    // 3.0 clips to 0.75
    assert_eq!(soft_clip(196608), 49152);
    assert_eq!(soft_clip(-196608), -49152);
}

/// Saturation: the output is strictly inside `(-1, 1)` for any finite raw
/// input, however large.
#[test]
fn soft_clip_bounded() {
    let inputs = [
        0i64,
        1,
        -1,
        65536,
        -65536,
        4194304,
        -4194304,
        1099511627776,
        -1099511627776,
    ];
    for x in inputs.iter() {
        let r = soft_clip(*x);
        assert!(-65536 < r && r < 65536);
    }
}

/// Monotonicity near zero (and beyond): a larger raw input never clips to
/// a smaller output.
#[test]
fn soft_clip_monotone_near_zero() {
    let mut prev = soft_clip(-2000);
    let mut x: i64 = -1900;
    while x <= 2000 {
        let r = soft_clip(x);
        assert!(prev <= r);
        prev = r;
        x += 100;
    }
}

/// The curve is odd and close to the identity near zero.
#[test]
fn soft_clip_odd_and_gentle_near_zero() {
    for x in [1i64, 10, 100, 655, 6553] {
        assert_eq!(soft_clip(-x), -soft_clip(x));
        let r = soft_clip(x);
        // within ~10% of the identity for inputs up to 0.1
        assert!(r <= x && r >= x - x / 10 - 1);
    }
}
