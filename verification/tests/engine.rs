use synth_engine::clip::soft_clip;
use synth_engine::engine::Engine;
use synth_engine::fixed::mul_q16;
use synth_engine::lifecycle::{check_devices, lifecycle_step, StartupError, WorkerAction, WorkerState};
use synth_engine::osc::Oscillator;
use synth_engine::table::Wavetable;

const RATIOS: [u32; 4] = [1, 3, 5, 7];
const WEIGHTS: [i64; 4] = [65536, 55706, 47514, 32768];

/// Scenario: one voice, amplitude set to 1.0, every depth left at 0 —
/// each output frame equals the soft-clipped plain oscillator output.
#[test]
fn one_voice_full_amp_equals_clipped_oscillator() {
    let mut e = Engine::new(1, 48000, 42);
    assert_eq!(e.set_amplitude(0, 65536), Ok(()));
    let buf = e.render_buffer(16, 2);
    assert_eq!(buf.len(), 32);

    // an independent, unmodulated mirror of the single voice
    let table = Wavetable::triangle();
    let mut mirror: Vec<Oscillator> = (0..4).map(|_| Oscillator::new(48000)).collect();
    for f in 0..16 {
        let mut raw: i64 = 0;
        for j in 0..4 {
            let s = mirror[j].render(&table, 45 * RATIOS[j], 0);
            raw += mul_q16(mul_q16(s, 65536), WEIGHTS[j]);
        }
        let expected = soft_clip(raw);
        assert_eq!(buf[f * 2], expected);
        assert_eq!(buf[f * 2 + 1], expected);
    }
}

/// Scenario: amplitude never set (stays at its initial 0) — the output
/// buffer is all zeros regardless of oscillator activity and depths.
#[test]
fn silent_when_amplitude_never_set() {
    let mut e = Engine::new(3, 48000, 7);
    assert_eq!(e.set_modulation_depth(30000), Ok(()));
    assert_eq!(e.set_feedback_depth(20000), Ok(()));
    assert_eq!(e.set_fm_depth(10000), Ok(()));
    let buf = e.render_buffer(8, 2);
    assert_eq!(buf.len(), 16);
    for v in buf.iter() {
        assert_eq!(*v, 0);
    }
}

/// Scenario: the running flag is cleared — the supervisory thread exits
/// its wait on the very next poll and the join step reaches `Stopped`.
#[test]
fn shutdown_within_one_poll() {
    // while the flag holds, the wait continues
    assert_eq!(
        lifecycle_step(WorkerState::Running, true),
        (WorkerState::Running, WorkerAction::KeepAlive)
    );
    // flag cleared: the next wake leaves the wait
    assert_eq!(
        lifecycle_step(WorkerState::Running, false),
        (WorkerState::Stopping, WorkerAction::ExitWait)
    );
    // and the owning context joins the worker
    assert_eq!(
        lifecycle_step(WorkerState::Stopping, false),
        (WorkerState::Stopped, WorkerAction::JoinWorker)
    );
    assert_eq!(
        lifecycle_step(WorkerState::Uninitialized, true),
        (WorkerState::Running, WorkerAction::StartStreams)
    );
    assert_eq!(
        lifecycle_step(WorkerState::Stopped, false),
        (WorkerState::Stopped, WorkerAction::Idle)
    );

    let mut e = Engine::new(1, 48000, 1);
    assert!(e.is_running());
    e.stop();
    assert!(!e.is_running());
}

/// A missing default device is a fatal configuration error, the missing
/// input reported before the missing output.
#[test]
fn startup_requires_both_devices() {
    assert_eq!(check_devices(true, true), Ok(()));
    assert_eq!(check_devices(false, true), Err(StartupError::NoInputDevice));
    assert_eq!(check_devices(true, false), Err(StartupError::NoOutputDevice));
    assert_eq!(check_devices(false, false), Err(StartupError::NoInputDevice));
}

/// Every channel of one frame carries the identical clipped sample, and
/// every sample stays strictly inside `(-1, 1)` even at full drive.
#[test]
fn frames_replicated_and_bounded() {
    let mut e = Engine::new(16, 48000, 3);
    for i in 0..16 {
        assert_eq!(e.set_amplitude(i, 65536), Ok(()));
    }
    assert_eq!(e.set_modulation_depth(65536), Ok(()));
    assert_eq!(e.set_feedback_depth(65536), Ok(()));
    let buf = e.render_buffer(24, 3);
    assert_eq!(buf.len(), 72);
    for f in 0..24 {
        let first = buf[f * 3];
        assert!(-65536 < first && first < 65536);
        assert_eq!(buf[f * 3 + 1], first);
        assert_eq!(buf[f * 3 + 2], first);
    }
}

/// Parameter changes land on the following buffer, last write winning.
#[test]
fn later_send_overrides_earlier() {
    let mut e = Engine::new(1, 48000, 5);
    assert_eq!(e.set_amplitude(0, 12345), Ok(()));
    assert_eq!(e.set_amplitude(0, 0), Ok(()));
    // the last sent amplitude is 0: the buffer must be silent
    let buf = e.render_buffer(4, 1);
    for v in buf.iter() {
        assert_eq!(*v, 0);
    }
}
