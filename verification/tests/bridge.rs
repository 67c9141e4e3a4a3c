use synth_engine::bridge::{ControlChannel, ControlError};
use synth_engine::engine::Engine;

/// Idempotence: polling with nothing sent returns no new value and the
/// previously cached value persists.
#[test]
fn poll_without_send_keeps_cache() {
    let mut c = ControlChannel::new(0);
    assert_eq!(c.poll_latest(), None);
    assert_eq!(c.current(), 0);
    let ok = c.send(300);
    assert!(ok);
    assert_eq!(c.poll_latest(), Some(300));
    assert_eq!(c.current(), 300);
    // nothing new since: the cache persists
    assert_eq!(c.poll_latest(), None);
    assert_eq!(c.current(), 300);
}

/// Last-write-wins: after several sends one poll returns the most
/// recently sent value, never an earlier one.
#[test]
fn last_write_wins() {
    let mut c = ControlChannel::new(0);
    assert!(c.send(100));
    assert!(c.send(200));
    assert!(c.send(300));
    assert_eq!(c.poll_latest(), Some(300));
    assert_eq!(c.current(), 300);
}

/// Sending after the consumer side is torn down fails, non-fatally.
#[test]
fn send_after_disconnect_fails() {
    let mut c = ControlChannel::new(42);
    c.disconnect();
    assert!(!c.send(7));
    // the failed send dropped the value
    assert_eq!(c.poll_latest(), None);
    assert_eq!(c.current(), 42);
}

/// An out-of-range voice index is a caller error.
#[test]
fn set_amplitude_invalid_index() {
    let mut e = Engine::new(2, 48000, 1);
    assert_eq!(e.set_amplitude(2, 65536), Err(ControlError::InvalidIndex));
    assert_eq!(e.set_amplitude(1, 65536), Ok(()));
}

/// Sends after the engine has stopped report `Stopped` and are dropped.
#[test]
fn send_after_stop_reports_stopped() {
    let mut e = Engine::new(1, 48000, 1);
    assert_eq!(e.set_modulation_depth(100), Ok(()));
    e.stop();
    assert!(!e.is_running());
    assert_eq!(e.set_amplitude(0, 65536), Err(ControlError::Stopped));
    assert_eq!(e.set_modulation_depth(100), Err(ControlError::Stopped));
    assert_eq!(e.set_fm_depth(100), Err(ControlError::Stopped));
    assert_eq!(e.set_feedback_depth(100), Err(ControlError::Stopped));
}
