use pico2_quick::capability::{Blinky, CapabilityCall};
use pico2_quick::recorder::{Recorder, TimedCall};

#[test]
fn a_new_recorder_is_empty() {
    let recorder = Recorder::new(42);
    assert!(recorder.is_empty());
    assert_eq!(recorder.len(), 0);
    assert_eq!(recorder.now_ms(), 42);
    assert!(recorder.events().is_empty());
}

#[test]
fn only_delays_advance_the_clock() {
    let mut recorder = Recorder::new(10);
    recorder.activate();
    assert_eq!(recorder.now_ms(), 10);
    recorder.deactivate();
    assert_eq!(recorder.now_ms(), 10);
    recorder.delay(0);
    assert_eq!(recorder.now_ms(), 10);
    recorder.delay(u32::MAX);
    assert_eq!(recorder.now_ms(), 10 + u32::MAX as u64);
    recorder.activate();
    assert_eq!(
        recorder.events()[4],
        TimedCall { at_ms: 10 + u32::MAX as u64, call: CapabilityCall::Activate }
    );
    assert_eq!(recorder.len(), 5);
    assert!(!recorder.is_empty());
}

#[test]
fn a_delay_of_100_then_400_takes_500() {
    let start: u64 = 1_000;
    let mut recorder = Recorder::new(start);
    recorder.delay(100);
    assert_eq!(recorder.now_ms(), start + 100);
    recorder.delay(400);
    assert_eq!(recorder.now_ms(), start + 500);
    recorder.deactivate();
    let events = recorder.events();
    assert_eq!(events[0], TimedCall { at_ms: start, call: CapabilityCall::Delay(100) });
    assert_eq!(events[1], TimedCall { at_ms: start + 100, call: CapabilityCall::Delay(400) });
    assert_eq!(events[2], TimedCall { at_ms: start + 500, call: CapabilityCall::Deactivate });
    assert!(events[2].at_ms - events[0].at_ms >= 500);
}
