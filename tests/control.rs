use terrabase::config::{
    background_tasks, expected_strong_count, is_last_user, service_step, BGSave, ServiceStep,
    SnapshotConfig, SnapshotPref,
};
use terrabase::dbnet::{backoff_after_failure, next_action, Backoff, ConnAction, ConnEvent};

#[test]
fn backoff_doubles_then_gives_up() {
    let mut b = 1u64;
    let mut delays = Vec::new();
    loop {
        match backoff_after_failure(b) {
            Backoff::Retry { delay, next } => {
                delays.push(delay);
                b = next;
            }
            Backoff::GiveUp => break,
        }
    }
    assert_eq!(delays, vec![1, 2, 4, 8, 16, 32, 64]);
}

#[test]
fn connection_actions() {
    assert_eq!(next_action(false, ConnEvent::Query), ConnAction::Execute);
    assert_eq!(next_action(false, ConnEvent::DecodeError), ConnAction::CloseWithError);
    assert_eq!(next_action(false, ConnEvent::Shutdown), ConnAction::Stop);
    assert_eq!(next_action(true, ConnEvent::Query), ConnAction::Stop);
}

#[test]
fn service_steps() {
    assert_eq!(service_step(false, false), ServiceStep::ParkThenExit);
    assert_eq!(service_step(true, false), ServiceStep::WorkThenWait);
    assert_eq!(service_step(true, true), ServiceStep::Exit);
}

#[test]
fn reference_counts() {
    let snap = SnapshotConfig::Enabled(SnapshotPref { every: 3600, atmost: 4 });
    assert_eq!(background_tasks(BGSave::Enabled(120), snap), 2);
    assert_eq!(background_tasks(BGSave::Disabled, SnapshotConfig::Disabled), 0);
    assert_eq!(background_tasks(BGSave::Disabled, snap), 1);
    assert_eq!(expected_strong_count(2), 3);
    assert!(is_last_user(3, 2));
    assert!(!is_last_user(4, 2));
    assert_eq!(SnapshotPref { every: 5, atmost: 9 }.decompose(), (5, 9));
}
