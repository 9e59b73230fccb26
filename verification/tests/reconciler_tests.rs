use lb_9000::error::Error;
use lb_9000::membership::{InstanceRecord, InstanceStatus, MembershipEvent};
use lb_9000::reconciler::{
    backoff_ceiling, backoff_millis, Action, FeedInput, Phase, Reconciler, BACKOFF_BASE_MILLIS,
    BACKOFF_CAP_MILLIS,
};
use lb_9000::registry::Registry;

fn record(address: Option<&str>, deletion_marked: bool) -> FeedInput {
    FeedInput::Record(InstanceRecord {
        status: Some(InstanceStatus { address: address.map(|a| a.to_string()) }),
        deletion_marked,
    })
}

fn streaming() -> Reconciler {
    Reconciler { phase: Phase::Streaming, failures: 0 }
}

#[test]
fn new_reconciler_is_disconnected() {
    assert_eq!(Reconciler::new(), Reconciler { phase: Phase::Disconnected, failures: 0 });
}

#[test]
fn backoff_constants() {
    assert_eq!(BACKOFF_BASE_MILLIS, 100);
    assert_eq!(BACKOFF_CAP_MILLIS, 30_000);
}

#[test]
fn ceiling_doubles_up_to_the_cap() {
    let expected = [100, 200, 400, 800, 1600, 3200, 6400, 12800, 25600, 30000, 30000];
    for (failures, millis) in expected.iter().enumerate() {
        assert_eq!(backoff_ceiling(failures as u32), *millis);
    }
    assert_eq!(backoff_ceiling(1000), 30000);
    assert_eq!(backoff_ceiling(u32::MAX), 30000);
}

#[test]
fn backoff_is_half_the_ceiling_plus_jitter() {
    assert_eq!(backoff_millis(0, 0), 50);
    assert_eq!(backoff_millis(0, 7), 57);
    assert_eq!(backoff_millis(0, 50), 100);
    assert_eq!(backoff_millis(0, 51), 50);
    assert_eq!(backoff_millis(3, 1000), 598);
    assert_eq!(backoff_millis(9, 0), 15000);
    assert_eq!(backoff_millis(9, 15000), 30000);
    assert_eq!(backoff_millis(u32::MAX, u64::MAX), 15000 + u64::MAX % 15001);
}

#[test]
fn backoff_stays_within_bounds() {
    for failures in 0..40u32 {
        for jitter in [0u64, 1, 49, 50, 51, 999, 15_000, 29_999, 30_000, u64::MAX] {
            let millis = backoff_millis(failures, jitter);
            let ceiling = backoff_ceiling(failures);
            assert!(millis >= ceiling / 2);
            assert!(millis <= ceiling);
            assert!(millis >= 50 && millis <= 30_000);
        }
    }
}

#[test]
fn ready_while_disconnected_subscribes() {
    let mut state = Reconciler::new();
    let mut registry = Registry::new();
    let told = state.step(&mut registry, &FeedInput::Ready, 0);
    assert_eq!(told, (Action::Subscribe, None));
    assert_eq!(state, Reconciler { phase: Phase::Subscribing, failures: 0 });
}

#[test]
fn subscribed_while_subscribing_streams() {
    let mut state = Reconciler { phase: Phase::Subscribing, failures: 3 };
    let mut registry = Registry::new();
    let told = state.step(&mut registry, &FeedInput::Subscribed, 0);
    assert_eq!(told, (Action::Receive, None));
    assert_eq!(state, Reconciler { phase: Phase::Streaming, failures: 3 });
}

#[test]
fn record_while_streaming_is_applied() {
    let mut state = Reconciler { phase: Phase::Streaming, failures: 2 };
    let mut registry = Registry::new();
    let told = state.step(&mut registry, &record(Some("10.0.0.1"), false), 0);
    assert_eq!(
        told,
        (Action::Receive, Some(Ok(MembershipEvent::Added("10.0.0.1".to_string()))))
    );
    assert_eq!(state, Reconciler { phase: Phase::Streaming, failures: 0 });
    assert_eq!(registry.counter("10.0.0.1"), Some(0));
    let told = state.step(&mut registry, &record(Some("10.0.0.1"), true), 0);
    assert_eq!(
        told,
        (Action::Receive, Some(Ok(MembershipEvent::Removed("10.0.0.1".to_string()))))
    );
    assert!(registry.is_empty());
}

#[test]
fn malformed_record_is_skipped_and_streaming_goes_on() {
    let mut state = streaming();
    let mut registry = Registry::new();
    registry.upsert("a");
    let told = state.step(&mut registry, &record(None, false), 0);
    assert_eq!(told, (Action::Receive, Some(Err(Error::MalformedMembershipEvent))));
    assert_eq!(state.phase, Phase::Streaming);
    assert_eq!(registry.snapshot(), vec![("a".to_string(), 0)]);
    let told = state.step(&mut registry, &record(Some("b"), false), 0);
    assert_eq!(told.0, Action::Receive);
    assert!(registry.contains("b"));
}

#[test]
fn failure_while_streaming_disconnects_and_waits() {
    let mut state = streaming();
    let mut registry = Registry::new();
    registry.upsert("a");
    let told = state.step(&mut registry, &FeedInput::Failed, 7);
    assert_eq!(told, (Action::Wait(57), Some(Err(Error::MembershipStreamError))));
    assert_eq!(state, Reconciler { phase: Phase::Disconnected, failures: 1 });
    assert!(registry.contains("a"));
}

#[test]
fn failure_while_subscribing_disconnects_and_waits() {
    let mut state = Reconciler { phase: Phase::Subscribing, failures: 3 };
    let mut registry = Registry::new();
    let told = state.step(&mut registry, &FeedInput::Failed, 1000);
    assert_eq!(told, (Action::Wait(598), Some(Err(Error::MembershipStreamError))));
    assert_eq!(state, Reconciler { phase: Phase::Disconnected, failures: 4 });
}

#[test]
fn waits_grow_with_failures_in_a_row() {
    let mut state = Reconciler::new();
    let mut registry = Registry::new();
    let mut waits = Vec::new();
    for _ in 0..12 {
        assert_eq!(state.step(&mut registry, &FeedInput::Ready, 0).0, Action::Subscribe);
        match state.step(&mut registry, &FeedInput::Failed, 0).0 {
            Action::Wait(millis) => waits.push(millis),
            other => panic!("unexpected action {:?}", other),
        }
    }
    assert_eq!(
        waits,
        vec![50, 100, 200, 400, 800, 1600, 3200, 6400, 12800, 15000, 15000, 15000]
    );
    assert_eq!(state.failures, 12);
}

#[test]
fn failure_count_stops_at_the_largest_value() {
    let mut state = Reconciler { phase: Phase::Streaming, failures: u32::MAX };
    let mut registry = Registry::new();
    let told = state.step(&mut registry, &FeedInput::Failed, 0);
    assert_eq!(told.0, Action::Wait(15000));
    assert_eq!(state, Reconciler { phase: Phase::Disconnected, failures: u32::MAX });
}

#[test]
fn reports_that_do_not_fit_the_phase_are_ignored() {
    let cases = vec![
        (Phase::Disconnected, FeedInput::Subscribed),
        (Phase::Disconnected, record(Some("a"), false)),
        (Phase::Disconnected, FeedInput::Failed),
        (Phase::Subscribing, FeedInput::Ready),
        (Phase::Subscribing, record(Some("a"), false)),
        (Phase::Streaming, FeedInput::Ready),
        (Phase::Streaming, FeedInput::Subscribed),
    ];
    for (phase, input) in cases {
        let mut state = Reconciler { phase, failures: 5 };
        let mut registry = Registry::new();
        registry.upsert("keep");
        let told = state.step(&mut registry, &input, 9);
        assert_eq!(told, (Action::Ignore, None));
        assert_eq!(state, Reconciler { phase, failures: 5 });
        assert_eq!(registry.snapshot(), vec![("keep".to_string(), 0)]);
    }
}

#[test]
fn a_full_round_of_the_feed() {
    let mut state = Reconciler::new();
    let mut registry = Registry::new();
    assert_eq!(state.step(&mut registry, &FeedInput::Ready, 0).0, Action::Subscribe);
    assert_eq!(state.step(&mut registry, &FeedInput::Subscribed, 0).0, Action::Receive);
    assert_eq!(state.step(&mut registry, &record(Some("a"), false), 0).0, Action::Receive);
    assert_eq!(state.step(&mut registry, &record(Some("b"), false), 0).0, Action::Receive);
    assert_eq!(state.step(&mut registry, &FeedInput::Failed, 0).0, Action::Wait(50));
    assert_eq!(state.phase, Phase::Disconnected);
    assert_eq!(registry.len(), 2);
    assert_eq!(state.step(&mut registry, &FeedInput::Ready, 0).0, Action::Subscribe);
    assert_eq!(state.phase, Phase::Subscribing);
}
