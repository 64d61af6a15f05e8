use causal_trace::{DeliveryOutcome, DeliveryTracker, FlushAction, FlushLoop, FlushPhase};

#[test]
fn tracker_hands_out_latest_first() {
    let mut t: DeliveryTracker<u32> = DeliveryTracker::new();
    assert!(t.is_empty());
    t.track(1);
    t.track(2);
    t.track(3);
    assert_eq!(t.len(), 3);
    assert_eq!(t.take_next(), Some(3));
    assert_eq!(t.take_next(), Some(2));
    assert_eq!(t.take_next(), Some(1));
    assert_eq!(t.take_next(), None);
    assert!(t.is_empty());
}

#[test]
fn running_loop_drains_then_sleeps() {
    let mut t: DeliveryTracker<u32> = DeliveryTracker::new();
    t.track(10);
    let mut lp = FlushLoop::new();
    assert!(matches!(lp.step(&mut t, true), FlushAction::Resolve(10)));
    assert_eq!(lp.phase, FlushPhase::Running);
    assert!(matches!(lp.step(&mut t, true), FlushAction::Sleep));
    assert_eq!(lp.phase, FlushPhase::Running);
}

#[test]
fn close_drains_everything_before_finishing() {
    let mut t: DeliveryTracker<u32> = DeliveryTracker::new();
    let mut lp = FlushLoop::new();
    t.track(1);
    t.track(2);
    let mut resolved = Vec::new();
    loop {
        match lp.step(&mut t, false) {
            FlushAction::Resolve(h) => {
                assert_eq!(lp.phase, FlushPhase::Closing);
                resolved.push(h);
            }
            FlushAction::Sleep => panic!("a closed loop does not sleep"),
            FlushAction::Finish => break,
        }
    }
    assert_eq!(resolved, vec![2, 1]);
    assert!(t.is_empty());
    assert_eq!(lp.phase, FlushPhase::Stopped);
}

#[test]
fn closing_phase_ignores_flag() {
    let mut t: DeliveryTracker<u32> = DeliveryTracker::new();
    let mut lp = FlushLoop::new();
    t.track(1);
    t.track(2);
    assert!(matches!(lp.step(&mut t, false), FlushAction::Resolve(2)));
    assert!(matches!(lp.step(&mut t, true), FlushAction::Resolve(1)));
    assert!(matches!(lp.step(&mut t, true), FlushAction::Finish));
}

#[test]
fn outcome_reports() {
    let ok = DeliveryOutcome::Delivered { partition: 0, offset: 42 };
    assert_eq!(ok.report(), "Sent: partition 0 offset 42".to_string());
    let neg = DeliveryOutcome::Delivered { partition: -1, offset: i64::MIN };
    assert_eq!(neg.report(), "Sent: partition -1 offset -9223372036854775808".to_string());
    let err = DeliveryOutcome::Rejected {
        reason: "MessageTimedOut".to_string(),
        payload: Some("{\"a\":1}".to_string()),
    };
    assert_eq!(err.report(), "Error: MessageTimedOut {\"a\":1}".to_string());
    let err2 = DeliveryOutcome::Rejected { reason: "bad".to_string(), payload: None };
    assert_eq!(err2.report(), "Error: bad ".to_string());
    assert_eq!(DeliveryOutcome::Cancelled.report(), "Cancelled".to_string());
}
