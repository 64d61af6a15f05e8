use causal_trace::{micros_since_epoch, parse, render_decimal, timestamp, EventGenerator};

#[test]
fn root_clock_counts_its_events() {
    let mut c = EventGenerator::root(1, 0);
    assert_eq!(c.path(), &vec![0u64]);
    for _ in 0..50 {
        c.bump();
    }
    assert_eq!(c.path(), &vec![50u64]);
    assert_eq!(c.counter(), 50);
    assert_eq!(c.context_id(), 1);
}

#[test]
fn bump_then_fork_then_bump_child() {
    let mut parent = EventGenerator::root(7, 100);
    parent.bump();
    parent.bump();
    parent.bump();
    assert_eq!(parent.path(), &vec![3u64]);
    let mut child = parent.fork();
    assert_eq!(child.path(), &vec![4u64, 0]);
    assert_eq!(parent.path(), &vec![4u64]);
    assert_eq!(child.epoch(), parent.epoch());
    child.bump();
    child.bump();
    assert_eq!(child.path(), &vec![4u64, 2]);
    assert_eq!(parent.path(), &vec![4u64]);
}

#[test]
fn fork_extends_path_by_one() {
    let mut parent = EventGenerator::root(2, 5);
    parent.bump();
    let mut mid = parent.fork();
    mid.bump_at(9);
    mid.bump_at(11);
    let grandchild = mid.fork();
    assert_eq!(mid.path(), &vec![2u64, 3]);
    assert_eq!(grandchild.path(), &vec![2u64, 3, 0]);
    assert_eq!(grandchild.path().len(), mid.path().len() + 1);
}

#[test]
fn sibling_forks_share_prefix() {
    let mut parent = EventGenerator::root(3, 0);
    let mut mid = parent.fork();
    mid.bump_at(1);
    let first = mid.fork();
    let second = mid.fork();
    assert_eq!(first.path(), &vec![1u64, 2, 0]);
    assert_eq!(second.path(), &vec![1u64, 3, 0]);
    assert_ne!(first.path(), second.path());
    assert_eq!(first.path()[0], second.path()[0]);

    let mut a = EventGenerator::root(4, 0);
    let mut b = a.snapshot();
    let ca = a.fork();
    let cb = b.fork();
    assert_eq!(ca.path(), cb.path());
    assert_eq!(*ca.path().last().unwrap(), 0);
}

#[test]
fn bump_at_sets_epoch() {
    let mut c = EventGenerator::root(1, 10);
    let mark = c.bump_at(25);
    assert_eq!(c.epoch(), 25);
    assert_eq!(mark.epoch(), 25);
    assert_eq!(mark.path(), &vec![1u64]);
}

#[test]
fn new_clock_is_a_root() {
    let c = EventGenerator::new(9);
    assert_eq!(c.context_id(), 9);
    assert_eq!(c.path(), &vec![0u64]);
    assert!(c.epoch() > 1_500_000_000_000_000);
}

#[test]
fn clock_key_and_text() {
    let mut c = EventGenerator::root(12, 345);
    c.bump_at(345);
    let child = c.fork();
    let e = child.epoch();
    assert_eq!(child.key(), format!("EventGenerator {{ thread_id: 12, event_id: [2, 0], epoch: {} }}", e));
    assert_eq!(child.to_text(), format!("Thread id 12, Event id [2, 0] epoch {}", e));
    let mut root = EventGenerator::root(0, 345);
    root.bump_at(345);
    assert_eq!(root.key(), "EventGenerator { thread_id: 0, event_id: [1], epoch: 345 }".to_string());
}

#[test]
fn set_context_id_moves_clock() {
    let mut c = EventGenerator::root(1, 0);
    c.set_context_id(44);
    assert_eq!(c.context_id(), 44);
    assert_eq!(c.path(), &vec![0u64]);
}

#[test]
fn micros_from_seconds_and_nanos() {
    assert_eq!(micros_since_epoch(1, 500_000_000), 1_500_000);
    assert_eq!(micros_since_epoch(1_600_000_000, 123_456_789), 1_600_000_000_123_456);
    assert_eq!(micros_since_epoch(-1, 0), 0);
    assert_eq!(micros_since_epoch(i64::MAX, 999_999_999), u64::MAX);
    assert!(timestamp() > 1_500_000_000_000_000);
}

#[test]
fn parse_thread_debug_text() {
    assert_eq!(parse("ThreadId(8)"), Some(8));
    assert_eq!(parse("ThreadId(123)"), Some(123));
    assert_eq!(parse("ThreadId(+5)"), Some(5));
    assert_eq!(parse("ThreadId(18446744073709551615)"), Some(u64::MAX));
    assert_eq!(parse("ThreadId(18446744073709551616)"), None);
    assert_eq!(parse("ThreadId()"), None);
    assert_eq!(parse("ThreadId(x1)"), None);
    assert_eq!(parse("ThreadId"), None);
    assert_eq!(parse("(42"), Some(42));
    assert_eq!(parse("a(7(9)"), Some(7));
}

#[test]
fn decimal_rendering() {
    assert_eq!(render_decimal(0), "0".to_string());
    assert_eq!(render_decimal(1234), "1234".to_string());
    assert_eq!(render_decimal(u64::MAX), "18446744073709551615".to_string());
}
