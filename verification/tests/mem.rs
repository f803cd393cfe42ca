use appendlog::index::Index;
use appendlog::mem::{LogInner, WaitOutcome};

#[test]
fn append_returns_sequential_positions() {
    let mut log = LogInner::new();
    assert_eq!(log.append("a"), Index::new(0u64));
    assert_eq!(log.append("b"), Index::new(1u64));
    assert_eq!(log.append("c"), Index::new(2u64));
    assert_eq!(log.len(), 3);
}

#[test]
fn read_after_append_gives_back_the_item() {
    let mut log = LogInner::new();
    let idx = log.append("hello");
    assert_eq!(log.lookup(idx), Some(&"hello"));
    let rec = log.get_record(idx).unwrap();
    assert_eq!(rec.index, idx);
    assert_eq!(rec.data, "hello");
}

#[test]
fn append_keeps_earlier_entries() {
    let mut log = LogInner::new();
    let first = log.append(10u64);
    let second = log.append(20u64);
    assert_eq!(log.lookup(first), Some(&10));
    assert_eq!(log.lookup(second), Some(&20));
    assert_eq!(log.get(0), Some(&10));
    assert_eq!(log.get(1), Some(&20));
}

#[test]
fn lookup_past_the_end_is_none() {
    let mut log = LogInner::new();
    log.append(1u8);
    log.append(2u8);
    assert_eq!(log.get(2), None);
    assert_eq!(log.lookup(Index::new(2u64)), None);
    assert_eq!(log.lookup(Index::new(u64::MAX)), None);
    assert!(log.get_record(Index::new(5u64)).is_none());
}

#[test]
fn empty_log_has_nothing() {
    let log: LogInner<u32> = LogInner::new();
    assert_eq!(log.len(), 0);
    assert!(!log.is_closed());
    assert_eq!(log.get(0), None);
}

#[test]
fn poll_reports_ready_pending_and_closed() {
    let mut log = LogInner::new();
    log.append(5u32);
    assert!(matches!(log.poll(0), WaitOutcome::Ready(&5)));
    assert!(matches!(log.poll(1), WaitOutcome::Pending));
    log.close();
    assert!(log.is_closed());
    assert!(matches!(log.poll(1), WaitOutcome::Closed));
    assert!(matches!(log.poll(0), WaitOutcome::Ready(&5)));
}

#[test]
fn waiting_reader_sees_next_append() {
    let mut log = LogInner::new();
    let mut cursor = 0usize;
    assert!(matches!(log.poll_next(&mut cursor), WaitOutcome::Pending));
    assert_eq!(cursor, 0);
    log.append(String::from("x"));
    match log.poll_next(&mut cursor) {
        WaitOutcome::Ready(s) => assert_eq!(s, "x"),
        _ => panic!("expected the appended entry"),
    }
    assert_eq!(cursor, 1);
}

#[test]
fn reader_yields_entries_in_order_then_stops_when_closed() {
    let mut log = LogInner::new();
    for v in [3u64, 1, 4, 1, 5] {
        log.append(v);
    }
    log.close();
    let mut cursor = 0usize;
    let mut seen = Vec::new();
    loop {
        match log.poll_next(&mut cursor) {
            WaitOutcome::Ready(v) => seen.push(v),
            WaitOutcome::Closed => break,
            WaitOutcome::Pending => panic!("a closed log never leaves a reader waiting"),
        }
    }
    assert_eq!(seen, vec![3, 1, 4, 1, 5]);
    assert_eq!(cursor, 5);
}

#[test]
fn closing_keeps_entries_readable() {
    let mut log = LogInner::new();
    let i = log.append('q');
    log.close();
    assert_eq!(log.lookup(i), Some(&'q'));
    assert_eq!(log.len(), 1);
}
