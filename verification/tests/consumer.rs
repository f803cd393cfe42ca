use appendlog::consumer::{ConsumerState, NextStep};
use appendlog::index::Index;
use appendlog::record::Record;

#[test]
fn fresh_consumer_fetches() {
    let mut c: ConsumerState<String, u32> = ConsumerState::new();
    assert!(matches!(c.begin_next(), NextStep::Fetch));
    assert!(c.message().is_none());
}

#[test]
fn parsed_record_is_delivered_again_until_acked() {
    let mut c: ConsumerState<String, u32> = ConsumerState::new();
    assert!(c.on_fetched(Some(77)));
    assert!(matches!(c.begin_next(), NextStep::Parse));
    assert_eq!(c.message(), Some(&77));
    let out = c.on_parsed(Some(Record::new(Index::new(3u64), "hi".to_string()))).unwrap();
    assert_eq!(out.index, Index::new(3u64));
    assert_eq!(out.data, "hi");
    match c.begin_next() {
        NextStep::Deliver(again) => {
            assert_eq!(again.index, Index::new(3u64));
            assert_eq!(again.data, "hi");
        }
        _ => panic!("the held record is delivered again"),
    }
    assert_eq!(c.take_for_ack(), Some(77));
    assert!(matches!(c.begin_next(), NextStep::Fetch));
    assert_eq!(c.take_for_ack(), None);
}

#[test]
fn unreadable_message_gives_none_and_stays_held() {
    let mut c: ConsumerState<String, u32> = ConsumerState::new();
    assert!(c.on_fetched(Some(5)));
    assert!(c.on_parsed(None).is_none());
    assert!(matches!(c.begin_next(), NextStep::Parse));
    assert_eq!(c.take_for_ack(), Some(5));
}

#[test]
fn end_of_stream_keeps_consumer_empty() {
    let mut c: ConsumerState<String, u32> = ConsumerState::new();
    assert!(!c.on_fetched(None));
    assert!(matches!(c.begin_next(), NextStep::Fetch));
}

#[test]
fn parse_result_without_unread_message_changes_nothing() {
    let mut c: ConsumerState<String, u32> = ConsumerState::new();
    assert!(c.on_parsed(Some(Record::new(Index::new(1u64), "x".to_string()))).is_none());
    assert!(matches!(c.begin_next(), NextStep::Fetch));
}

#[derive(Debug, PartialEq)]
struct Tagged {
    value: u32,
    copy: bool,
}

impl Clone for Tagged {
    fn clone(&self) -> Self {
        Tagged { value: self.value, copy: true }
    }
}

#[test]
fn the_parsed_record_itself_is_handed_out_and_a_copy_kept() {
    let mut c: ConsumerState<Tagged, u32> = ConsumerState::new();
    assert!(c.on_fetched(Some(1)));
    let out = c.on_parsed(Some(Record::new(Index::new(2u64), Tagged { value: 9, copy: false }))).unwrap();
    assert_eq!(out.data, Tagged { value: 9, copy: false });
    match c.begin_next() {
        NextStep::Deliver(again) => assert_eq!(again.data, Tagged { value: 9, copy: true }),
        _ => panic!("the held record is delivered again"),
    }
}
