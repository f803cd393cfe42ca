use std::cell::RefCell;

use appendlog::index::Index;
use appendlog::mem::LogInner;
use appendlog::record::Record;
use appendlog::traits::{Appender, Lookup};

struct SharedLog<T>(RefCell<LogInner<T>>);

impl<T: Clone> Appender for SharedLog<T> {
    type Item = T;

    fn append(&self, item: T) -> Index {
        self.0.borrow_mut().append(item)
    }
}

impl<T: Clone> Lookup for SharedLog<T> {
    type Item = T;

    fn get(&self, index: Index) -> Option<Record<T>> {
        self.0.borrow().get_record(index)
    }
}

#[test]
fn quick_start_append_then_get() {
    let log = SharedLog(RefCell::new(LogInner::new()));
    let idx = log.append("hello");
    assert_eq!(log.get(idx).map(|r| r.data), Some("hello"));
}

#[test]
fn simple_example_ticks() {
    let log = SharedLog(RefCell::new(LogInner::new()));
    log.append(0u64);
    log.append(1u64);
    assert_eq!(log.get(Index::new(0u64)).map(|r| r.data), Some(0));
    assert_eq!(log.get(Index::new(1u64)).map(|r| r.data), Some(1));
    assert!(log.get(Index::new(2u64)).is_none());
}
