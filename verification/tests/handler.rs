use std::collections::HashMap;

use appendlog::actor::Actor;
use appendlog::handler::{concat_outputs, resume_point, ActorHandler};
use appendlog::index::Index;

#[derive(Debug, Clone, PartialEq)]
enum KvEvent {
    Put { cid: u64, key: String, value: String },
    Get { cid: u64, key: String },
    Delete { cid: u64, key: String },
    Done { cid: u64 },
    Value { cid: u64, value: Option<String> },
    Deleted { cid: u64, existed: bool },
}

struct KvActor;

impl Actor for KvActor {
    type Event = KvEvent;
    type State = HashMap<String, String>;
    type Outputs = Option<KvEvent>;

    fn handle(&self, event: KvEvent, mut state: Self::State) -> (Option<KvEvent>, Self::State) {
        let response = match event {
            KvEvent::Put { cid, key, value } => {
                state.insert(key, value);
                Some(KvEvent::Done { cid })
            }
            KvEvent::Get { cid, key } => {
                let value = state.get(&key).cloned();
                Some(KvEvent::Value { cid, value })
            }
            KvEvent::Delete { cid, key } => {
                let existed = state.remove(&key).is_some();
                Some(KvEvent::Deleted { cid, existed })
            }
            _ => None,
        };
        (response, state)
    }
}

#[test]
fn actor_handler_starts_from_default_and_keeps_state() {
    let mut h = ActorHandler::new(KvActor, ());
    assert!(h.state().is_empty());
    let out = h.handle(KvEvent::Put { cid: 1, key: "name".into(), value: "Alice".into() });
    assert_eq!(out, Some(KvEvent::Done { cid: 1 }));
    let out = h.handle(KvEvent::Get { cid: 2, key: "name".into() });
    assert_eq!(out, Some(KvEvent::Value { cid: 2, value: Some("Alice".into()) }));
    let out = h.handle(KvEvent::Delete { cid: 3, key: "name".into() });
    assert_eq!(out, Some(KvEvent::Deleted { cid: 3, existed: true }));
    let out = h.handle(KvEvent::Get { cid: 4, key: "name".into() });
    assert_eq!(out, Some(KvEvent::Value { cid: 4, value: None }));
    let out = h.handle(KvEvent::Done { cid: 9 });
    assert!(out.is_none());
}

#[test]
fn actor_handler_restore() {
    let mut h = ActorHandler::new(KvActor, "store");
    let mut saved = HashMap::new();
    saved.insert("k".to_string(), "v".to_string());
    assert_eq!(h.restore(Some((saved.clone(), Index::new(4u64)))), Some(Index::new(4u64)));
    assert_eq!(h.state(), &saved);
    assert_eq!(h.restore(None), None);
    assert_eq!(h.state(), &saved);
    assert_eq!(*h.state_store(), "store");
}

#[test]
fn resume_point_is_the_earliest_position() {
    let points = vec![Some(Index::new(5u64)), Some(Index::new(2u64)), Some(Index::new(9u64))];
    assert_eq!(resume_point(&points), Some(Index::new(2u64)));
    assert_eq!(resume_point(&vec![Some(Index::new(3u64))]), Some(Index::new(3u64)));
}

#[test]
fn resume_point_is_none_when_a_handler_restored_nothing() {
    let points = vec![Some(Index::new(5u64)), None, Some(Index::new(1u64))];
    assert_eq!(resume_point(&points), None);
    assert_eq!(resume_point(&vec![None]), None);
    assert_eq!(resume_point(&vec![]), None);
}

#[test]
fn handle_if_skips_events_that_are_not_the_actors() {
    let mut h = ActorHandler::new(KvActor, ());
    assert!(h.handle_if(None).is_none());
    assert!(h.state().is_empty());
    let out = h.handle_if(Some(KvEvent::Put { cid: 1, key: "k".into(), value: "v".into() }));
    assert_eq!(out, Some(Some(KvEvent::Done { cid: 1 })));
    assert_eq!(h.state().get("k"), Some(&"v".to_string()));
    assert!(h.handle_if(None).is_none());
    assert_eq!(h.state().len(), 1);
}

#[test]
fn concat_outputs_keeps_handler_order() {
    let parts = vec![vec![1u8, 2], vec![], vec![3], vec![4, 5]];
    assert_eq!(concat_outputs(parts), vec![1, 2, 3, 4, 5]);
    assert_eq!(concat_outputs::<u8>(vec![]), Vec::<u8>::new());
}
