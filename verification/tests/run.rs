use appendlog::index::Index;
use appendlog::record::Record;
use appendlog::run::{RunAction, RunError, RunEvent, RunPhase, Runner};

type Ev = RunEvent<String, u64, &'static str, &'static str, &'static str>;
type Act = RunAction<String, u64, &'static str, &'static str, &'static str>;

fn ev(e: Ev) -> Ev {
    e
}

fn step(r: Runner<u64, String>, e: Ev) -> (Runner<u64, String>, Act) {
    assert!(r.accepts(&e));
    r.step(e)
}

fn rec(i: u64, s: &str) -> Option<Record<String>> {
    Some(Record::new(Index::new(i), s.to_string()))
}

#[test]
fn fresh_run_handles_appends_saves_then_acks() {
    let r: Runner<u64, String> = Runner::new();
    assert_eq!(r.phase(), RunPhase::Loading);
    assert_eq!(r.state(), Some(&0));
    let (r, a) = step(r, RunEvent::Loaded(Ok(None)));
    assert!(matches!(a, RunAction::Fetch));
    let (r, a) = step(r, RunEvent::Fetched(Ok(rec(0, "a"))));
    match a {
        RunAction::Handle(ev, st) => {
            assert_eq!(ev, "a");
            assert_eq!(st, 0);
        }
        _ => panic!("expected the record to go to the actor"),
    }
    assert_eq!(r.state(), None);
    let (r, a) = step(r, RunEvent::Handled(vec!["a1".to_string(), "a2".to_string()], 1));
    assert!(matches!(a, RunAction::Append(ref o) if o == "a1"));
    let (r, a) = step(r, RunEvent::Appended(Ok(Index::new(1u64))));
    assert!(matches!(a, RunAction::Append(ref o) if o == "a2"));
    let (r, a) = step(r, RunEvent::Appended(Ok(Index::new(2u64))));
    assert!(matches!(a, RunAction::Save(i) if i == Index::new(0u64)));
    assert_eq!(r.state(), Some(&1));
    let (r, a) = step(r, RunEvent::Saved(Ok(())));
    assert!(matches!(a, RunAction::Ack));
    let (r, a) = step(r, RunEvent::Acked(Ok(())));
    assert!(matches!(a, RunAction::Fetch));
    let (r, a) = step(r, RunEvent::Fetched(Ok(None)));
    assert!(matches!(a, RunAction::Finish(Ok(()))));
    assert!(r.is_done());
}

#[test]
fn record_without_outputs_is_saved_at_once() {
    let r: Runner<u64, String> = Runner::new();
    let (r, _) = step(r, RunEvent::Loaded(Ok(None)));
    let (r, _) = step(r, RunEvent::Fetched(Ok(rec(7, "x"))));
    let (r, a) = step(r, RunEvent::Handled(vec![], 9));
    assert!(matches!(a, RunAction::Save(i) if i == Index::new(7u64)));
    assert_eq!(r.state(), Some(&9));
    assert_eq!(r.phase(), RunPhase::Saving(Index::new(7u64)));
}

#[test]
fn restored_state_skips_processed_records() {
    let r: Runner<u64, String> = Runner::new();
    let (r, a) = step(r, RunEvent::Loaded(Ok(Some((5, Index::new(3u64))))));
    assert!(matches!(a, RunAction::Fetch));
    assert_eq!(r.state(), Some(&5));
    let (r, a) = step(r, RunEvent::Fetched(Ok(rec(2, "old"))));
    assert!(matches!(a, RunAction::Ack));
    assert_eq!(r.phase(), RunPhase::Skipping);
    assert_eq!(r.state(), Some(&5));
    let (r, a) = step(r, RunEvent::Acked(Ok(())));
    assert!(matches!(a, RunAction::Fetch));
    let (r, a) = step(r, RunEvent::Fetched(Ok(rec(3, "edge"))));
    assert!(matches!(a, RunAction::Ack));
    let (r, _) = step(r, RunEvent::Acked(Ok(())));
    let (_, a) = step(r, RunEvent::Fetched(Ok(rec(4, "new"))));
    match a {
        RunAction::Handle(ev, st) => {
            assert_eq!(ev, "new");
            assert_eq!(st, 5);
        }
        _ => panic!("a newer record goes to the actor"),
    }
}

#[test]
fn load_failure_is_a_state_store_error() {
    let r: Runner<u64, String> = Runner::new();
    let (r, a) = step(r, RunEvent::Loaded(Err("disk")));
    assert!(matches!(a, RunAction::Finish(Err(RunError::StateStore("disk")))));
    assert!(r.is_done());
    assert!(!r.accepts(&ev(RunEvent::Fetched(Ok(None)))));
}

#[test]
fn fetch_failure_is_a_consumer_error() {
    let r: Runner<u64, String> = Runner::new();
    let (r, _) = step(r, RunEvent::Loaded(Ok(None)));
    let (_, a) = step(r, RunEvent::Fetched(Err("net")));
    assert!(matches!(a, RunAction::Finish(Err(RunError::Consumer("net")))));
}

#[test]
fn append_failure_is_an_appender_error() {
    let r: Runner<u64, String> = Runner::new();
    let (r, _) = step(r, RunEvent::Loaded(Ok(None)));
    let (r, _) = step(r, RunEvent::Fetched(Ok(rec(0, "a"))));
    let (r, _) = step(r, RunEvent::Handled(vec!["o".to_string()], 1));
    let (r, a) = step(r, RunEvent::Appended(Err("full")));
    assert!(matches!(a, RunAction::Finish(Err(RunError::Appender("full")))));
    assert!(r.is_done());
}

#[test]
fn save_failure_is_a_state_store_error_and_nothing_is_acked() {
    let r: Runner<u64, String> = Runner::new();
    let (r, _) = step(r, RunEvent::Loaded(Ok(None)));
    let (r, _) = step(r, RunEvent::Fetched(Ok(rec(0, "a"))));
    let (r, _) = step(r, RunEvent::Handled(vec![], 1));
    let (r, a) = step(r, RunEvent::Saved(Err("kv")));
    assert!(matches!(a, RunAction::Finish(Err(RunError::StateStore("kv")))));
    assert!(!r.accepts(&ev(RunEvent::Acked(Ok(())))));
}

#[test]
fn ack_failure_is_a_consumer_error() {
    let r: Runner<u64, String> = Runner::new();
    let (r, _) = step(r, RunEvent::Loaded(Ok(Some((1, Index::new(0u64))))));
    let (r, _) = step(r, RunEvent::Fetched(Ok(rec(0, "a"))));
    let (_, a) = step(r, RunEvent::Acked(Err("gone")));
    assert!(matches!(a, RunAction::Finish(Err(RunError::Consumer("gone")))));
}

#[test]
fn events_out_of_turn_are_not_accepted() {
    let r: Runner<u64, String> = Runner::new();
    assert!(!r.accepts(&ev(RunEvent::Fetched(Ok(None)))));
    assert!(!r.accepts(&ev(RunEvent::Saved(Ok(())))));
    assert!(r.accepts(&ev(RunEvent::Loaded(Ok(None)))));
}

use appendlog::actor::Actor;

struct Counter;

impl Actor for Counter {
    type Event = String;
    type State = u64;
    type Outputs = Vec<String>;

    fn handle(&self, event: String, state: u64) -> (Vec<String>, u64) {
        (vec![format!("{event}#{state}")], state + 1)
    }
}

#[test]
fn records_thread_the_state() {
    let records = vec![rec(0, "a"), rec(1, "b"), rec(2, "c"), None];
    let mut appended: Vec<String> = Vec::new();
    let mut saved: Vec<(u64, Index)> = Vec::new();
    let mut acks = 0;
    let mut feed = records.into_iter();
    let mut r: Runner<u64, String> = Runner::new();
    let mut e: Ev = RunEvent::Loaded(Ok(None));
    let result = loop {
        let (next, a) = step(r, e);
        r = next;
        e = match a {
            RunAction::Fetch => RunEvent::Fetched(Ok(feed.next().unwrap())),
            RunAction::Handle(ev, st) => {
                let (outs, s) = Counter.handle(ev, st);
                RunEvent::Handled(outs, s)
            }
            RunAction::Append(o) => {
                appended.push(o);
                RunEvent::Appended(Ok(Index::new(appended.len() as u64)))
            }
            RunAction::Save(i) => {
                saved.push((*r.state().unwrap(), i));
                RunEvent::Saved(Ok(()))
            }
            RunAction::Ack => {
                acks += 1;
                assert_eq!(saved.len(), acks, "each acknowledgement comes after the save");
                RunEvent::Acked(Ok(()))
            }
            RunAction::Finish(res) => break res,
        };
    };
    assert!(result.is_ok());
    assert_eq!(appended, vec!["a#0", "b#1", "c#2"]);
    assert_eq!(saved, vec![(1, Index::new(0u64)), (2, Index::new(1u64)), (3, Index::new(2u64))]);
    assert_eq!(r.state(), Some(&3));
}
