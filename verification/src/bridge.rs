use vstd::prelude::*;

use crate::index::Index;
use crate::record::Record;

verus! {

/// Why a bridge stopped early: the consumer of the source log or the
/// appender of the destination log failed, with the error it reported.
#[derive(Debug)]
pub enum BridgeError<CE, AE> {
    Consumer(CE),
    Appender(AE),
}

/// Where a bridge stands between two pieces of outside work.
#[derive(Debug, Clone, Copy, PartialEq, Eq, Structural)]
pub enum BridgePhase {
    /// The next record of the source log is being fetched.
    Fetching,
    /// A mapped record is being appended to the destination log.
    Appending,
    /// The current record is being acknowledged to the source log.
    Acking,
    /// The bridge is over.
    Done,
}

/// What the outside world reports back to a bridge.
pub enum BridgeEvent<T, CE, AE> {
    /// The source consumer's next record, or `None` when there is none.
    Fetched(Result<Option<Record<T>>, CE>),
    /// The destination appender's answer to an append.
    Appended(Result<Index, AE>),
    /// The source consumer's answer to an acknowledgement.
    Acked(Result<(), CE>),
}

/// The next piece of outside work a bridge asks for.
pub enum BridgeAction<U, CE, AE> {
    /// Fetch the next record of the source log.
    Fetch,
    /// Append this item to the destination log.
    Append(U),
    /// Acknowledge the current record to the source log.
    Ack,
    /// Stop, with this result.
    Finish(Result<(), BridgeError<CE, AE>>),
}

/// Whether `event` answers the work that a bridge in `phase` asked for.
pub open spec fn bridge_accepts<T, CE, AE>(phase: BridgePhase, event: BridgeEvent<T, CE, AE>) -> bool {
    match (phase, event) {
        (BridgePhase::Fetching, BridgeEvent::Fetched(_)) => true,
        (BridgePhase::Appending, BridgeEvent::Appended(_)) => true,
        (BridgePhase::Acking, BridgeEvent::Acked(_)) => true,
        _ => false,
    }
}

/// Whether a bridge with mapping `map`, given `event`, may move to `phase`
/// and ask for `action`: a fetched record's data goes through `map`; where it
/// gives an item, that item is to be appended before the record is
/// acknowledged, and where it gives none the record is acknowledged at once.
/// Failures end the bridge with the error under the variant naming its
/// source; the end of the source log ends it successfully.
pub open spec fn bridge_steps_to<T, U, CE, AE, F: Fn(T) -> Option<U>>(
    map: F,
    event: BridgeEvent<T, CE, AE>,
    phase: BridgePhase,
    action: BridgeAction<U, CE, AE>,
) -> bool {
    match event {
        BridgeEvent::Fetched(Err(e)) => {
            &&& phase == BridgePhase::Done
            &&& action == BridgeAction::<U, CE, AE>::Finish(Err(BridgeError::Consumer(e)))
        },
        BridgeEvent::Fetched(Ok(None)) => {
            &&& phase == BridgePhase::Done
            &&& action == BridgeAction::<U, CE, AE>::Finish(Ok(()))
        },
        BridgeEvent::Fetched(Ok(Some(rec))) => match action {
            BridgeAction::Append(out) => {
                &&& call_ensures(map, (rec.data,), Some(out))
                &&& phase == BridgePhase::Appending
            },
            BridgeAction::Ack => {
                &&& call_ensures(map, (rec.data,), None)
                &&& phase == BridgePhase::Acking
            },
            _ => false,
        },
        BridgeEvent::Appended(Err(e)) => {
            &&& phase == BridgePhase::Done
            &&& action == BridgeAction::<U, CE, AE>::Finish(Err(BridgeError::Appender(e)))
        },
        BridgeEvent::Appended(Ok(_)) => {
            &&& phase == BridgePhase::Acking
            &&& action == BridgeAction::<U, CE, AE>::Ack
        },
        BridgeEvent::Acked(Err(e)) => {
            &&& phase == BridgePhase::Done
            &&& action == BridgeAction::<U, CE, AE>::Finish(Err(BridgeError::Consumer(e)))
        },
        BridgeEvent::Acked(Ok(())) => {
            &&& phase == BridgePhase::Fetching
            &&& action == BridgeAction::<U, CE, AE>::Fetch
        },
    }
}

/// The mapping of a plain bridge: every item is forwarded unchanged.
pub fn forward<T>(item: T) -> (r: Option<T>)
    ensures
        r == Some(item),
{
    Some(item)
}

/// A bridge from one log to another, driven from outside: it consumes the
/// source log record by record, appends the mapped item (where the mapping
/// gives one) to the destination log, and only then acknowledges the record.
pub struct Bridge {
    phase: BridgePhase,
}

impl Bridge {
    /// The phase the bridge is in.
    pub closed spec fn spec_phase(&self) -> BridgePhase {
        self.phase
    }

    /// A bridge that first fetches a record.
    pub fn new() -> (r: Self)
        ensures
            r.spec_phase() == BridgePhase::Fetching,
    {
        Bridge { phase: BridgePhase::Fetching }
    }

    /// The phase the bridge is in.
    pub fn phase(&self) -> (r: BridgePhase)
        ensures
            r == self.spec_phase(),
    {
        self.phase
    }

    /// Whether `event` answers the work this bridge asked for last.
    pub fn accepts<T, CE, AE>(&self, event: &BridgeEvent<T, CE, AE>) -> (r: bool)
        ensures
            r == bridge_accepts(self.spec_phase(), *event),
    {
        match (self.phase, event) {
            (BridgePhase::Fetching, BridgeEvent::Fetched(_)) => true,
            (BridgePhase::Appending, BridgeEvent::Appended(_)) => true,
            (BridgePhase::Acking, BridgeEvent::Acked(_)) => true,
            _ => false,
        }
    }

    /// Takes the result of the last piece of work and returns the next one.
    /// A fetched record's data is passed to `map`; where it gives an item,
    /// that item is appended before the record is acknowledged, and where it
    /// gives none the record is acknowledged at once.
    pub fn step<T, U, CE, AE, F: Fn(T) -> Option<U>>(
        &mut self,
        map: &F,
        event: BridgeEvent<T, CE, AE>,
    ) -> (r: BridgeAction<U, CE, AE>)
        requires
            bridge_accepts(old(self).spec_phase(), event),
            forall|x: T| call_requires(*map, (x,)),
        ensures
            bridge_steps_to(*map, event, final(self).spec_phase(), r),
    {
        match event {
            BridgeEvent::Fetched(Err(e)) => {
                self.phase = BridgePhase::Done;
                BridgeAction::Finish(Err(BridgeError::Consumer(e)))
            },
            BridgeEvent::Fetched(Ok(None)) => {
                self.phase = BridgePhase::Done;
                BridgeAction::Finish(Ok(()))
            },
            BridgeEvent::Fetched(Ok(Some(rec))) => {
                match map(rec.data) {
                    Some(out) => {
                        self.phase = BridgePhase::Appending;
                        BridgeAction::Append(out)
                    },
                    None => {
                        self.phase = BridgePhase::Acking;
                        BridgeAction::Ack
                    },
                }
            },
            BridgeEvent::Appended(Err(e)) => {
                self.phase = BridgePhase::Done;
                BridgeAction::Finish(Err(BridgeError::Appender(e)))
            },
            BridgeEvent::Appended(Ok(_)) => {
                self.phase = BridgePhase::Acking;
                BridgeAction::Ack
            },
            BridgeEvent::Acked(Err(e)) => {
                self.phase = BridgePhase::Done;
                BridgeAction::Finish(Err(BridgeError::Consumer(e)))
            },
            BridgeEvent::Acked(Ok(())) => {
                self.phase = BridgePhase::Fetching;
                BridgeAction::Fetch
            },
        }
    }
}

/// A mapped bridge whose mapping hands every item back unchanged moves and
/// asks for work exactly as the plain bridge does: given a fetched record,
/// both can only go on to append the record's data, and every other event is
/// answered alike whatever the mapping.
pub proof fn lemma_identity_map_bridges_like_plain<T, CE, AE, F: Fn(T) -> Option<T>>(
    map: F,
    event: BridgeEvent<T, CE, AE>,
    phase: BridgePhase,
    action: BridgeAction<T, CE, AE>,
)
    requires
        forall|x: T, r: Option<T>| call_ensures(map, (x,), r) ==> r == Some(x),
    ensures
        event matches BridgeEvent::Fetched(Ok(Some(rec))) ==> {
            &&& bridge_steps_to(map, event, phase, action) ==> (phase == BridgePhase::Appending && action
                == BridgeAction::<T, CE, AE>::Append(rec.data))
            &&& bridge_steps_to(forward::<T>, event, phase, action) ==> (phase == BridgePhase::Appending
                && action == BridgeAction::<T, CE, AE>::Append(rec.data))
        },
        !(event matches BridgeEvent::Fetched(Ok(Some(_)))) ==> (bridge_steps_to(map, event, phase, action)
            <==> bridge_steps_to(forward::<T>, event, phase, action)),
{
}

/// A mapped bridge whose mapping never gives an item never appends: every
/// fetched record is acknowledged at once.
pub proof fn lemma_dropping_map_never_appends<T, U, CE, AE, F: Fn(T) -> Option<U>>(
    map: F,
    event: BridgeEvent<T, CE, AE>,
    phase: BridgePhase,
    action: BridgeAction<U, CE, AE>,
)
    requires
        forall|x: T, r: Option<U>| call_ensures(map, (x,), r) ==> r is None,
        bridge_steps_to(map, event, phase, action),
    ensures
        !(action is Append),
        event matches BridgeEvent::Fetched(Ok(Some(_))) ==> phase == BridgePhase::Acking && action
            == BridgeAction::<U, CE, AE>::Ack,
{
}

/// Whether a bridge with mapping `map`, answered with `events` in turn, may
/// go through `phases` asking for `actions`.
pub open spec fn bridge_trace<T, U, CE, AE, F: Fn(T) -> Option<U>>(
    map: F,
    events: Seq<BridgeEvent<T, CE, AE>>,
    phases: Seq<BridgePhase>,
    actions: Seq<BridgeAction<U, CE, AE>>,
) -> bool {
    &&& phases.len() == events.len()
    &&& actions.len() == events.len()
    &&& forall|k: int| 0 <= k < events.len() ==> bridge_steps_to(map, #[trigger] events[k], phases[k], actions[k])
}

/// Answered the same way, a mapped bridge whose mapping hands every item
/// back unchanged asks for the same work, and ends the same way, as the
/// plain bridge: whatever it does the plain bridge does too, and the plain
/// bridge can do only one thing.
pub proof fn lemma_identity_map_trace_is_plain_trace<T, CE, AE, F: Fn(T) -> Option<T>>(
    map: F,
    events: Seq<BridgeEvent<T, CE, AE>>,
    phases: Seq<BridgePhase>,
    actions: Seq<BridgeAction<T, CE, AE>>,
    plain_phases: Seq<BridgePhase>,
    plain_actions: Seq<BridgeAction<T, CE, AE>>,
)
    requires
        forall|x: T, r: Option<T>| call_ensures(map, (x,), r) ==> r == Some(x),
        bridge_trace(map, events, phases, actions),
        bridge_trace(forward::<T>, events, plain_phases, plain_actions),
    ensures
        phases == plain_phases,
        actions == plain_actions,
{
    assert forall|k: int| 0 <= k < events.len() implies phases[k] == plain_phases[k] && actions[k]
        == plain_actions[k] by {
        let e = events[k];
        assert(bridge_steps_to(map, e, phases[k], actions[k]));
        assert(bridge_steps_to(forward::<T>, e, plain_phases[k], plain_actions[k]));
        lemma_identity_map_bridges_like_plain(map, e, phases[k], actions[k]);
        lemma_identity_map_bridges_like_plain(forward::<T>, e, plain_phases[k], plain_actions[k]);
    }
    assert forall|k: int| 0 <= k < events.len() implies #[trigger] actions[k] == plain_actions[k] by {
        assert(phases[k] == plain_phases[k]);
    }
    assert(phases =~= plain_phases);
    assert(actions =~= plain_actions);
}

/// Whatever position the destination gave an appended item, the bridge then
/// acknowledges the source record, and only after that acknowledgement
/// succeeded does it fetch the next record; a failed append or
/// acknowledgement ends the bridge with that error.
pub proof fn lemma_append_then_ack_then_fetch<T, U, CE, AE, F: Fn(T) -> Option<U>>(
    map: F,
    i: Index,
    ae: AE,
    ce: CE,
    phase: BridgePhase,
    action: BridgeAction<U, CE, AE>,
)
    ensures
        bridge_steps_to(map, BridgeEvent::<T, CE, AE>::Appended(Ok(i)), phase, action) <==> (phase
            == BridgePhase::Acking && action == BridgeAction::<U, CE, AE>::Ack),
        bridge_steps_to(map, BridgeEvent::<T, CE, AE>::Acked(Ok(())), phase, action) <==> (phase
            == BridgePhase::Fetching && action == BridgeAction::<U, CE, AE>::Fetch),
        bridge_steps_to(map, BridgeEvent::<T, CE, AE>::Appended(Err(ae)), phase, action) <==> (phase
            == BridgePhase::Done && action == BridgeAction::<U, CE, AE>::Finish(Err(BridgeError::Appender(ae)))),
        bridge_steps_to(map, BridgeEvent::<T, CE, AE>::Acked(Err(ce)), phase, action) <==> (phase
            == BridgePhase::Done && action == BridgeAction::<U, CE, AE>::Finish(Err(BridgeError::Consumer(ce)))),
        bridge_steps_to(map, BridgeEvent::<T, CE, AE>::Fetched(Ok(None)), phase, action) <==> (phase
            == BridgePhase::Done && action == BridgeAction::<U, CE, AE>::Finish(Ok(()))),
{
}

/// A fetched record either has its mapped item appended or, where the map
/// gives none, is acknowledged at once; a bridge never fetches again before
/// it has dealt with the record it holds.
pub proof fn lemma_fetched_record_is_dealt_with<T, U, CE, AE, F: Fn(T) -> Option<U>>(
    map: F,
    rec: Record<T>,
    phase: BridgePhase,
    action: BridgeAction<U, CE, AE>,
)
    requires
        bridge_steps_to(map, BridgeEvent::<T, CE, AE>::Fetched(Ok(Some(rec))), phase, action),
    ensures
        (phase == BridgePhase::Appending && action is Append && call_ensures(map, (rec.data,), Some(action->Append_0)))
            || (phase == BridgePhase::Acking && action == BridgeAction::<U, CE, AE>::Ack && call_ensures(
            map,
            (rec.data,),
            None,
        )),
{
}

} // verus!
