use vstd::prelude::*;

use crate::index::Index;
use crate::record::Record;

verus! {

/// Why a run of an actor stopped early: the consumer, the appender or the
/// state store failed, with the error that it reported.
#[derive(Debug)]
pub enum RunError<CE, AE, SE> {
    Consumer(CE),
    Appender(AE),
    StateStore(SE),
}

/// Where a run of an actor stands between two pieces of outside work.
#[derive(Debug, Clone, Copy, PartialEq, Eq, Structural)]
pub enum RunPhase {
    /// The saved state is being loaded.
    Loading,
    /// The next record is being fetched.
    Fetching,
    /// A record at or before the restored position is being acknowledged.
    Skipping,
    /// The actor is handling the record at this position.
    Handling(Index),
    /// The outputs of the record at this position are being appended.
    Appending(Index),
    /// The state after the record at this position is being saved.
    Saving(Index),
    /// A handled record is being acknowledged.
    Acking,
    /// The run is over.
    Done,
}

/// What the outside world reports back to a run: the result of the last
/// piece of work it was asked to do.
pub enum RunEvent<E, S, CE, AE, SE> {
    /// The state store's answer to a load: the saved state and the position
    /// of the last record it reflects, if anything was saved.
    Loaded(Result<Option<(S, Index)>, SE>),
    /// The consumer's next record, or `None` when there is none.
    Fetched(Result<Option<Record<E>>, CE>),
    /// The actor's outputs and next state.
    Handled(Vec<E>, S),
    /// The appender's answer to an append.
    Appended(Result<Index, AE>),
    /// The state store's answer to a save.
    Saved(Result<(), SE>),
    /// The consumer's answer to an acknowledgement.
    Acked(Result<(), CE>),
}

/// The next piece of outside work a run asks for.
pub enum RunAction<E, S, CE, AE, SE> {
    /// Fetch the next record from the consumer.
    Fetch,
    /// Let the actor handle this event in this state.
    Handle(E, S),
    /// Append this output to the log.
    Append(E),
    /// Save the current state together with this position.
    Save(Index),
    /// Acknowledge the current record to the consumer.
    Ack,
    /// Stop, with this result.
    Finish(Result<(), RunError<CE, AE, SE>>),
}

/// The mathematical content of a run: the actor's state (absent while the
/// actor holds it), the position the restored state reflects, the phase, and
/// the outputs still to append.
pub struct RunModel<S, E> {
    pub state: Option<S>,
    pub last_index: Option<Index>,
    pub phase: RunPhase,
    pub pending: Seq<E>,
}

impl<S, E> RunModel<S, E> {
    /// The state is held by the run except while the actor handles a record,
    /// and outputs wait to be appended only while appending (or after a run
    /// that failed while appending).
    pub open spec fn wf(self) -> bool {
        &&& (self.phase is Handling) == (self.state is None)
        &&& !(self.phase is Appending || self.phase is Done) ==> self.pending.len() == 0
    }

    /// The model in `phase`, with everything else kept.
    pub open spec fn with_phase(self, phase: RunPhase) -> Self {
        RunModel { phase, ..self }
    }
}

/// Whether `event` answers the work that a run in `phase` asked for.
pub open spec fn accepts<E, S, CE, AE, SE>(phase: RunPhase, event: RunEvent<E, S, CE, AE, SE>) -> bool {
    match (phase, event) {
        (RunPhase::Loading, RunEvent::Loaded(_)) => true,
        (RunPhase::Fetching, RunEvent::Fetched(_)) => true,
        (RunPhase::Skipping, RunEvent::Acked(_)) => true,
        (RunPhase::Handling(_), RunEvent::Handled(_, _)) => true,
        (RunPhase::Appending(_), RunEvent::Appended(_)) => true,
        (RunPhase::Saving(_), RunEvent::Saved(_)) => true,
        (RunPhase::Acking, RunEvent::Acked(_)) => true,
        _ => false,
    }
}

/// Whether a record at `index` is already reflected by the restored state.
pub open spec fn already_processed(last_index: Option<Index>, index: Index) -> bool {
    match last_index {
        Some(last) => index.pos() <= last.pos(),
        None => false,
    }
}

/// With the outputs of the record at `index` known and `outs` still to
/// append: ask for the first of them, or, where there is none, for the save.
pub open spec fn after_outputs<S, E, CE, AE, SE>(
    state: S,
    last_index: Option<Index>,
    index: Index,
    outs: Seq<E>,
) -> (RunModel<S, E>, RunAction<E, S, CE, AE, SE>) {
    if outs.len() > 0 {
        (
            RunModel {
                state: Some(state),
                last_index,
                phase: RunPhase::Appending(index),
                pending: outs.drop_first(),
            },
            RunAction::Append(outs[0]),
        )
    } else {
        (
            RunModel { state: Some(state), last_index, phase: RunPhase::Saving(index), pending: outs },
            RunAction::Save(index),
        )
    }
}

/// One transition of a run: the model after `event` and the next piece of
/// work.
pub open spec fn run_step<E, S, CE, AE, SE>(
    m: RunModel<S, E>,
    event: RunEvent<E, S, CE, AE, SE>,
) -> (RunModel<S, E>, RunAction<E, S, CE, AE, SE>) {
    let done = m.with_phase(RunPhase::Done);
    match event {
        RunEvent::Loaded(Err(e)) => (done, RunAction::Finish(Err(RunError::StateStore(e)))),
        RunEvent::Loaded(Ok(Some((s, i)))) => (
            RunModel { state: Some(s), last_index: Some(i), ..m.with_phase(RunPhase::Fetching) },
            RunAction::Fetch,
        ),
        RunEvent::Loaded(Ok(None)) => (m.with_phase(RunPhase::Fetching), RunAction::Fetch),
        RunEvent::Fetched(Err(e)) => (done, RunAction::Finish(Err(RunError::Consumer(e)))),
        RunEvent::Fetched(Ok(None)) => (done, RunAction::Finish(Ok(()))),
        RunEvent::Fetched(Ok(Some(rec))) => if already_processed(m.last_index, rec.index) {
            (m.with_phase(RunPhase::Skipping), RunAction::Ack)
        } else {
            (
                RunModel { state: None, ..m.with_phase(RunPhase::Handling(rec.index)) },
                RunAction::Handle(rec.data, m.state->0),
            )
        },
        RunEvent::Handled(outs, s) => after_outputs(s, m.last_index, m.phase->Handling_0, outs@),
        RunEvent::Appended(Err(e)) => (done, RunAction::Finish(Err(RunError::Appender(e)))),
        RunEvent::Appended(Ok(_)) => after_outputs(
            m.state->0,
            m.last_index,
            m.phase->Appending_0,
            m.pending,
        ),
        RunEvent::Saved(Err(e)) => (done, RunAction::Finish(Err(RunError::StateStore(e)))),
        RunEvent::Saved(Ok(())) => (m.with_phase(RunPhase::Acking), RunAction::Ack),
        RunEvent::Acked(Err(e)) => (done, RunAction::Finish(Err(RunError::Consumer(e)))),
        RunEvent::Acked(Ok(())) => (m.with_phase(RunPhase::Fetching), RunAction::Fetch),
    }
}

/// A run of an actor against one log, driven from outside: each call of
/// [`Runner::step`] takes the result of the last piece of work and says what
/// to do next. The state is saved before each acknowledgement, so a record
/// is handled at least once; records at or before the position of a
/// restored state are acknowledged without being handled.
pub struct Runner<S, E> {
    state: Option<S>,
    last_index: Option<Index>,
    phase: RunPhase,
    pending: Vec<E>,
}

impl<S, E> Runner<S, E> {
    /// A run is always well-formed.
    #[verifier::type_invariant]
    closed spec fn inv(&self) -> bool {
        self.model().wf()
    }

    /// The model of this run.
    pub closed spec fn model(&self) -> RunModel<S, E> {
        RunModel {
            state: self.state,
            last_index: self.last_index,
            phase: self.phase,
            pending: self.pending@,
        }
    }

    /// The phase the run is in.
    pub fn phase(&self) -> (r: RunPhase)
        ensures
            r == self.model().phase,
    {
        self.phase
    }

    /// Whether the run is over.
    pub fn is_done(&self) -> (r: bool)
        ensures
            r == (self.model().phase == RunPhase::Done),
    {
        match self.phase {
            RunPhase::Done => true,
            _ => false,
        }
    }

    /// The actor's current state, unless the actor holds it.
    pub fn state(&self) -> (r: Option<&S>)
        ensures
            self.model().wf(),
            match r {
                Some(s) => self.model().state == Some(*s),
                None => self.model().state is None,
            },
    {
        proof {
            use_type_invariant(self);
        }
        match &self.state {
            Some(s) => Some(s),
            None => None,
        }
    }

    /// Whether `event` answers the work this run asked for last.
    pub fn accepts<CE, AE, SE>(&self, event: &RunEvent<E, S, CE, AE, SE>) -> (r: bool)
        ensures
            r == accepts(self.model().phase, *event),
    {
        match (self.phase, event) {
            (RunPhase::Loading, RunEvent::Loaded(_)) => true,
            (RunPhase::Fetching, RunEvent::Fetched(_)) => true,
            (RunPhase::Skipping, RunEvent::Acked(_)) => true,
            (RunPhase::Handling(_), RunEvent::Handled(_, _)) => true,
            (RunPhase::Appending(_), RunEvent::Appended(_)) => true,
            (RunPhase::Saving(_), RunEvent::Saved(_)) => true,
            (RunPhase::Acking, RunEvent::Acked(_)) => true,
            _ => false,
        }
    }

    /// Takes the result of the last piece of work and returns the run after
    /// it together with the next piece of work.
    pub fn step<CE, AE, SE>(self, event: RunEvent<E, S, CE, AE, SE>) -> (r: (
        Self,
        RunAction<E, S, CE, AE, SE>,
    ))
        requires
            accepts(self.model().phase, event),
        ensures
            r.0.model().wf(),
            (r.0.model(), r.1) == run_step(self.model(), event),
    {
        proof {
            use_type_invariant(&self);
        }
        let Runner { state, last_index, phase, pending } = self;
        match event {
            RunEvent::Loaded(Err(e)) => {
                let r = Runner { state, last_index, phase: RunPhase::Done, pending };
                (r, RunAction::Finish(Err(RunError::StateStore(e))))
            },
            RunEvent::Loaded(Ok(Some((s, i)))) => {
                let r = Runner { state: Some(s), last_index: Some(i), phase: RunPhase::Fetching, pending };
                (r, RunAction::Fetch)
            },
            RunEvent::Loaded(Ok(None)) => {
                let r = Runner { state, last_index, phase: RunPhase::Fetching, pending };
                (r, RunAction::Fetch)
            },
            RunEvent::Fetched(Err(e)) => {
                let r = Runner { state, last_index, phase: RunPhase::Done, pending };
                (r, RunAction::Finish(Err(RunError::Consumer(e))))
            },
            RunEvent::Fetched(Ok(None)) => {
                let r = Runner { state, last_index, phase: RunPhase::Done, pending };
                (r, RunAction::Finish(Ok(())))
            },
            RunEvent::Fetched(Ok(Some(rec))) => {
                let skip = match last_index {
                    Some(last) => rec.index <= last,
                    None => false,
                };
                if skip {
                    let r = Runner { state, last_index, phase: RunPhase::Skipping, pending };
                    (r, RunAction::Ack)
                } else {
                    let current = state.unwrap();
                    let r = Runner { state: None, last_index, phase: RunPhase::Handling(rec.index), pending };
                    (r, RunAction::Handle(rec.data, current))
                }
            },
            RunEvent::Handled(outs, s) => {
                let index = match phase {
                    RunPhase::Handling(i) => i,
                    _ => Index::from(0u64),
                };
                Self::after_outputs(s, last_index, index, outs)
            },
            RunEvent::Appended(Err(e)) => {
                let r = Runner { state, last_index, phase: RunPhase::Done, pending };
                (r, RunAction::Finish(Err(RunError::Appender(e))))
            },
            RunEvent::Appended(Ok(_)) => {
                let index = match phase {
                    RunPhase::Appending(i) => i,
                    _ => Index::from(0u64),
                };
                Self::after_outputs(state.unwrap(), last_index, index, pending)
            },
            RunEvent::Saved(Err(e)) => {
                let r = Runner { state, last_index, phase: RunPhase::Done, pending };
                (r, RunAction::Finish(Err(RunError::StateStore(e))))
            },
            RunEvent::Saved(Ok(())) => {
                let r = Runner { state, last_index, phase: RunPhase::Acking, pending };
                (r, RunAction::Ack)
            },
            RunEvent::Acked(Err(e)) => {
                let r = Runner { state, last_index, phase: RunPhase::Done, pending };
                (r, RunAction::Finish(Err(RunError::Consumer(e))))
            },
            RunEvent::Acked(Ok(())) => {
                let r = Runner { state, last_index, phase: RunPhase::Fetching, pending };
                (r, RunAction::Fetch)
            },
        }
    }

    /// Asks for the first of `outs`, or for the save where there is none.
    fn after_outputs<CE, AE, SE>(state: S, last_index: Option<Index>, index: Index, outs: Vec<E>) -> (r: (
        Self,
        RunAction<E, S, CE, AE, SE>,
    ))
        ensures
            (r.0.model(), r.1) == after_outputs::<S, E, CE, AE, SE>(state, last_index, index, outs@),
    {
        let mut outs = outs;
        if outs.len() > 0 {
            let first = outs.remove(0);
            let r = Runner { state: Some(state), last_index, phase: RunPhase::Appending(index), pending: outs };
            (r, RunAction::Append(first))
        } else {
            let r = Runner { state: Some(state), last_index, phase: RunPhase::Saving(index), pending: outs };
            (r, RunAction::Save(index))
        }
    }
}

impl<S: Default, E> Runner<S, E> {
    /// A run that first loads the saved state; where nothing was saved, the
    /// actor starts from the state's default value.
    pub fn new() -> (r: Self)
        ensures
            r.model().wf(),
            r.model().phase == RunPhase::Loading,
            r.model().state is Some,
            call_ensures(S::default, (), r.model().state->0),
            r.model().last_index is None,
    {
        Runner { state: Some(S::default()), last_index: None, phase: RunPhase::Loading, pending: Vec::new() }
    }
}


/// The transitions of a run through `events`, in order: the model at the
/// end and the work asked for along the way.
pub open spec fn run_steps<E, S, CE, AE, SE>(
    m: RunModel<S, E>,
    events: Seq<RunEvent<E, S, CE, AE, SE>>,
) -> (RunModel<S, E>, Seq<RunAction<E, S, CE, AE, SE>>)
    decreases events.len(),
{
    if events.len() == 0 {
        (m, Seq::empty())
    } else {
        let (m1, a1) = run_step(m, events[0]);
        let (m2, rest) = run_steps(m1, events.drop_first());
        (m2, seq![a1] + rest)
    }
}

/// The events that answer appends with the given positions.
pub open spec fn appended_all<E, S, CE, AE, SE>(positions: Seq<Index>) -> Seq<RunEvent<E, S, CE, AE, SE>> {
    Seq::new(positions.len(), |k: int| RunEvent::Appended(Ok(positions[k])))
}

/// The append requests for the given outputs, in order.
pub open spec fn append_all<E, S, CE, AE, SE>(outs: Seq<E>) -> Seq<RunAction<E, S, CE, AE, SE>> {
    Seq::new(outs.len(), |k: int| RunAction::Append(outs[k]))
}

/// Running through a single event is one transition.
pub proof fn lemma_run_steps_single<E, S, CE, AE, SE>(m: RunModel<S, E>, e: RunEvent<E, S, CE, AE, SE>)
    ensures
        run_steps(m, seq![e]) == (run_step(m, e).0, seq![run_step(m, e).1]),
{
    let events = seq![e];
    assert(events.drop_first() =~= Seq::<RunEvent<E, S, CE, AE, SE>>::empty());
    let (m1, a1) = run_step(m, e);
    assert(run_steps(m1, events.drop_first()) == (m1, Seq::<RunAction<E, S, CE, AE, SE>>::empty()));
    assert(seq![a1] + Seq::<RunAction<E, S, CE, AE, SE>>::empty() =~= seq![a1]);
}

/// Running through two events is two transitions.
pub proof fn lemma_run_steps_pair<E, S, CE, AE, SE>(
    m: RunModel<S, E>,
    e1: RunEvent<E, S, CE, AE, SE>,
    e2: RunEvent<E, S, CE, AE, SE>,
)
    ensures
        run_steps(m, seq![e1, e2]) == ({
            let (m1, a1) = run_step(m, e1);
            let (m2, a2) = run_step(m1, e2);
            (m2, seq![a1, a2])
        }),
{
    assert(seq![e1, e2] =~= seq![e1] + seq![e2]);
    lemma_run_steps_concat(m, seq![e1], seq![e2]);
    lemma_run_steps_single(m, e1);
    lemma_run_steps_single(run_step(m, e1).0, e2);
    assert(seq![run_step(m, e1).1] + seq![run_step(run_step(m, e1).0, e2).1] =~= seq![run_step(m, e1).1, run_step(run_step(m, e1).0, e2).1]);
}

/// Running through two blocks of events is running through the first and
/// then, from where it ended, through the second.
pub proof fn lemma_run_steps_concat<E, S, CE, AE, SE>(
    m: RunModel<S, E>,
    a: Seq<RunEvent<E, S, CE, AE, SE>>,
    b: Seq<RunEvent<E, S, CE, AE, SE>>,
)
    ensures
        run_steps(m, a + b) == ({
            let (m1, x) = run_steps(m, a);
            let (m2, y) = run_steps(m1, b);
            (m2, x + y)
        }),
    decreases a.len(),
{
    if a.len() == 0 {
        assert(a + b =~= b);
        assert(Seq::<RunAction<E, S, CE, AE, SE>>::empty() + run_steps(m, b).1 =~= run_steps(m, b).1);
    } else {
        let (m1, a1) = run_step(m, a[0]);
        assert((a + b).drop_first() =~= a.drop_first() + b);
        assert((a + b)[0] == a[0]);
        lemma_run_steps_concat(m1, a.drop_first(), b);
        let (mx, x) = run_steps(m1, a.drop_first());
        let (my, y) = run_steps(mx, b);
        assert(seq![a1] + (x + y) =~= (seq![a1] + x) + y);
    }
}

/// While appending the outputs of the record at `index` with `pending`
/// still to go, successful appends ask for the pending outputs in order and
/// then for the save, leaving the state alone.
pub proof fn lemma_appends_then_save<E, S, CE, AE, SE>(
    m: RunModel<S, E>,
    index: Index,
    positions: Seq<Index>,
)
    requires
        m.phase == RunPhase::Appending(index),
        m.state is Some,
        positions.len() == m.pending.len() + 1,
    ensures
        run_steps(m, appended_all::<E, S, CE, AE, SE>(positions)) == (
            RunModel { state: m.state, last_index: m.last_index, phase: RunPhase::Saving(index), pending: Seq::<E>::empty() },
            append_all::<E, S, CE, AE, SE>(m.pending) + seq![RunAction::Save(index)],
        ),
    decreases m.pending.len(),
{
    let events = appended_all::<E, S, CE, AE, SE>(positions);
    let (m1, a1) = run_step(m, events[0]);
    assert(events.drop_first() =~= appended_all::<E, S, CE, AE, SE>(positions.drop_first()));
    if m.pending.len() == 0 {
        assert(m.pending =~= Seq::<E>::empty());
        assert(events =~= seq![events[0]]);
        lemma_run_steps_single(m, events[0]);
        assert(append_all::<E, S, CE, AE, SE>(m.pending) + seq![RunAction::Save(index)] =~= seq![a1]);
    } else {
        lemma_appends_then_save::<E, S, CE, AE, SE>(m1, index, positions.drop_first());
        assert(append_all::<E, S, CE, AE, SE>(m.pending) + seq![RunAction::Save(index)] =~= seq![a1]
            + (append_all::<E, S, CE, AE, SE>(m1.pending) + seq![RunAction::Save(index)]));
    }
}

/// A record newer than the restored position goes through the actor with
/// the current state; then its outputs are appended in the order the actor
/// returned them, then the actor's new state is saved with the record's
/// position, and only then is the record acknowledged and the next one
/// fetched. The state the run holds when it asks for the save, and so the
/// state saved, is the one the actor returned for the record; afterwards the
/// run keeps holding it.
pub proof fn lemma_new_record_is_handled_saved_then_acked<E, S, CE, AE, SE>(
    m: RunModel<S, E>,
    rec: Record<E>,
    outs: Vec<E>,
    next_state: S,
    positions: Seq<Index>,
)
    requires
        m.wf(),
        m.phase == RunPhase::Fetching,
        !already_processed(m.last_index, rec.index),
        positions.len() == outs@.len(),
    ensures
        run_steps(
            m,
            seq![
                RunEvent::<E, S, CE, AE, SE>::Fetched(Ok(Some(rec))),
                RunEvent::Handled(outs, next_state),
            ] + appended_all::<E, S, CE, AE, SE>(positions),
        ) == (
            RunModel { state: Some(next_state), last_index: m.last_index, phase: RunPhase::Saving(rec.index), pending: Seq::<E>::empty() },
            seq![RunAction::<E, S, CE, AE, SE>::Handle(rec.data, m.state->0)] + append_all::<E, S, CE, AE, SE>(outs@) + seq![
                RunAction::Save(rec.index),
            ],
        ),
        run_steps(
            m,
            seq![
                RunEvent::<E, S, CE, AE, SE>::Fetched(Ok(Some(rec))),
                RunEvent::Handled(outs, next_state),
            ] + appended_all::<E, S, CE, AE, SE>(positions) + seq![
                RunEvent::Saved(Ok(())),
                RunEvent::Acked(Ok(())),
            ],
        ) == (
            RunModel { state: Some(next_state), last_index: m.last_index, phase: RunPhase::Fetching, pending: Seq::<E>::empty() },
            seq![RunAction::<E, S, CE, AE, SE>::Handle(rec.data, m.state->0)] + append_all::<E, S, CE, AE, SE>(outs@) + seq![
                RunAction::Save(rec.index),
                RunAction::Ack,
                RunAction::Fetch,
            ],
        ),
{
    let first = seq![
        RunEvent::<E, S, CE, AE, SE>::Fetched(Ok(Some(rec))),
        RunEvent::Handled(outs, next_state),
    ];
    let appends = appended_all::<E, S, CE, AE, SE>(positions);
    let last = seq![RunEvent::<E, S, CE, AE, SE>::Saved(Ok(())), RunEvent::Acked(Ok(()))];
    lemma_run_steps_concat(m, first + appends, last);
    lemma_run_steps_concat(m, first, appends);
    // The first two steps: the actor gets the record, then its answer comes back.
    let (m1, a1) = run_step(m, first[0]);
    let (m2, a2) = run_step(m1, first[1]);
    lemma_run_steps_pair(m, first[0], first[1]);
    assert(first =~= seq![first[0], first[1]]);
    let saving = RunModel { state: Some(next_state), last_index: m.last_index, phase: RunPhase::Saving(rec.index), pending: Seq::<E>::empty() };
    // The appends.
    if outs@.len() == 0 {
        assert(appends =~= Seq::<RunEvent<E, S, CE, AE, SE>>::empty());
        assert(outs@ =~= Seq::<E>::empty());
        assert(m2 == saving);
        assert(run_steps(m2, appends) == (m2, Seq::<RunAction<E, S, CE, AE, SE>>::empty()));
        assert(append_all::<E, S, CE, AE, SE>(outs@) =~= Seq::empty());
    } else {
        lemma_appends_then_save::<E, S, CE, AE, SE>(m2, rec.index, positions);
        assert(append_all::<E, S, CE, AE, SE>(outs@) =~= seq![a2] + append_all::<E, S, CE, AE, SE>(m2.pending));
    }
    // The save and the acknowledgement.
    let (m3, a3) = run_step(saving, last[0]);
    let (m4, a4) = run_step(m3, last[1]);
    lemma_run_steps_pair(saving, last[0], last[1]);
    assert(last =~= seq![last[0], last[1]]);
    let handled = seq![a1, a2];
    if outs@.len() == 0 {
        assert(handled + Seq::<RunAction<E, S, CE, AE, SE>>::empty() + seq![a3, a4] =~= seq![
            RunAction::<E, S, CE, AE, SE>::Handle(rec.data, m.state->0)] + append_all::<E, S, CE, AE, SE>(outs@) + seq![
            RunAction::Save(rec.index), RunAction::Ack, RunAction::Fetch]);
    } else {
        let mid = append_all::<E, S, CE, AE, SE>(m2.pending) + seq![RunAction::<E, S, CE, AE, SE>::Save(rec.index)];
        assert(handled + mid + seq![a3, a4] =~= seq![
            RunAction::<E, S, CE, AE, SE>::Handle(rec.data, m.state->0)] + append_all::<E, S, CE, AE, SE>(outs@) + seq![
            RunAction::Save(rec.index), RunAction::Ack, RunAction::Fetch]);
    }
}

/// A record at or before the position of the restored state is
/// acknowledged without going to the actor: the state is untouched and the
/// next record is fetched.
pub proof fn lemma_processed_record_is_skipped<E, S, CE, AE, SE>(m: RunModel<S, E>, rec: Record<E>)
    requires
        m.wf(),
        m.phase == RunPhase::Fetching,
        already_processed(m.last_index, rec.index),
    ensures
        run_steps(
            m,
            seq![RunEvent::<E, S, CE, AE, SE>::Fetched(Ok(Some(rec))), RunEvent::Acked(Ok(()))],
        ) == (m, seq![RunAction::<E, S, CE, AE, SE>::Ack, RunAction::Fetch]),
{
    lemma_run_steps_pair(m, RunEvent::<E, S, CE, AE, SE>::Fetched(Ok(Some(rec))), RunEvent::Acked(Ok(())));
}

/// A loaded state becomes the actor's state and its position the restored
/// position, so that records up to it are skipped; where nothing was saved
/// the run keeps the state it started with and skips nothing.
pub proof fn lemma_load_restores_state<E, S, CE, AE, SE>(m: RunModel<S, E>, saved: Option<(S, Index)>)
    requires
        m.phase == RunPhase::Loading,
        m.last_index is None,
    ensures
        ({
            let (m1, a) = run_step(m, RunEvent::<E, S, CE, AE, SE>::Loaded(Ok(saved)));
            &&& a == RunAction::<E, S, CE, AE, SE>::Fetch
            &&& m1.phase == RunPhase::Fetching
            &&& match saved {
                Some((s, i)) => {
                    &&& m1.state == Some(s)
                    &&& m1.last_index == Some(i)
                    &&& forall|j: Index| already_processed(m1.last_index, j) <==> j.pos() <= i.pos()
                },
                None => {
                    &&& m1.state == m.state
                    &&& forall|j: Index| !already_processed(m1.last_index, j)
                },
            }
        }),
{
}

/// Whether `event` reports a failure.
pub open spec fn is_failure<E, S, CE, AE, SE>(event: RunEvent<E, S, CE, AE, SE>) -> bool {
    match event {
        RunEvent::Loaded(r) => r is Err,
        RunEvent::Fetched(r) => r is Err,
        RunEvent::Handled(_, _) => false,
        RunEvent::Appended(r) => r is Err,
        RunEvent::Saved(r) => r is Err,
        RunEvent::Acked(r) => r is Err,
    }
}

/// A failure of the consumer, the appender or the state store ends the run
/// with that error, under the variant naming its source, and a finished run
/// takes no further event; the end of the records ends it successfully.
pub proof fn lemma_failures_and_end_stop_the_run<E, S, CE, AE, SE>(
    m: RunModel<S, E>,
    event: RunEvent<E, S, CE, AE, SE>,
)
    requires
        accepts(m.phase, event),
    ensures
        is_failure(event) ==> ({
            let (m1, a) = run_step(m, event);
            &&& m1.phase == RunPhase::Done
            &&& match event {
                RunEvent::Loaded(Err(e)) => a == RunAction::<E, S, CE, AE, SE>::Finish(Err(RunError::StateStore(e))),
                RunEvent::Saved(Err(e)) => a == RunAction::<E, S, CE, AE, SE>::Finish(Err(RunError::StateStore(e))),
                RunEvent::Fetched(Err(e)) => a == RunAction::<E, S, CE, AE, SE>::Finish(Err(RunError::Consumer(e))),
                RunEvent::Acked(Err(e)) => a == RunAction::<E, S, CE, AE, SE>::Finish(Err(RunError::Consumer(e))),
                RunEvent::Appended(Err(e)) => a == RunAction::<E, S, CE, AE, SE>::Finish(Err(RunError::Appender(e))),
                _ => false,
            }
        }),
        event == RunEvent::<E, S, CE, AE, SE>::Fetched(Ok(None)) ==> run_step(m, event) == (
            m.with_phase(RunPhase::Done),
            RunAction::<E, S, CE, AE, SE>::Finish(Ok(())),
        ),
        forall|e: RunEvent<E, S, CE, AE, SE>| !accepts(RunPhase::Done, e),
{
}

/// The events of one new record that goes through without failure: it is
/// fetched, the actor answers with `outs` and `next_state`, the outputs are
/// appended at `positions`, the state is saved and the record acknowledged.
pub open spec fn record_events<E, S, CE, AE, SE>(
    rec: Record<E>,
    outs: Vec<E>,
    next_state: S,
    positions: Seq<Index>,
) -> Seq<RunEvent<E, S, CE, AE, SE>> {
    seq![RunEvent::<E, S, CE, AE, SE>::Fetched(Ok(Some(rec))), RunEvent::Handled(outs, next_state)]
        + appended_all::<E, S, CE, AE, SE>(positions) + seq![RunEvent::Saved(Ok(())), RunEvent::Acked(Ok(()))]
}

/// The work a run asks for while one new record goes through, the actor
/// being handed `state`.
pub open spec fn record_actions<E, S, CE, AE, SE>(
    rec: Record<E>,
    state: S,
    outs: Seq<E>,
) -> Seq<RunAction<E, S, CE, AE, SE>> {
    seq![RunAction::<E, S, CE, AE, SE>::Handle(rec.data, state)] + append_all::<E, S, CE, AE, SE>(outs) + seq![
        RunAction::Save(rec.index),
        RunAction::Ack,
        RunAction::Fetch,
    ]
}

/// The events of the records `recs` going through one after the other, the
/// actor answering the k-th with `answers[k]` and its outputs being appended
/// at `positions[k]`.
pub open spec fn records_events<E, S, CE, AE, SE>(
    recs: Seq<Record<E>>,
    answers: Seq<(Vec<E>, S)>,
    positions: Seq<Seq<Index>>,
) -> Seq<RunEvent<E, S, CE, AE, SE>>
    decreases recs.len(),
{
    if recs.len() == 0 {
        Seq::empty()
    } else {
        let k = recs.len() - 1;
        records_events(recs.drop_last(), answers.drop_last(), positions.drop_last())
            + record_events::<E, S, CE, AE, SE>(recs[k], answers[k].0, answers[k].1, positions[k])
    }
}

/// The state the actor holds after the first `n` records: the one it
/// returned for the last of them, or `initial` before any.
pub open spec fn state_after<E, S>(initial: S, answers: Seq<(Vec<E>, S)>, n: int) -> S {
    if n <= 0 {
        initial
    } else {
        answers[n - 1].1
    }
}

/// The work a run asks for while `recs` go through one after the other.
pub open spec fn records_actions<E, S, CE, AE, SE>(
    initial: S,
    recs: Seq<Record<E>>,
    answers: Seq<(Vec<E>, S)>,
) -> Seq<RunAction<E, S, CE, AE, SE>>
    decreases recs.len(),
{
    if recs.len() == 0 {
        Seq::empty()
    } else {
        let k = recs.len() - 1;
        records_actions(initial, recs.drop_last(), answers.drop_last())
            + record_actions::<E, S, CE, AE, SE>(recs[k], state_after(initial, answers, k), answers[k].0@)
    }
}

/// Records newer than the restored position go through the actor one after
/// the other, each with the state the actor returned for the one before (the
/// starting state for the first); the run asks for exactly the work of
/// handling, appending, saving and acknowledging each in turn, and ends up
/// holding the state returned for the last.
pub proof fn lemma_records_thread_the_state<E, S, CE, AE, SE>(
    m: RunModel<S, E>,
    recs: Seq<Record<E>>,
    answers: Seq<(Vec<E>, S)>,
    positions: Seq<Seq<Index>>,
)
    requires
        m.wf(),
        m.phase == RunPhase::Fetching,
        answers.len() == recs.len(),
        positions.len() == recs.len(),
        forall|k: int| 0 <= k < recs.len() ==> !already_processed(m.last_index, #[trigger] recs[k].index),
        forall|k: int| 0 <= k < recs.len() ==> (#[trigger] positions[k]).len() == answers[k].0@.len(),
    ensures
        run_steps(m, records_events::<E, S, CE, AE, SE>(recs, answers, positions)) == (
            RunModel {
                state: Some(state_after(m.state->0, answers, recs.len() as int)),
                last_index: m.last_index,
                phase: RunPhase::Fetching,
                pending: Seq::<E>::empty(),
            },
            records_actions::<E, S, CE, AE, SE>(m.state->0, recs, answers),
        ),
    decreases recs.len(),
{
    if recs.len() == 0 {
        assert(m.pending =~= Seq::<E>::empty());
        assert(run_steps(m, Seq::<RunEvent<E, S, CE, AE, SE>>::empty()) == (m, Seq::<RunAction<E, S, CE, AE, SE>>::empty()));
    } else {
        let k = recs.len() - 1;
        let front = records_events::<E, S, CE, AE, SE>(recs.drop_last(), answers.drop_last(), positions.drop_last());
        let back = record_events::<E, S, CE, AE, SE>(recs[k], answers[k].0, answers[k].1, positions[k]);
        assert forall|j: int| 0 <= j < recs.drop_last().len() implies !already_processed(
            m.last_index,
            #[trigger] recs.drop_last()[j].index,
        ) by {
            assert(recs.drop_last()[j] == recs[j]);
        }
        assert forall|j: int| 0 <= j < recs.drop_last().len() implies (#[trigger] positions.drop_last()[j]).len()
            == answers.drop_last()[j].0@.len() by {
            assert(positions.drop_last()[j] == positions[j]);
            assert(answers.drop_last()[j] == answers[j]);
        }
        lemma_records_thread_the_state::<E, S, CE, AE, SE>(m, recs.drop_last(), answers.drop_last(), positions.drop_last());
        lemma_run_steps_concat(m, front, back);
        let m1 = run_steps(m, front).0;
        assert(state_after(m.state->0, answers.drop_last(), k) == state_after(m.state->0, answers, k));
        assert(!already_processed(m1.last_index, recs[k].index));
        lemma_new_record_is_handled_saved_then_acked::<E, S, CE, AE, SE>(
            m1,
            recs[k],
            answers[k].0,
            answers[k].1,
            positions[k],
        );
        assert(back =~= seq![RunEvent::<E, S, CE, AE, SE>::Fetched(Ok(Some(recs[k]))), RunEvent::Handled(answers[k].0, answers[k].1)]
            + appended_all::<E, S, CE, AE, SE>(positions[k]) + seq![RunEvent::Saved(Ok(())), RunEvent::Acked(Ok(()))]);
    }
}

/// Every transition keeps a well-formed run well-formed: the state is with
/// the run except while the actor handles a record.
pub proof fn lemma_step_keeps_wf<E, S, CE, AE, SE>(m: RunModel<S, E>, event: RunEvent<E, S, CE, AE, SE>)
    requires
        m.wf(),
        accepts(m.phase, event),
    ensures
        run_step(m, event).0.wf(),
{
}

/// Where nothing was saved, no record counts as processed and the first
/// record goes to the actor with the state the run started with (the state's
/// default value, for a run made by `Runner::new`).
pub proof fn lemma_fresh_run_hands_first_record_the_start_state<E, S, CE, AE, SE>(
    m: RunModel<S, E>,
    rec: Record<E>,
)
    requires
        m.wf(),
        m.phase == RunPhase::Loading,
        m.last_index is None,
    ensures
        run_steps(
            m,
            seq![RunEvent::<E, S, CE, AE, SE>::Loaded(Ok(None)), RunEvent::Fetched(Ok(Some(rec)))],
        ).1 == seq![RunAction::<E, S, CE, AE, SE>::Fetch, RunAction::Handle(rec.data, m.state->0)],
{
    lemma_run_steps_pair(m, RunEvent::<E, S, CE, AE, SE>::Loaded(Ok(None)), RunEvent::Fetched(Ok(Some(rec))));
}

/// Each phase takes every answer, success or failure, to the work it asked
/// for: the saved state or its absence, any record or the end of the log,
/// any outputs and state from the actor (however many outputs there are),
/// any appended position, and any result of a save or an acknowledgement.
pub proof fn lemma_every_answer_is_accepted<E, S, CE, AE, SE>(
    i: Index,
    loaded: Result<Option<(S, Index)>, SE>,
    fetched: Result<Option<Record<E>>, CE>,
    outs: Vec<E>,
    s: S,
    appended: Result<Index, AE>,
    saved: Result<(), SE>,
    acked: Result<(), CE>,
)
    ensures
        accepts(RunPhase::Loading, RunEvent::<E, S, CE, AE, SE>::Loaded(loaded)),
        accepts(RunPhase::Fetching, RunEvent::<E, S, CE, AE, SE>::Fetched(fetched)),
        accepts(RunPhase::Handling(i), RunEvent::<E, S, CE, AE, SE>::Handled(outs, s)),
        accepts(RunPhase::Appending(i), RunEvent::<E, S, CE, AE, SE>::Appended(appended)),
        accepts(RunPhase::Saving(i), RunEvent::<E, S, CE, AE, SE>::Saved(saved)),
        accepts(RunPhase::Acking, RunEvent::<E, S, CE, AE, SE>::Acked(acked)),
        accepts(RunPhase::Skipping, RunEvent::<E, S, CE, AE, SE>::Acked(acked)),
{
}

/// Whatever the actor answers, each of its outputs is asked to be appended,
/// in order, and then the state it returned is saved with the record's
/// position: the answer is taken, its first output (if any) is appended
/// next, and the rest wait their turn.
pub proof fn lemma_handled_answer_appends_every_output<E, S, CE, AE, SE>(
    m: RunModel<S, E>,
    i: Index,
    outs: Vec<E>,
    s: S,
)
    requires
        m.wf(),
        m.phase == RunPhase::Handling(i),
    ensures
        accepts(m.phase, RunEvent::<E, S, CE, AE, SE>::Handled(outs, s)),
        ({
            let (m1, a) = run_step(m, RunEvent::<E, S, CE, AE, SE>::Handled(outs, s));
            &&& m1.state == Some(s)
            &&& m1.last_index == m.last_index
            &&& outs@.len() > 0 ==> {
                &&& a == RunAction::<E, S, CE, AE, SE>::Append(outs@[0])
                &&& m1.phase == RunPhase::Appending(i)
                &&& m1.pending == outs@.subrange(1, outs@.len() as int)
            }
            &&& outs@.len() == 0 ==> a == RunAction::<E, S, CE, AE, SE>::Save(i) && m1.phase == RunPhase::Saving(i)
        }),
{
    let (m1, a) = run_step(m, RunEvent::<E, S, CE, AE, SE>::Handled(outs, s));
    if outs@.len() > 0 {
        assert(outs@.drop_first() =~= outs@.subrange(1, outs@.len() as int));
    }
}

/// A phase takes only answers to the work it asked for: loading only a
/// load's result, fetching only a fetched record, skipping and acknowledging
/// only an acknowledgement, handling only the actor's answer, appending only
/// an append's result, saving only a save's result, and a finished run
/// nothing.
pub proof fn lemma_only_matching_answers_are_accepted<E, S, CE, AE, SE>(
    i: Index,
    e: RunEvent<E, S, CE, AE, SE>,
)
    ensures
        accepts(RunPhase::Loading, e) ==> e is Loaded,
        accepts(RunPhase::Fetching, e) ==> e is Fetched,
        accepts(RunPhase::Skipping, e) ==> e is Acked,
        accepts(RunPhase::Acking, e) ==> e is Acked,
        accepts(RunPhase::Handling(i), e) ==> e is Handled,
        accepts(RunPhase::Appending(i), e) ==> e is Appended,
        accepts(RunPhase::Saving(i), e) ==> e is Saved,
        !accepts(RunPhase::Done, e),
{
}

} // verus!
