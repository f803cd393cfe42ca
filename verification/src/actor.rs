use vstd::prelude::*;

verus! {

/// A state machine that reads events from a log and writes its outputs back
/// to the same log: `(event, state) -> (outputs, state)`.
pub trait Actor {
    type Event;
    type State: Default;
    /// The outputs of one event; iterating them gives the events to append,
    /// in order.
    type Outputs: IntoIterator;

    /// Handles one event: returns the outputs and the next state.
    fn handle(&self, event: Self::Event, state: Self::State) -> (Self::Outputs, Self::State);
}

} // verus!
