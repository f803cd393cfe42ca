use vstd::prelude::*;

use crate::record::Record;

verus! {

/// What a message-queue consumer holds between calls: nothing, a message it
/// fetched but could not read as a record, or a message together with the
/// record read from it. A held message stays until it is acknowledged, so
/// that the same record is delivered again until then.
pub enum ConsumerState<T, M> {
    Empty,
    Fetched(M),
    Parsed(Record<T>, M),
}

/// What a consumer must do to answer a request for the next record.
pub enum NextStep<T> {
    /// Hand out this record; a copy of it stays held.
    Deliver(Record<T>),
    /// Read the held message as a record.
    Parse,
    /// Fetch a new message.
    Fetch,
}

impl<T: Clone, M> ConsumerState<T, M> {
    /// A consumer that holds nothing.
    pub fn new() -> (r: Self)
        ensures
            r is Empty,
    {
        ConsumerState::Empty
    }

    /// The message held, if any.
    pub fn message(&self) -> (r: Option<&M>)
        ensures
            match *self {
                ConsumerState::Empty => r is None,
                ConsumerState::Fetched(m) => r == Some(&m),
                ConsumerState::Parsed(_, m) => r == Some(&m),
            },
    {
        match self {
            ConsumerState::Empty => None,
            ConsumerState::Fetched(m) => Some(m),
            ConsumerState::Parsed(_, m) => Some(m),
        }
    }

    /// The first step of answering a request for the next record: a record
    /// still held is handed out again (a copy of it staying held), a held message that could not be read
    /// is read again, and otherwise a new message is fetched.
    pub fn begin_next(&mut self) -> (r: NextStep<T>)
        ensures
            match (*old(self), r) {
                (ConsumerState::Parsed(rec, m), NextStep::Deliver(out)) => {
                    &&& out == rec
                    &&& *final(self) matches ConsumerState::Parsed(kept, km) && km == m
                        && kept.index == rec.index && cloned(rec.data, kept.data)
                },
                (ConsumerState::Fetched(_), NextStep::Parse) => *final(self) == *old(self),
                (ConsumerState::Empty, NextStep::Fetch) => *final(self) == *old(self),
                _ => false,
            },
    {
        let mut state = ConsumerState::Empty;
        std::mem::swap(&mut state, self);
        match state {
            ConsumerState::Parsed(rec, m) => {
                *self = ConsumerState::Parsed(rec.clone(), m);
                NextStep::Deliver(rec)
            },
            ConsumerState::Fetched(m) => {
                *self = ConsumerState::Fetched(m);
                NextStep::Parse
            },
            ConsumerState::Empty => NextStep::Fetch,
        }
    }

    /// Takes a freshly fetched message, or `None` at the end of the stream;
    /// returns whether there is a message to read. A fetched message is held
    /// from now on; at the end of the stream nothing changes.
    pub fn on_fetched(&mut self, fetched: Option<M>) -> (r: bool)
        ensures
            match fetched {
                Some(m) => r && *final(self) == ConsumerState::<T, M>::Fetched(m),
                None => !r && *final(self) == *old(self),
            },
    {
        match fetched {
            Some(m) => {
                *self = ConsumerState::Fetched(m);
                true
            },
            None => false,
        }
    }

    /// Takes what reading the held message gave. A record is handed out and
    /// a copy of it is kept together with the message; where the message could not
    /// be read, it stays held and `None` is handed out. Where no unread
    /// message is held, nothing changes and `None` is handed out.
    pub fn on_parsed(&mut self, parsed: Option<Record<T>>) -> (r: Option<Record<T>>)
        ensures
            !(*old(self) is Fetched) ==> *final(self) == *old(self) && r is None,
            *old(self) is Fetched ==> match parsed {
                Some(rec) => {
                    &&& r == Some(rec)
                    &&& *final(self) matches ConsumerState::Parsed(kept, km) && km == old(self)->Fetched_0
                        && kept.index == rec.index && cloned(rec.data, kept.data)
                },
                None => {
                    &&& *final(self) == *old(self)
                    &&& r is None
                },
            },
    {
        match parsed {
            Some(rec) => {
                let mut state = ConsumerState::Empty;
                std::mem::swap(&mut state, self);
                match state {
                    ConsumerState::Fetched(m) => {
                        *self = ConsumerState::Parsed(rec.clone(), m);
                        Some(rec)
                    },
                    other => {
                        *self = other;
                        None
                    },
                }
            },
            None => None,
        }
    }

    /// Lets go of what is held and returns the message to acknowledge, if
    /// any.
    pub fn take_for_ack(&mut self) -> (r: Option<M>)
        ensures
            *final(self) is Empty,
            match *old(self) {
                ConsumerState::Empty => r is None,
                ConsumerState::Fetched(m) => r == Some(m),
                ConsumerState::Parsed(_, m) => r == Some(m),
            },
    {
        let mut state = ConsumerState::Empty;
        std::mem::swap(&mut state, self);
        match state {
            ConsumerState::Empty => None,
            ConsumerState::Fetched(m) => Some(m),
            ConsumerState::Parsed(_, m) => Some(m),
        }
    }
}

} // verus!
