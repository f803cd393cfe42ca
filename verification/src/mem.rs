use std::collections::VecDeque;

use vstd::prelude::*;

use crate::index::Index;
use crate::record::Record;

verus! {

/// The mathematical content of an in-memory log: the entries in the order
/// they were appended, and whether the log's owner has gone away.
#[verifier::ext_equal]
pub struct LogModel<T> {
    pub entries: Seq<T>,
    pub closed: bool,
}

impl<T> LogModel<T> {
    /// An open log without entries.
    pub open spec fn empty() -> Self {
        LogModel { entries: Seq::empty(), closed: false }
    }

    /// The log after `item` was appended.
    pub open spec fn appended(self, item: T) -> Self {
        LogModel { entries: self.entries.push(item), ..self }
    }

    /// The position the next append receives.
    pub open spec fn next_pos(self) -> nat {
        self.entries.len()
    }

    /// The entry at position `i`, if there is one.
    pub open spec fn lookup(self, i: int) -> Option<T> {
        if 0 <= i < self.entries.len() {
            Some(self.entries[i])
        } else {
            None
        }
    }

    /// The log after it was closed.
    pub open spec fn closed_log(self) -> Self {
        LogModel { closed: true, ..self }
    }

    /// What a reader waiting for position `i` learns right now.
    pub open spec fn poll(self, i: int) -> WaitOutcome<T> {
        if 0 <= i < self.entries.len() {
            WaitOutcome::Ready(self.entries[i])
        } else if self.closed {
            WaitOutcome::Closed
        } else {
            WaitOutcome::Pending
        }
    }
}

/// What a reader waiting for a position learns from one look at the log.
pub enum WaitOutcome<T> {
    /// The entry is there.
    Ready(T),
    /// The entry is not there and never will be: the log is closed.
    Closed,
    /// The entry is not there yet: wait for the next append and look again.
    Pending,
}

/// The state that an in-memory log keeps behind its lock: the entries and
/// whether the log was closed.
pub struct LogInner<T> {
    entries: VecDeque<T>,
    closed: bool,
}

impl<T> View for LogInner<T> {
    type V = LogModel<T>;

    closed spec fn view(&self) -> LogModel<T> {
        LogModel { entries: self.entries@, closed: self.closed }
    }
}

impl<T> LogInner<T> {
    /// An open, empty log.
    pub fn new() -> (r: Self)
        ensures
            r@ == LogModel::<T>::empty(),
    {
        LogInner { entries: VecDeque::new(), closed: false }
    }

    /// Number of entries.
    pub fn len(&self) -> (r: usize)
        ensures
            r == self@.entries.len(),
    {
        self.entries.len()
    }

    /// Whether the log was closed.
    pub fn is_closed(&self) -> (r: bool)
        ensures
            r == self@.closed,
    {
        self.closed
    }

    /// Appends `item` and returns the position it was stored at, which is
    /// the number of entries before the call.
    pub fn append(&mut self, item: T) -> (r: Index)
        ensures
            final(self)@ == old(self)@.appended(item),
            r.pos() == old(self)@.next_pos(),
    {
        let pos = self.entries.len() as u64;
        self.entries.push_back(item);
        proof {
            Index::lemma_spec_from_u64(pos);
        }
        Index::from(pos)
    }

    /// Marks the log as closed; readers waiting for an entry that is not
    /// there are then told so instead of waiting.
    pub fn close(&mut self)
        ensures
            final(self)@ == old(self)@.closed_log(),
    {
        self.closed = true;
    }

    /// The entry at position `index`, if there is one.
    pub fn get(&self, index: usize) -> (r: Option<&T>)
        ensures
            match r {
                Some(x) => self@.lookup(index as int) == Some(*x),
                None => self@.lookup(index as int) is None,
            },
    {
        if index < self.entries.len() {
            Some(&self.entries[index])
        } else {
            None
        }
    }

    /// The entry at `index`, if that position fits a `usize` and holds an
    /// entry.
    pub fn lookup(&self, index: Index) -> (r: Option<&T>)
        ensures
            match r {
                Some(x) => self@.lookup(index.pos() as int) == Some(*x),
                None => self@.lookup(index.pos() as int) is None,
            },
    {
        proof {
            crate::index::lemma_usize_conversion(index);
        }
        match usize::try_from(index) {
            Ok(i) => self.get(i),
            Err(_) => {
                proof {
                    // The position exceeds `usize::MAX`, so no entry can sit there.
                    broadcast use vstd::std_specs::vecdeque::axiom_spec_len;
                    assert(self.entries@.len() == self.entries.len());
                }
                None
            },
        }
    }

    /// One look at the log on behalf of a reader waiting for `index`.
    pub fn poll(&self, index: usize) -> (r: WaitOutcome<&T>)
        ensures
            match (r, self@.poll(index as int)) {
                (WaitOutcome::Ready(x), WaitOutcome::Ready(y)) => *x == y,
                (WaitOutcome::Closed, WaitOutcome::Closed) => true,
                (WaitOutcome::Pending, WaitOutcome::Pending) => true,
                _ => false,
            },
    {
        if index < self.entries.len() {
            WaitOutcome::Ready(&self.entries[index])
        } else if self.closed {
            WaitOutcome::Closed
        } else {
            WaitOutcome::Pending
        }
    }
}

impl<T: Clone> LogInner<T> {
    /// The record at `index`: a copy of the entry stored there, paired with
    /// `index`, or `None` where there is no entry.
    pub fn get_record(&self, index: Index) -> (r: Option<Record<T>>)
        ensures
            match r {
                Some(rec) => {
                    &&& self@.lookup(index.pos() as int) is Some
                    &&& rec.index == index
                    &&& cloned(self@.lookup(index.pos() as int)->0, rec.data)
                },
                None => self@.lookup(index.pos() as int) is None,
            },
    {
        match self.lookup(index) {
            Some(x) => Some(Record::new(index, x.clone())),
            None => None,
        }
    }

    /// One step of a reader whose next position is `*cursor`: where the
    /// entry is there, a copy of it is handed out and the cursor moves on by
    /// one; otherwise the cursor stays.
    pub fn poll_next(&self, cursor: &mut usize) -> (r: WaitOutcome<T>)
        ensures
            match (r, self@.poll(*old(cursor) as int)) {
                (WaitOutcome::Ready(x), WaitOutcome::Ready(y)) => {
                    &&& cloned(y, x)
                    &&& *final(cursor) == *old(cursor) + 1
                },
                (WaitOutcome::Closed, WaitOutcome::Closed) => *final(cursor) == *old(cursor),
                (WaitOutcome::Pending, WaitOutcome::Pending) => *final(cursor) == *old(cursor),
                _ => false,
            },
    {
        let i = *cursor;
        if i < self.entries.len() {
            let item = self.entries[i].clone();
            *cursor = i + 1;
            WaitOutcome::Ready(item)
        } else if self.closed {
            WaitOutcome::Closed
        } else {
            WaitOutcome::Pending
        }
    }
}

/// What is appended can be read back at the position the append returned.
pub proof fn lemma_read_after_append<T>(log: LogModel<T>, item: T)
    ensures
        log.appended(item).lookup(log.next_pos() as int) == Some(item),
{
}

/// Appending never changes what earlier positions hold, and positions past
/// the new last one stay empty.
pub proof fn lemma_append_keeps_earlier_entries<T>(log: LogModel<T>, item: T, i: int)
    ensures
        i != log.next_pos() ==> log.appended(item).lookup(i) == log.lookup(i),
{
}

/// Successive appends receive successive positions.
pub proof fn lemma_positions_are_sequential<T>(log: LogModel<T>, a: T, b: T)
    ensures
        log.appended(a).next_pos() == log.next_pos() + 1,
        log.appended(a).appended(b).lookup(log.next_pos() as int) == Some(a),
        log.appended(a).appended(b).lookup(log.next_pos() + 1int) == Some(b),
{
}

/// Closing a log keeps every entry readable, and a reader of a closed log is
/// never left waiting.
pub proof fn lemma_close_keeps_entries<T>(log: LogModel<T>, i: int)
    ensures
        log.closed_log().lookup(i) == log.lookup(i),
        !(log.closed_log().poll(i) is Pending),
        log.closed_log().poll(i) is Ready <==> log.lookup(i) is Some,
{
}

/// A reader waiting on an open log for a position not yet written is told
/// to wait, and after the append that fills the position it gets that entry.
pub proof fn lemma_waiting_reader_sees_next_append<T>(log: LogModel<T>, item: T)
    requires
        !log.closed,
    ensures
        log.poll(log.next_pos() as int) is Pending,
        log.appended(item).poll(log.next_pos() as int) == WaitOutcome::Ready(item),
{
}

/// A reader waiting for a position that holds an entry gets exactly that
/// entry, whether or not the log is closed; it waits only past the end of an
/// open log and is told the log is closed only past the end of a closed one.
pub proof fn lemma_poll_reads_its_own_position<T>(log: LogModel<T>, i: int)
    ensures
        0 <= i < log.entries.len() ==> log.poll(i) == WaitOutcome::Ready(log.entries[i]),
        0 <= i < log.entries.len() ==> log.closed_log().poll(i) == WaitOutcome::Ready(log.entries[i]),
        log.poll(i) is Ready ==> 0 <= i < log.entries.len(),
        log.poll(i) is Pending <==> (!(0 <= i < log.entries.len()) && !log.closed),
        log.poll(i) is Closed <==> (!(0 <= i < log.entries.len()) && log.closed),
        log.lookup(i) is Some ==> log.poll(i) == WaitOutcome::Ready(log.lookup(i)->0),
{
}

/// The log after appending `items` one after the other.
pub open spec fn appended_all<T>(log: LogModel<T>, items: Seq<T>) -> LogModel<T>
    decreases items.len(),
{
    if items.len() == 0 {
        log
    } else {
        appended_all(log, items.drop_last()).appended(items.last())
    }
}

/// Appending only adds the item at the end: the earlier entries stay, the
/// item becomes the last entry, and whether the log is closed is unchanged.
/// After any number of appends the log holds the old entries followed by the
/// new items, and an open log is still open.
pub proof fn lemma_appends_only_extend<T>(log: LogModel<T>, item: T, items: Seq<T>)
    ensures
        log.appended(item).closed == log.closed,
        log.appended(item).entries == log.entries.push(item),
        log.appended(item).entries.len() == log.entries.len() + 1,
        appended_all(log, items).closed == log.closed,
        appended_all(log, items).entries == log.entries + items,
        !log.closed ==> appended_all(log, items).poll((log.entries.len() + items.len()) as int) is Pending,
    decreases items.len(),
{
    if items.len() > 0 {
        lemma_appends_only_extend(log, items.last(), items.drop_last());
        assert(log.entries + items =~= (log.entries + items.drop_last()).push(items.last()));
    } else {
        assert(log.entries + items =~= log.entries);
    }
}

/// A new log is open and empty; the next append goes to the position equal
/// to the number of entries; a lookup finds exactly the entry at its
/// position, and nothing outside the entries; closing marks the log closed
/// and keeps the entries.
pub proof fn lemma_log_basics<T>(log: LogModel<T>, i: int)
    ensures
        LogModel::<T>::empty().entries.len() == 0,
        !LogModel::<T>::empty().closed,
        log.next_pos() == log.entries.len(),
        log.lookup(i) is Some <==> 0 <= i < log.entries.len(),
        log.lookup(i) is Some ==> log.lookup(i)->0 == log.entries[i],
        log.closed_log().closed,
        log.closed_log().entries == log.entries,
{
}

} // verus!
