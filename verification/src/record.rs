use vstd::prelude::*;

use crate::index::Index;

verus! {

/// One entry of a log together with the position it was read from.
#[derive(Debug)]
pub struct Record<T> {
    pub index: Index,
    pub data: T,
}

impl<T> Record<T> {
    /// Pairs a position with the data stored there.
    pub fn new(index: Index, data: T) -> (r: Self)
        ensures
            r.index == index,
            r.data == data,
    {
        Record { index, data }
    }
}

impl<T: Clone> Clone for Record<T> {
    fn clone(&self) -> (r: Self)
        ensures
            r.index == self.index,
            cloned(self.data, r.data),
    {
        Record { index: self.index, data: self.data.clone() }
    }
}

} // verus!
