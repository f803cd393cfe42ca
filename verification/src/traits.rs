use vstd::prelude::*;

use crate::index::Index;
use crate::record::Record;

verus! {

/// A log that can be appended to: each appended item gets the next position.
pub trait Appender {
    type Item;

    fn append(&self, item: Self::Item) -> Index;
}

/// A log whose entries can be read back by position.
pub trait Lookup {
    type Item;

    fn get(&self, index: Index) -> Option<Record<Self::Item>>;
}

} // verus!
