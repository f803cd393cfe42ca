use vstd::prelude::*;
use vstd::std_specs::convert::FromSpecImpl;
use vstd::std_specs::convert::TryFromSpecImpl;

verus! {

/// std's `impl<T> From<T> for T`, which its documentation describes as
/// returning the argument unchanged. The contract claims exactly that: the
/// result equals the argument. It is what `Index::new` relies on when given a
/// `u64`, which converts to `u64` through this identity.
pub assume_specification<Same>[ <Same as core::convert::From<Same>>::from ](value: Same) -> (r: Same)
    ensures
        r == value,
;

/// The position of an entry in an append-only log.
///
/// Positions are plain unsigned numbers; the first entry of a log sits at
/// position 0 and every append takes the next one.
/// Indices are ordered by position (see `index_order`).
#[derive(Debug, Clone, Copy, PartialEq, Eq, Structural, Ord, Hash)]
pub struct Index(u64);

impl Index {
    /// The position as a plain number.
    pub closed spec fn pos(self) -> u64 {
        self.0
    }

    /// Wraps a plain position, given as anything that converts to a `u64`;
    /// the position is what that conversion returns.
    pub fn new<I: Into<u64>>(index: I) -> (r: Self)
        ensures
            call_ensures(I::into, (index,), r.pos()),
    {
        Index(index.into())
    }

    /// The position as a plain number.
    pub fn value(&self) -> (r: u64)
        ensures
            r == self.pos(),
    {
        self.0
    }

    /// Whether `self` lies strictly after `other`.
    pub fn is_after(&self, other: &Index) -> (r: bool)
        ensures
            r == (self.pos() > other.pos()),
    {
        self.0 > other.0
    }

    /// The earlier of two positions.
    pub fn earlier(self, other: Index) -> (r: Index)
        ensures
            r.pos() == if self.pos() <= other.pos() { self.pos() } else { other.pos() },
    {
        if self.0 <= other.0 {
            self
        } else {
            other
        }
    }

    /// Two indices are equal exactly when their positions are.
    pub proof fn lemma_pos_injective(a: Index, b: Index)
        ensures
            (a.pos() == b.pos()) == (a == b),
    {
    }
}

impl Default for Index {
    /// The first position of every log.
    fn default() -> (r: Self)
        ensures
            r.pos() == 0,
    {
        Index(0)
    }
}

impl From<u64> for Index {
    fn from(value: u64) -> (r: Self) {
        Index(value)
    }
}

impl FromSpecImpl<u64> for Index {
    open spec fn obeys_from_spec() -> bool {
        true
    }

    open spec fn from_spec(v: u64) -> Index {
        Index::spec_from_u64(v)
    }
}

impl Index {
    /// The index at position `v`.
    pub closed spec fn spec_from_u64(v: u64) -> Index {
        Index(v)
    }

    /// `spec_from_u64` wraps exactly the given position.
    pub proof fn lemma_spec_from_u64(v: u64)
        ensures
            Index::spec_from_u64(v).pos() == v,
    {
    }
}

impl From<Index> for u64 {
    fn from(value: Index) -> (r: Self) {
        value.0
    }
}

impl FromSpecImpl<Index> for u64 {
    open spec fn obeys_from_spec() -> bool {
        true
    }

    open spec fn from_spec(v: Index) -> u64 {
        v.pos()
    }
}

impl TryFrom<Index> for usize {
    type Error = std::num::TryFromIntError;

    fn try_from(value: Index) -> (r: Result<Self, Self::Error>) {
        usize::try_from(value.0)
    }
}

impl TryFromSpecImpl<Index> for usize {
    open spec fn obeys_try_from_spec() -> bool {
        true
    }

    open spec fn try_from_spec(v: Index) -> Result<usize, std::num::TryFromIntError> {
        <usize as vstd::std_specs::convert::TryFromSpec<u64>>::try_from_spec(v.pos())
    }
}

/// Turning a number into an index and back gives the number, and turning an
/// index into a number and back gives the index.
pub proof fn lemma_u64_round_trip(v: u64, i: Index)
    ensures
        <u64 as vstd::std_specs::convert::FromSpec<Index>>::from_spec(
            <Index as vstd::std_specs::convert::FromSpec<u64>>::from_spec(v),
        ) == v,
        <Index as vstd::std_specs::convert::FromSpec<u64>>::from_spec(
            <u64 as vstd::std_specs::convert::FromSpec<Index>>::from_spec(i),
        ) == i,
{
}

/// An index turns into a `usize` exactly when its position fits one, and
/// then into that position.
pub proof fn lemma_usize_conversion(i: Index)
    ensures
        <usize as vstd::std_specs::convert::TryFromSpec<Index>>::try_from_spec(i) is Ok <==> i.pos() <= usize::MAX,
        <usize as vstd::std_specs::convert::TryFromSpec<Index>>::try_from_spec(i) matches Ok(n) ==> n == i.pos(),
{
}

} // verus!
