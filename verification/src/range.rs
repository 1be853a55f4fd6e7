//! A run of values, both ends in it

use vstd::prelude::*;

verus! {

/// Every value from `start` to `last`, which is in it
///
/// A `last` under `start` holds nothing.
#[derive(Debug, Copy, PartialEq, Eq, Structural)]
pub struct RangeInclusive<T> {
    pub start: T,
    pub last: T,
}

impl<T: Copy> Clone for RangeInclusive<T> {
    fn clone(&self) -> (r: RangeInclusive<T>)
        ensures
            r == *self,
    {
        *self
    }
}

impl RangeInclusive<u16> {
    /// Whether `v` is in the run
    pub open spec fn holds(self, v: u16) -> bool {
        self.start <= v <= self.last
    }

    /// Whether `v` is in the run
    pub fn contains(&self, v: &u16) -> (r: bool)
        ensures
            r == self.holds(*v),
    {
        self.start <= *v && *v <= self.last
    }
}

impl RangeInclusive<u32> {
    /// Whether `v` is in the run
    pub open spec fn holds(self, v: u32) -> bool {
        self.start <= v <= self.last
    }

    /// Whether `v` is in the run
    pub fn contains(&self, v: &u32) -> (r: bool)
        ensures
            r == self.holds(*v),
    {
        self.start <= *v && *v <= self.last
    }
}

/// A run holds both its ends and all between them, and nothing where they are
/// the wrong way round
pub proof fn law_what_a_run_holds(
    narrow: RangeInclusive<u16>,
    v: u16,
    wide: RangeInclusive<u32>,
    w: u32,
)
    ensures
        narrow.start <= narrow.last ==> narrow.holds(narrow.start) && narrow.holds(narrow.last),
        wide.start <= wide.last ==> wide.holds(wide.start) && wide.holds(wide.last),
        narrow.holds(v) <==> !(v < narrow.start) && !(v > narrow.last),
        wide.holds(w) <==> !(w < wide.start) && !(w > wide.last),
{
}

} // verus!
