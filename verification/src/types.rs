use vstd::prelude::*;

verus! {

/// Wrapper that owns a value and hands it out by reference. It marks values
/// that are meant to be kept apart in memory, but it adds no alignment of its
/// own: its layout is that of the value.
pub struct CachePadded<T>(pub T);

impl<T> core::ops::Deref for CachePadded<T> {
    type Target = T;

    fn deref(&self) -> (r: &T)
        ensures
            *r == self.0,
    {
        &self.0
    }
}

impl<T> core::ops::DerefMut for CachePadded<T> {
    fn deref_mut(&mut self) -> (r: &mut T)
        ensures
            *r == old(self).0,
            final(self).0 == *final(r),
    {
        &mut self.0
    }
}

/// Aggressor side of a trade.
#[derive(Debug, Clone, Copy, PartialEq, Eq, Structural)]
pub enum Side {
    Buy,
    Sell,
}

/// Direction of a position or signal.
#[derive(Debug, Clone, Copy, PartialEq, Eq, Structural)]
pub enum Direction {
    Long,
    Short,
    Flat,
}

} // verus!
