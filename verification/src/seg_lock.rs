use vstd::prelude::*;

verus! {

/// Shared state of a sequence-locked cell with a 32-bit sequence number.
struct SegLockInner<T> {
    seq: u32,
    data: T,
}

/// The writing side of a sequence-locked cell; it owns the cell.
pub struct SegLockWriter<T> {
    inner: SegLockInner<T>,
}

/// A reading view of a sequence-locked cell.
pub struct SegLockReader<'a, T> {
    inner: &'a SegLockInner<T>,
}

/// The sequence number after one more completed write.
pub open spec fn next_seg_sequence(seq: u32) -> u32 {
    ((seq + 2) % 0x1_0000_0000) as u32
}

impl<T> SegLockWriter<T> {
    /// The value a reader sees.
    pub closed spec fn value(&self) -> T {
        self.inner.data
    }

    /// The current sequence number.
    pub closed spec fn spec_sequence(&self) -> u32 {
        self.inner.seq
    }
}

impl<'a, T> SegLockReader<'a, T> {
    /// The value this reader sees.
    pub closed spec fn value(&self) -> T {
        self.inner.data
    }
}

/// Creates a cell holding `initial`, with sequence number 0.
pub fn seg_lock<T: Copy>(initial: T) -> (w: SegLockWriter<T>)
    ensures
        w.value() == initial,
        w.spec_sequence() == 0,
{
    SegLockWriter { inner: SegLockInner { seq: 0, data: initial } }
}

impl<T: Copy> SegLockWriter<T> {
    /// Publishes `val`; the sequence number is odd while the value is
    /// replaced and ends two above where it started.
    pub fn write(&mut self, val: T)
        ensures
            final(self).value() == val,
            final(self).spec_sequence() == next_seg_sequence(old(self).spec_sequence()),
    {
        let s = self.inner.seq;
        self.inner.seq = s.wrapping_add(1);
        self.inner.data = val;
        self.inner.seq = s.wrapping_add(2);
    }

    /// A reader of this cell.
    pub fn reader(&self) -> (r: SegLockReader<'_, T>)
        ensures
            r.value() == self.value(),
    {
        SegLockReader { inner: &self.inner }
    }
}

impl<'a, T: Copy> SegLockReader<'a, T> {
    /// The current value of the cell.
    pub fn read(&self) -> (v: T)
        ensures
            v == self.value(),
    {
        self.inner.data
    }
}

impl<'a, T> Clone for SegLockReader<'a, T> {
    /// Another reader of the same cell.
    fn clone(&self) -> (r: Self)
        ensures
            r.value() == self.value(),
    {
        SegLockReader { inner: self.inner }
    }
}

} // verus!
