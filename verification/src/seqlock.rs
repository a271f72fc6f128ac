use vstd::prelude::*;

verus! {

/// Cell that publishes a value together with a sequence number.
///
/// The sequence number is even whenever no write is in progress and grows by
/// two with every completed write (wrapping at the end of `u64`), so a
/// reader can tell how many writes happened between two of its reads.
pub struct SeqLock<T> {
    sequence: u64,
    data: T,
}

impl<T> SeqLock<T> {
    /// The published value.
    pub closed spec fn value(&self) -> T {
        self.data
    }

    /// The current sequence number.
    pub closed spec fn spec_sequence(&self) -> u64 {
        self.sequence
    }

    /// No write is in progress: the sequence number is even.
    pub open spec fn wf(&self) -> bool {
        self.spec_sequence() % 2 == 0
    }
}

/// The sequence number after one more completed write.
pub open spec fn next_sequence(seq: u64) -> u64 {
    ((seq + 2) % 0x1_0000_0000_0000_0000) as u64
}

impl<T: Copy> SeqLock<T> {
    /// A cell holding `value`, with sequence number 0.
    pub fn new(value: T) -> (lock: Self)
        ensures
            lock.wf(),
            lock.value() == value,
            lock.spec_sequence() == 0,
    {
        SeqLock { sequence: 0, data: value }
    }

    /// The published value.
    pub fn read(&self) -> (v: T)
        ensures
            v == self.value(),
    {
        self.data
    }

    /// The published value and the sequence number it was published under.
    pub fn read_with_seq(&self) -> (r: (T, u64))
        ensures
            r == (self.value(), self.spec_sequence()),
    {
        (self.data, self.sequence)
    }

    /// Publishes `value`: the sequence number turns odd while the value is
    /// replaced and ends two above where it started.
    pub fn write(&mut self, value: T)
        ensures
            final(self).value() == value,
            final(self).spec_sequence() == next_sequence(old(self).spec_sequence()),
            old(self).wf() ==> final(self).wf(),
    {
        let seq = self.sequence;
        self.sequence = seq.wrapping_add(1);
        self.data = value;
        self.sequence = seq.wrapping_add(2);
    }

    /// The current sequence number.
    pub fn sequence(&self) -> (s: u64)
        ensures
            s == self.spec_sequence(),
    {
        self.sequence
    }
}

/// Sequence numbers stay even from one completed write to the next.
pub proof fn law_sequence_stays_even(seq: u64)
    requires
        seq % 2 == 0,
    ensures
        next_sequence(seq) % 2 == 0,
{
}

/// Each completed write raises the sequence number by exactly two, so
/// readers see it grow until it wraps at the end of `u64`.
pub proof fn law_sequence_advances_by_two(seq: u64)
    requires
        seq + 2 <= u64::MAX,
    ensures
        next_sequence(seq) == seq + 2,
        next_sequence(seq) > seq,
{
}

} // verus!
