use vstd::prelude::*;

verus! {

/// `n` is a power of two (1, 2, 4, ...).
pub open spec fn is_power_of_two(n: nat) -> bool
    decreases n,
{
    if n == 1 {
        true
    } else if n == 0 || n % 2 != 0 {
        false
    } else {
        is_power_of_two(n / 2)
    }
}

/// The capacity that `SpscRingBuffer::new(requested)` settles on: the
/// smallest power of two that is at least `max(requested, 2)`.
pub open spec fn rounded_capacity_ok(requested: nat, cap: nat) -> bool {
    let want = if requested < 2 { 2 } else { requested };
    &&& is_power_of_two(cap)
    &&& cap >= want
    &&& cap < 2 * want
}

/// A mask of the form `2^k - 1`: all its set bits are the low bits.
pub open spec fn is_low_mask(m: usize) -> bool {
    m & ((m + 1) as usize) == 0
}

proof fn lemma_double_keeps_low_mask(p: usize)
    by (bit_vector)
    requires
        1 <= p,
        ((p * 2) as usize) > p,
        is_low_mask((p - 1) as usize),
    ensures
        is_low_mask(((p * 2) - 1) as usize),
{
}

/// Slots of two positions closer than the capacity are different.
proof fn lemma_distinct_slots(t: usize, i: usize, j: usize, m: usize)
    by (bit_vector)
    requires
        is_low_mask(m),
        ((m + 1) as usize) > m,
        i < j,
        j <= m,
    ensures
        (((t + i) as usize) & m) != (((t + j) as usize) & m),
{
}

proof fn lemma_masked_below(x: usize, m: usize)
    by (bit_vector)
    ensures
        x & m <= m,
{
}

proof fn lemma_shift_position(t: usize, i: usize)
    by (bit_vector)
    ensures
        ((((t + 1) as usize) + i) as usize) == ((t + ((i + 1) as usize)) as usize),
{
}

proof fn lemma_last_position(h: usize, t: usize, len: usize)
    by (bit_vector)
    requires
        len == ((h - t) as usize),
    ensures
        ((t + len) as usize) == h,
{
}

proof fn lemma_count_after_push(h: usize, t: usize, len: usize)
    by (bit_vector)
    requires
        len == ((h - t) as usize),
    ensures
        ((((h + 1) as usize) - t) as usize) == ((len + 1) as usize),
{
}

proof fn lemma_count_after_pop(h: usize, t: usize, len: usize)
    by (bit_vector)
    requires
        len == ((h - t) as usize),
        len >= 1,
    ensures
        ((h - ((t + 1) as usize)) as usize) == ((len - 1) as usize),
{
}

proof fn lemma_count_zero(h: usize, t: usize)
    by (bit_vector)
    ensures
        (((h - t) as usize) == 0) == (h == t),
{
}

proof fn lemma_succ_wraps(x: usize)
    by (bit_vector)
    ensures
        ((x + 1) as usize) > x || ((x + 1) as usize) == 0,
{
}

proof fn lemma_wrapping_add_one_bits(h: usize, x: usize)
    by (bit_vector)
    requires
        ((x + 1) as usize) == 0,
    ensures
        ((h + 1) as usize) == (if h == x { 0 } else { h + 1 }),
{
}

proof fn lemma_wrapping_sub_bits(h: usize, t: usize, x: usize)
    by (bit_vector)
    requires
        ((x + 1) as usize) == 0,
    ensures
        ((h - t) as usize) == (if h >= t { h - t } else { h - t + x + 1 }),
{
}

/// `wrapping_add(h, 1)` is the truncated successor.
proof fn lemma_wrapping_add_one(h: usize)
    ensures
        h.wrapping_add(1) == ((h + 1) as usize),
{
    lemma_succ_wraps(usize::MAX);
    lemma_wrapping_add_one_bits(h, usize::MAX);
}

/// `wrapping_sub(h, t)` is the truncated difference.
proof fn lemma_wrapping_sub(h: usize, t: usize)
    ensures
        h.wrapping_sub(t) == ((h - t) as usize),
{
    lemma_succ_wraps(usize::MAX);
    lemma_wrapping_sub_bits(h, t, usize::MAX);
}

/// Bounded first-in first-out queue over a power-of-two ring of slots.
///
/// `head` counts the items ever pushed and `tail` the items ever popped,
/// both wrapping around at the end of `usize`; the item at position `p`
/// lives in slot `p & mask`.
pub struct SpscRingBuffer<T> {
    buffer: Vec<Option<T>>,
    mask: usize,
    head: usize,
    tail: usize,
}

impl<T> SpscRingBuffer<T> {
    /// Number of slots.
    pub closed spec fn spec_capacity(&self) -> nat {
        (self.mask + 1) as nat
    }

    /// Number of queued items.
    closed spec fn count(&self) -> nat {
        ((self.head - self.tail) as usize) as nat
    }

    /// Slot of the `i`-th queued item, counted from the oldest.
    closed spec fn slot(&self, i: int) -> int {
        (((self.tail + i) as usize) & self.mask) as int
    }

    /// Internal consistency of the ring; every constructor establishes it
    /// and every operation keeps it.
    pub closed spec fn wf(&self) -> bool {
        &&& is_low_mask(self.mask)
        &&& is_power_of_two((self.mask + 1) as nat)
        &&& 1 <= self.mask < usize::MAX
        &&& self.buffer@.len() == self.mask + 1
        &&& self.count() <= self.mask + 1
        &&& forall|i: int| 0 <= i < self.count() ==> (#[trigger] self.buffer@[self.slot(i)]) is Some
    }
}

impl<T> View for SpscRingBuffer<T> {
    type V = Seq<T>;

    /// The queued items, oldest first.
    closed spec fn view(&self) -> Seq<T> {
        Seq::new(self.count(), |i: int| self.buffer@[self.slot(i)]->0)
    }
}

impl<T: Copy> SpscRingBuffer<T> {
    /// Creates an empty ring; `capacity` is rounded up to the next power of
    /// two, and to at least 2.
    pub fn new(capacity: usize) -> (rb: Self)
        requires
            capacity <= usize::MAX / 2 + 1,
        ensures
            rb.wf(),
            rounded_capacity_ok(capacity as nat, rb.spec_capacity()),
            rb@ == Seq::<T>::empty(),
    {
        let want: usize = if capacity < 2 {
            2
        } else {
            capacity
        };
        let mut cap: usize = 2;
        assert(is_low_mask(1usize)) by (bit_vector);
        assert(is_power_of_two(2)) by {
            reveal_with_fuel(is_power_of_two, 2);
        }
        while cap < want
            invariant
                2 <= cap < usize::MAX,
                2 <= want <= usize::MAX / 2 + 1,
                cap < 2 * want,
                is_power_of_two(cap as nat),
                is_low_mask((cap - 1) as usize),
            decreases 2 * want - cap,
        {
            proof {
                lemma_double_keeps_low_mask(cap);
                assert((2 * cap) as nat / 2 == cap as nat);
            }
            cap = cap * 2;
        }
        let mut buffer: Vec<Option<T>> = Vec::new();
        let mut i: usize = 0;
        while i < cap
            invariant
                buffer@.len() == i,
                i <= cap,
            decreases cap - i,
        {
            buffer.push(None);
            i = i + 1;
        }
        let rb = SpscRingBuffer { buffer, mask: cap - 1, head: 0, tail: 0 };
        proof {
            lemma_count_zero(0, 0);
        }
        assert(rb@ =~= Seq::<T>::empty());
        rb
    }

    /// Number of slots.
    pub fn capacity(&self) -> (c: usize)
        requires
            self.wf(),
        ensures
            c == self.spec_capacity(),
    {
        self.mask + 1
    }

    /// Appends `value` at the back; when the ring is full it is handed back
    /// in `Err` and nothing changes.
    pub fn try_push(&mut self, value: T) -> (r: Result<(), T>)
        requires
            old(self).wf(),
        ensures
            final(self).wf(),
            final(self).spec_capacity() == old(self).spec_capacity(),
            old(self)@.len() >= old(self).spec_capacity() ==> r == Err::<(), T>(value) && final(self)@
                == old(self)@,
            old(self)@.len() < old(self).spec_capacity() ==> r == Ok::<(), T>(()) && final(self)@
                == old(self)@.push(value),
    {
        let head = self.head;
        let tail = self.tail;
        proof {
            lemma_wrapping_sub(head, tail);
        }
        if head.wrapping_sub(tail) >= self.mask + 1 {
            return Err(value);
        }
        let ghost old_self = *self;
        let ghost len = old_self.count();
        let slot = head & self.mask;
        proof {
            lemma_masked_below(head, self.mask);
            lemma_last_position(head, tail, len as usize);
            assert forall|i: int| 0 <= i < len implies old_self.slot(i) != slot as int by {
                lemma_distinct_slots(tail, i as usize, len as usize, self.mask);
            }
            assert forall|i: int| 0 <= i < len implies 0 <= #[trigger] old_self.slot(i) < old_self.buffer@.len() by {
                lemma_masked_below(((tail + i) as usize), self.mask);
            }
        }
        self.buffer.set(slot, Some(value));
        proof {
            lemma_wrapping_add_one(head);
            lemma_count_after_push(head, tail, len as usize);
        }
        self.head = head.wrapping_add(1);
        assert(self.count() == len + 1);
        assert forall|i: int| 0 <= i < self.count() implies (#[trigger] self.buffer@[self.slot(i)]) is Some by {
            lemma_masked_below(((tail + i) as usize), self.mask);
            assert(self.slot(i) == old_self.slot(i));
            if i < len {
                assert(old_self.buffer@[old_self.slot(i)] is Some);
                assert(old_self.slot(i) != slot as int);
            } else {
                assert(self.slot(i) == slot as int);
            }
        }
        assert(self@ =~= old_self@.push(value)) by {
            assert forall|i: int| 0 <= i < len implies self@[i] == old_self@[i] by {
                lemma_masked_below(((tail + i) as usize), self.mask);
                assert(self.slot(i) == old_self.slot(i));
                assert(old_self.slot(i) != slot as int);
            }
            assert(self.slot(len as int) == slot as int);
        }
        Ok(())
    }

    /// Removes and returns the oldest item, or `None` when the ring is empty.
    pub fn try_pop(&mut self) -> (r: Option<T>)
        requires
            old(self).wf(),
        ensures
            final(self).wf(),
            final(self).spec_capacity() == old(self).spec_capacity(),
            old(self)@.len() == 0 ==> r is None && final(self)@ == old(self)@,
            old(self)@.len() > 0 ==> r == Some(old(self)@[0]) && final(self)@ == old(self)@.drop_first(),
    {
        let tail = self.tail;
        let head = self.head;
        proof {
            lemma_count_zero(head, tail);
        }
        if tail == head {
            return None;
        }
        let ghost old_self = *self;
        let ghost len = old_self.count();
        let slot = tail & self.mask;
        proof {
            lemma_masked_below(tail, self.mask);
            assert(old_self.slot(0) == slot as int);
            assert(old_self.buffer@[old_self.slot(0)] is Some);
        }
        let value = match self.buffer[slot] {
            Some(v) => v,
            None => {
                proof {
                    assert(false);
                }
                return None;
            },
        };
        proof {
            lemma_wrapping_add_one(tail);
            lemma_count_after_pop(head, tail, len as usize);
        }
        self.tail = tail.wrapping_add(1);
        assert(self.count() == len - 1);
        assert forall|i: int| 0 <= i < self.count() implies self.slot(i) == old_self.slot(i + 1) by {
            lemma_shift_position(tail, i as usize);
            lemma_masked_below(((tail + i + 1) as usize), self.mask);
        }
        assert forall|i: int| 0 <= i < self.count() implies (#[trigger] self.buffer@[self.slot(i)]) is Some by {
            assert(self.slot(i) == old_self.slot(i + 1));
            assert(old_self.buffer@[old_self.slot(i + 1)] is Some);
        }
        assert(self@ =~= old_self@.drop_first()) by {
            assert forall|i: int| 0 <= i < self.count() implies self@[i] == old_self@[i + 1] by {
                assert(self.slot(i) == old_self.slot(i + 1));
            }
        }
        Some(value)
    }

    /// Appends `value` at the back; when the ring is full the oldest item is
    /// dropped to make room and handed back.
    pub fn push_overwrite(&mut self, value: T) -> (evicted: Option<T>)
        requires
            old(self).wf(),
        ensures
            final(self).wf(),
            final(self).spec_capacity() == old(self).spec_capacity(),
            old(self)@.len() < old(self).spec_capacity() ==> evicted is None && final(self)@ == old(self)@.push(value),
            old(self)@.len() >= old(self).spec_capacity() ==> evicted == Some(old(self)@[0]) && final(self)@ == old(self)@.drop_first().push(value),
    {
        let evicted = if self.is_full() {
            self.try_pop()
        } else {
            None
        };
        let _pushed = self.try_push(value);
        evicted
    }

    /// Number of queued items.
    pub fn len(&self) -> (n: usize)
        requires
            self.wf(),
        ensures
            n == self@.len(),
    {
        proof {
            lemma_wrapping_sub(self.head, self.tail);
        }
        self.head.wrapping_sub(self.tail)
    }

    /// No item is queued.
    pub fn is_empty(&self) -> (b: bool)
        requires
            self.wf(),
        ensures
            b == (self@.len() == 0),
    {
        self.len() == 0
    }

    /// Every slot holds a queued item.
    pub fn is_full(&self) -> (b: bool)
        requires
            self.wf(),
        ensures
            b == (self@.len() >= self.spec_capacity()),
    {
        self.len() >= self.capacity()
    }

    /// Moves up to `max` of the oldest items, in order, to the end of `dst`
    /// and returns how many were moved.
    pub fn drain_into(&mut self, dst: &mut Vec<T>, max: usize) -> (n: usize)
        requires
            old(self).wf(),
        ensures
            final(self).wf(),
            final(self).spec_capacity() == old(self).spec_capacity(),
            n == if old(self)@.len() < max { old(self)@.len() } else { max as nat },
            final(dst)@ == old(dst)@ + old(self)@.take(n as int),
            final(self)@ == old(self)@.skip(n as int),
    {
        let ghost items = self@;
        let ghost start = dst@;
        let mut count: usize = 0;
        while count < max
            invariant_except_break
                self.wf(),
                self.spec_capacity() == old(self).spec_capacity(),
                count <= max,
                count <= items.len(),
                dst@ == start + items.take(count as int),
                self@ == items.skip(count as int),
            ensures
                self.wf(),
                self.spec_capacity() == old(self).spec_capacity(),
                count == if items.len() < max { items.len() } else { max as nat },
                dst@ == start + items.take(count as int),
                self@ == items.skip(count as int),
            decreases max - count,
        {
            match self.try_pop() {
                Some(v) => {
                    dst.push(v);
                    proof {
                        assert(items.take(count + 1) =~= items.take(count as int).push(v));
                        assert(items.skip(count + 1) =~= items.skip(count as int).drop_first());
                    }
                    count = count + 1;
                },
                None => {
                    break;
                },
            }
        }
        count
    }
}

/// The queue keeps at most as many items as it has slots, and it has a
/// power-of-two number of slots, at least 2.
pub proof fn law_len_within_capacity<T>(rb: SpscRingBuffer<T>)
    requires
        rb.wf(),
    ensures
        rb@.len() <= rb.spec_capacity(),
        rb.spec_capacity() >= 2,
        is_power_of_two(rb.spec_capacity()),
{
}

/// First in, first out: a value pushed behind the queued items comes out
/// after all of them, and pushing does not change which item comes out
/// next.
pub proof fn law_fifo<T>(queued: Seq<T>, v: T)
    ensures
        queued.len() == 0 ==> queued.push(v)[0] == v && queued.push(v).drop_first() == Seq::<T>::empty(),
        queued.len() > 0 ==> queued.push(v)[0] == queued[0] && queued.push(v).drop_first()
            == queued.drop_first().push(v),
{
    if queued.len() == 0 {
        assert(queued.push(v).drop_first() =~= Seq::<T>::empty());
    } else {
        assert(queued.push(v).drop_first() =~= queued.drop_first().push(v));
    }
}

/// Draining moves items without losing or reordering any: what was drained
/// followed by what is left is what was queued.
pub proof fn law_drain_partitions<T>(queued: Seq<T>, n: int)
    requires
        0 <= n <= queued.len(),
    ensures
        queued.take(n) + queued.skip(n) == queued,
{
    assert(queued.take(n) + queued.skip(n) =~= queued);
}

} // verus!
