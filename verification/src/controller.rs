use vstd::prelude::*;

use crate::seqlock::SeqLock;
use crate::spsc::SpscRingBuffer;

verus! {

/// Multi-core orchestrator: publishes parameters through a sequence-locked
/// cell, distributes events to one queue per core and gathers the signals
/// the cores produce.
///
/// It is generic in the event type `E`, the parameter type `P` and the
/// signal type `S`; routing takes the market of an event as an argument.
pub struct Controller<E, P, S> {
    queues: Vec<SpscRingBuffer<E>>,
    params: SeqLock<P>,
    collected_signals: Vec<S>,
    events_published: u64,
}

/// The per-core queues' contents.
pub open spec fn queue_views<E>(queues: Seq<SpscRingBuffer<E>>) -> Seq<Seq<E>> {
    queues.map_values(|q: SpscRingBuffer<E>| q@)
}

/// The per-core queues' capacities.
pub open spec fn queue_capacities<E>(queues: Seq<SpscRingBuffer<E>>) -> Seq<nat> {
    queues.map_values(|q: SpscRingBuffer<E>| q.spec_capacity())
}

/// Every queue is consistent.
pub open spec fn all_wf<E>(queues: Seq<SpscRingBuffer<E>>) -> bool {
    forall|i: int| 0 <= i < queues.len() ==> (#[trigger] queues[i]).wf()
}

/// The queues after `event` is offered to every queue that has room: those
/// that are full stay as they are.
pub open spec fn broadcast_result<E>(queued: Seq<Seq<E>>, caps: Seq<nat>, event: E) -> Seq<Seq<E>> {
    Seq::new(
        queued.len(),
        |i: int|
            if queued[i].len() < caps[i] {
                queued[i].push(event)
            } else {
                queued[i]
            },
    )
}

/// How many of the first `n` queues have room for one more event.
pub open spec fn queues_with_room<E>(queued: Seq<Seq<E>>, caps: Seq<nat>, n: nat) -> nat
    decreases n,
{
    if n == 0 {
        0
    } else {
        queues_with_room(queued, caps, (n - 1) as nat) + if queued[n - 1].len() < caps[n - 1] {
            1nat
        } else {
            0nat
        }
    }
}

/// A broadcast reaches at most as many queues as there are cores.
pub proof fn law_broadcast_reaches_at_most_all_cores<E>(queued: Seq<Seq<E>>, caps: Seq<nat>, n: nat)
    ensures
        queues_with_room(queued, caps, n) <= n,
    decreases n,
{
    if n > 0 {
        law_broadcast_reaches_at_most_all_cores(queued, caps, (n - 1) as nat);
    }
}

/// A broadcast loses and reorders nothing: every queue keeps the events it
/// held, in order, at its front; a queue that had room gains exactly the
/// broadcast event at its back, and a queue that was full stays exactly as
/// it was.
pub proof fn law_broadcast_keeps_full_queues<E>(queued: Seq<Seq<E>>, caps: Seq<nat>, event: E)
    ensures
        broadcast_result(queued, caps, event).len() == queued.len(),
        forall|i: int|
            0 <= i < queued.len() ==> queued[i].is_prefix_of(
                #[trigger] broadcast_result(queued, caps, event)[i],
            ),
        forall|i: int|
            0 <= i < queued.len() && queued[i].len() >= caps[i] ==> #[trigger] broadcast_result(
                queued,
                caps,
                event,
            )[i] == queued[i],
        forall|i: int|
            0 <= i < queued.len() && queued[i].len() < caps[i] ==> {
                let after = #[trigger] broadcast_result(queued, caps, event)[i];
                &&& after.len() == queued[i].len() + 1
                &&& after[after.len() - 1] == event
            },
{
    assert forall|i: int| 0 <= i < queued.len() implies queued[i].is_prefix_of(
        #[trigger] broadcast_result(queued, caps, event)[i],
    ) by {
        let after = broadcast_result(queued, caps, event)[i];
        assert(queued[i] =~= after.subrange(0, queued[i].len() as int));
    }
}

/// The number of queues a broadcast reaches is the number of queues whose
/// length grew, each by one event.
pub proof fn law_broadcast_count<E>(queued: Seq<Seq<E>>, caps: Seq<nat>, event: E, n: nat)
    requires
        n <= queued.len(),
    ensures
        queues_with_room(queued, caps, n) == grown_queues(queued, broadcast_result(queued, caps, event), n),
    decreases n,
{
    if n > 0 {
        law_broadcast_count(queued, caps, event, (n - 1) as nat);
    }
}

/// How many of the first `n` queues are longer in `after` than in `before`.
pub open spec fn grown_queues<E>(before: Seq<Seq<E>>, after: Seq<Seq<E>>, n: nat) -> nat
    decreases n,
{
    if n == 0 {
        0
    } else {
        grown_queues(before, after, (n - 1) as nat) + if after[n - 1].len() > before[n - 1].len() {
            1nat
        } else {
            0nat
        }
    }
}

impl<E: Copy, P: Copy, S> Controller<E, P, S> {
    /// The events queued for each core.
    pub closed spec fn queued(&self) -> Seq<Seq<E>> {
        queue_views(self.queues@)
    }

    /// The capacity of each core's queue.
    pub closed spec fn capacities(&self) -> Seq<nat> {
        queue_capacities(self.queues@)
    }

    /// The currently published parameters.
    pub closed spec fn parameters(&self) -> P {
        self.params.value()
    }

    /// Signals gathered and not drained yet, oldest first.
    pub closed spec fn signals(&self) -> Seq<S> {
        self.collected_signals@
    }

    /// Events accepted by a queue so far, wrapping at the end of `u64`.
    pub closed spec fn published(&self) -> u64 {
        self.events_published
    }

    pub closed spec fn wf(&self) -> bool {
        all_wf(self.queues@)
    }

    /// A controller over `queues`, publishing through `params`.
    pub fn new(queues: Vec<SpscRingBuffer<E>>, params: SeqLock<P>) -> (c: Self)
        requires
            all_wf(queues@),
        ensures
            c.wf(),
            c.queued() == queue_views(queues@),
            c.capacities() == queue_capacities(queues@),
            c.parameters() == params.value(),
            c.signals() == Seq::<S>::empty(),
            c.published() == 0,
    {
        Controller { queues, params, collected_signals: Vec::new(), events_published: 0 }
    }

    /// Publishes new parameters to all cores.
    pub fn publish_parameters(&mut self, params: P)
        ensures
            final(self).parameters() == params,
            final(self).queued() == old(self).queued(),
            final(self).capacities() == old(self).capacities(),
            final(self).signals() == old(self).signals(),
            final(self).published() == old(self).published(),
            old(self).wf() ==> final(self).wf(),
    {
        self.params.write(params);
    }

    /// The currently published parameters.
    pub fn current_parameters(&self) -> (p: P)
        ensures
            p == self.parameters(),
    {
        self.params.read()
    }

    /// Sends `event` to core `core_idx`. The event comes back in `Err` when
    /// there is no such core or its queue is full.
    pub fn send_event(&mut self, core_idx: usize, event: E) -> (r: Result<(), E>)
        requires
            old(self).wf(),
        ensures
            final(self).wf(),
            final(self).capacities() == old(self).capacities(),
            final(self).parameters() == old(self).parameters(),
            final(self).signals() == old(self).signals(),
            core_idx >= old(self).queued().len() || old(self).queued()[core_idx as int].len()
                >= old(self).capacities()[core_idx as int] ==> r == Err::<(), E>(event) && final(self).queued() == old(self).queued() && final(self).published() == old(self).published(),
            core_idx < old(self).queued().len() && old(self).queued()[core_idx as int].len()
                < old(self).capacities()[core_idx as int] ==> r == Ok::<(), E>(()) && final(self).queued() == old(self).queued().update(
                core_idx as int,
                old(self).queued()[core_idx as int].push(event),
            ) && final(self).published() == old(self).published().wrapping_add(1),
    {
        if core_idx >= self.queues.len() {
            return Err(event);
        }
        let ghost old_queues = self.queues@;
        let result = self.queues[core_idx].try_push(event);
        if result.is_ok() {
            self.events_published = self.events_published.wrapping_add(1);
        }
        proof {
            assert forall|i: int| 0 <= i < self.queues@.len() implies (#[trigger] self.queues@[i]).wf() by {
                if i != core_idx {
                    assert(self.queues@[i] == old_queues[i]);
                }
            }
            assert(queue_capacities(self.queues@) =~= queue_capacities(old_queues));
            if result.is_ok() {
                assert(queue_views(self.queues@) =~= queue_views(old_queues).update(
                    core_idx as int,
                    old_queues[core_idx as int]@.push(event),
                ));
            } else {
                assert(queue_views(self.queues@) =~= queue_views(old_queues));
            }
        }
        result
    }

    /// Sends an event of market `market_id` to core `market_id % cores`.
    /// With no cores the event comes back in `Err`.
    pub fn route_event(&mut self, market_id: u32, event: E) -> (r: Result<(), E>)
        requires
            old(self).wf(),
        ensures
            final(self).wf(),
            final(self).capacities() == old(self).capacities(),
            final(self).parameters() == old(self).parameters(),
            final(self).signals() == old(self).signals(),
            old(self).queued().len() == 0 ==> r == Err::<(), E>(event) && *final(self) == *old(self),
            old(self).queued().len() > 0 ==> {
                let k = market_id as int % old(self).queued().len() as int;
                &&& old(self).queued()[k].len() >= old(self).capacities()[k] ==> r == Err::<(), E>(event)
                    && final(self).queued() == old(self).queued() && final(self).published() == old(self).published()
                &&& old(self).queued()[k].len() < old(self).capacities()[k] ==> r == Ok::<(), E>(())
                    && final(self).queued() == old(self).queued().update(k, old(self).queued()[k].push(event))
                    && final(self).published() == old(self).published().wrapping_add(1)
            },
    {
        if self.queues.len() == 0 {
            return Err(event);
        }
        let core_idx = (market_id as usize) % self.queues.len();
        self.send_event(core_idx, event)
    }

    /// Offers `event` to every core; returns how many queues took it.
    pub fn broadcast_event(&mut self, event: E) -> (sent: usize)
        requires
            old(self).wf(),
        ensures
            final(self).wf(),
            final(self).capacities() == old(self).capacities(),
            final(self).parameters() == old(self).parameters(),
            final(self).signals() == old(self).signals(),
            sent == queues_with_room(old(self).queued(), old(self).capacities(), old(self).queued().len()),
            final(self).queued() == broadcast_result(old(self).queued(), old(self).capacities(), event),
            final(self).queued().len() == old(self).queued().len(),
            forall|i: int|
                0 <= i < old(self).queued().len() && old(self).queued()[i].len() >= old(self).capacities()[i]
                    ==> #[trigger] final(self).queued()[i] == old(self).queued()[i],
            forall|i: int|
                0 <= i < old(self).queued().len() && old(self).queued()[i].len() < old(self).capacities()[i]
                    ==> #[trigger] final(self).queued()[i] == old(self).queued()[i].push(event),
            sent == grown_queues(old(self).queued(), final(self).queued(), old(self).queued().len()),
            final(self).published() == old(self).published().wrapping_add(sent as u64),
    {
        let ghost start = self.queues@;
        let ghost views = queue_views(start);
        let ghost caps = queue_capacities(start);
        let mut sent: usize = 0;
        let mut i: usize = 0;
        while i < self.queues.len()
            invariant
                i <= self.queues@.len(),
                self.queues@.len() == start.len(),
                all_wf(self.queues@),
                views == queue_views(start),
                caps == queue_capacities(start),
                sent == queues_with_room(views, caps, i as nat),
                sent <= i,
                forall|j: int|
                    0 <= j < start.len() ==> (#[trigger] self.queues@[j]).spec_capacity()
                        == start[j].spec_capacity(),
                forall|j: int| 0 <= j < i ==> (#[trigger] self.queues@[j])@ == broadcast_result(views, caps, event)[j],
                forall|j: int| i <= j < start.len() ==> (#[trigger] self.queues@[j]) == start[j],
                self.params == old(self).params,
                self.collected_signals == old(self).collected_signals,
                self.events_published == old(self).events_published,
            decreases start.len() - i,
        {
            let ghost before = self.queues@;
            let pushed = self.queues[i].try_push(event);
            proof {
                law_broadcast_reaches_at_most_all_cores(views, caps, i as nat);
                assert forall|j: int| 0 <= j < self.queues@.len() implies (#[trigger] self.queues@[j]).wf() by {
                    if j != i {
                        assert(self.queues@[j] == before[j]);
                    }
                }
            }
            if pushed.is_ok() {
                sent = sent + 1;
            }
            i = i + 1;
        }
        proof {
            assert(queue_capacities(self.queues@) =~= queue_capacities(start));
            assert(queue_views(self.queues@) =~= broadcast_result(views, caps, event));
            law_broadcast_keeps_full_queues(views, caps, event);
            law_broadcast_count(views, caps, event, views.len());
        }
        self.events_published = self.events_published.wrapping_add(sent as u64);
        sent
    }

    /// Moves all of `signals`, in order, behind the gathered signals.
    pub fn collect_signals(&mut self, signals: &mut Vec<S>)
        ensures
            final(self).signals() == old(self).signals() + old(signals)@,
            final(signals)@ == Seq::<S>::empty(),
            final(self).queued() == old(self).queued(),
            final(self).capacities() == old(self).capacities(),
            final(self).parameters() == old(self).parameters(),
            final(self).published() == old(self).published(),
            old(self).wf() ==> final(self).wf(),
    {
        self.collected_signals.append(signals);
    }

    /// Hands out all gathered signals, oldest first, and forgets them.
    pub fn drain_collected_signals(&mut self) -> (drained: Vec<S>)
        ensures
            drained@ == old(self).signals(),
            final(self).signals() == Seq::<S>::empty(),
            final(self).queued() == old(self).queued(),
            final(self).capacities() == old(self).capacities(),
            final(self).parameters() == old(self).parameters(),
            final(self).published() == old(self).published(),
            old(self).wf() ==> final(self).wf(),
    {
        let mut drained: Vec<S> = Vec::new();
        std::mem::swap(&mut drained, &mut self.collected_signals);
        drained
    }

    /// Events accepted by a queue so far.
    pub fn events_published(&self) -> (n: u64)
        ensures
            n == self.published(),
    {
        self.events_published
    }

    /// Number of cores.
    pub fn num_cores(&self) -> (n: usize)
        ensures
            n == self.queued().len(),
    {
        self.queues.len()
    }

    /// Takes the oldest event queued for core `core_idx`, as that core's
    /// engine does; `None` when there is no such core or nothing is queued.
    pub fn take_event(&mut self, core_idx: usize) -> (r: Option<E>)
        requires
            old(self).wf(),
        ensures
            final(self).wf(),
            final(self).capacities() == old(self).capacities(),
            final(self).parameters() == old(self).parameters(),
            final(self).signals() == old(self).signals(),
            final(self).published() == old(self).published(),
            core_idx >= old(self).queued().len() || old(self).queued()[core_idx as int].len() == 0 ==> r is None
                && final(self).queued() == old(self).queued(),
            core_idx < old(self).queued().len() && old(self).queued()[core_idx as int].len() > 0 ==> r
                == Some(old(self).queued()[core_idx as int][0]) && final(self).queued() == old(self).queued().update(core_idx as int, old(self).queued()[core_idx as int].drop_first()),
    {
        if core_idx >= self.queues.len() {
            return None;
        }
        let ghost old_queues = self.queues@;
        let r = self.queues[core_idx].try_pop();
        proof {
            assert forall|i: int| 0 <= i < self.queues@.len() implies (#[trigger] self.queues@[i]).wf() by {
                if i != core_idx {
                    assert(self.queues@[i] == old_queues[i]);
                }
            }
            assert(queue_capacities(self.queues@) =~= queue_capacities(old_queues));
            if r.is_some() {
                assert(queue_views(self.queues@) =~= queue_views(old_queues).update(
                    core_idx as int,
                    old_queues[core_idx as int]@.drop_first(),
                ));
            } else {
                assert(queue_views(self.queues@) =~= queue_views(old_queues));
            }
        }
        r
    }

    /// Number of events queued for core `core_idx` (0 for no such core).
    pub fn queued_len(&self, core_idx: usize) -> (n: usize)
        requires
            self.wf(),
        ensures
            core_idx < self.queued().len() ==> n == self.queued()[core_idx as int].len(),
            core_idx >= self.queued().len() ==> n == 0,
    {
        if core_idx >= self.queues.len() {
            return 0;
        }
        self.queues[core_idx].len()
    }
}

/// One empty queue of `buffer_capacity` (rounded as `SpscRingBuffer::new`
/// rounds) per core, and a parameter cell holding `initial`.
pub fn create_infrastructure<E: Copy, P: Copy>(num_cores: usize, buffer_capacity: usize, initial: P) -> (r: (
    Vec<SpscRingBuffer<E>>,
    SeqLock<P>,
))
    requires
        buffer_capacity <= usize::MAX / 2 + 1,
    ensures
        r.0@.len() == num_cores,
        all_wf(r.0@),
        forall|i: int| 0 <= i < num_cores ==> (#[trigger] r.0@[i])@ == Seq::<E>::empty(),
        forall|i: int|
            0 <= i < num_cores ==> crate::spsc::rounded_capacity_ok(
                buffer_capacity as nat,
                (#[trigger] r.0@[i]).spec_capacity(),
            ),
        r.1.value() == initial,
        r.1.spec_sequence() == 0,
{
    let mut queues: Vec<SpscRingBuffer<E>> = Vec::new();
    let mut i: usize = 0;
    while i < num_cores
        invariant
            i <= num_cores,
            queues@.len() == i,
            buffer_capacity <= usize::MAX / 2 + 1,
            all_wf(queues@),
            forall|j: int| 0 <= j < i ==> (#[trigger] queues@[j])@ == Seq::<E>::empty(),
            forall|j: int|
                0 <= j < i ==> crate::spsc::rounded_capacity_ok(
                    buffer_capacity as nat,
                    (#[trigger] queues@[j]).spec_capacity(),
                ),
        decreases num_cores - i,
    {
        queues.push(SpscRingBuffer::new(buffer_capacity));
        i = i + 1;
    }
    (queues, SeqLock::new(initial))
}

} // verus!
