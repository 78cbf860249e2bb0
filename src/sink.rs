use vstd::prelude::*;

use std::collections::VecDeque;

verus! {

/// A capacity generous enough that producers wait for a worker only under
/// sustained bursts.
pub const DEFAULT_QUEUE_CAPACITY: usize = 128_000;

/// `n + 1`, except at `u64::MAX`, where a count stays.
pub open spec fn saturating_succ(n: nat) -> nat {
    if n < u64::MAX {
        n + 1
    } else {
        n
    }
}

/// What happened to a record offered to a sink's queue.
#[derive(Clone, Copy, Debug, PartialEq, Eq, Structural)]
pub enum Offer {
    /// Queued; the worker will write it.
    Accepted,
    /// The queue is at capacity: the record was not queued. The producer waits
    /// for the worker and offers it again; the wait was counted.
    Full,
    /// The sink was released: it takes no new records. The record is lost, and
    /// the loss was counted.
    Closed,
}

/// The bounded queue between the producers of one sink and its single worker.
///
/// Records leave in the order they were accepted. A record is refused only
/// with an `Offer` that says so; offers refused for want of room and records
/// dropped after release are counted apart. Once released, the queue takes
/// nothing new but still hands out what it holds.
pub struct SinkQueue {
    sink: usize,
    pending: VecDeque<String>,
    capacity: usize,
    closed: bool,
    waits: u64,
    dropped: u64,
    accepted_log: Ghost<Seq<String>>,
    delivered_log: Ghost<Seq<String>>,
}

impl SinkQueue {
    /// Records waiting for the worker, oldest first.
    pub closed spec fn pending(&self) -> Seq<String> {
        self.pending@
    }

    pub closed spec fn capacity_spec(&self) -> nat {
        self.capacity as nat
    }

    pub closed spec fn is_closed_spec(&self) -> bool {
        self.closed
    }

    /// The index of the sink the queue belongs to.
    pub closed spec fn sink_spec(&self) -> nat {
        self.sink as nat
    }

    /// How many offers found the queue full.
    pub closed spec fn waits_spec(&self) -> nat {
        self.waits as nat
    }

    /// How many records were offered after release, and so lost.
    pub closed spec fn dropped_spec(&self) -> nat {
        self.dropped as nat
    }

    /// Every record ever accepted, in order of acceptance.
    pub closed spec fn accepted(&self) -> Seq<String> {
        self.accepted_log@
    }

    /// Every record handed to the worker, in the order handed out.
    pub closed spec fn delivered(&self) -> Seq<String> {
        self.delivered_log@
    }

    /// What was accepted is what was delivered followed by what is pending;
    /// the queue holds at most its capacity.
    pub closed spec fn wf(&self) -> bool {
        &&& self.capacity > 0
        &&& self.pending@.len() <= self.capacity
        &&& self.accepted_log@ == self.delivered_log@ + self.pending@
    }

    /// An empty, open queue of sink `sink` that holds at most `capacity` records.
    pub fn new(sink: usize, capacity: usize) -> (q: SinkQueue)
        requires
            capacity > 0,
        ensures
            q.wf(),
            q.sink_spec() == sink,
            q.pending() == Seq::<String>::empty(),
            q.capacity_spec() == capacity,
            !q.is_closed_spec(),
            q.waits_spec() == 0,
            q.dropped_spec() == 0,
            q.accepted() == Seq::<String>::empty(),
            q.delivered() == Seq::<String>::empty(),
    {
        SinkQueue {
            sink,
            pending: VecDeque::new(),
            capacity,
            closed: false,
            waits: 0,
            dropped: 0,
            accepted_log: Ghost(Seq::empty()),
            delivered_log: Ghost(Seq::empty()),
        }
    }

    /// Offers one rendered record. It is accepted iff the queue is open and
    /// below capacity. Otherwise a full queue counts a wait and a released one
    /// counts a drop (each count saturates at `u64::MAX`).
    pub fn enqueue(&mut self, line: String) -> (r: Offer)
        requires
            old(self).wf(),
        ensures
            final(self).wf(),
            final(self).sink_spec() == old(self).sink_spec(),
            final(self).capacity_spec() == old(self).capacity_spec(),
            final(self).is_closed_spec() == old(self).is_closed_spec(),
            final(self).delivered() == old(self).delivered(),
            old(self).is_closed_spec() ==> r == Offer::Closed,
            !old(self).is_closed_spec() && old(self).pending().len() >= old(self).capacity_spec()
                ==> r == Offer::Full,
            !old(self).is_closed_spec() && old(self).pending().len() < old(self).capacity_spec()
                ==> r == Offer::Accepted,
            r == Offer::Accepted ==> {
                &&& final(self).pending() == old(self).pending().push(line)
                &&& final(self).accepted() == old(self).accepted().push(line)
            },
            r != Offer::Accepted ==> {
                &&& final(self).pending() == old(self).pending()
                &&& final(self).accepted() == old(self).accepted()
            },
            final(self).waits_spec() == if r == Offer::Full {
                saturating_succ(old(self).waits_spec())
            } else {
                old(self).waits_spec()
            },
            final(self).dropped_spec() == if r == Offer::Closed {
                saturating_succ(old(self).dropped_spec())
            } else {
                old(self).dropped_spec()
            },
    {
        if self.closed {
            if self.dropped < u64::MAX {
                self.dropped = self.dropped + 1;
            }
            Offer::Closed
        } else if self.pending.len() >= self.capacity {
            if self.waits < u64::MAX {
                self.waits = self.waits + 1;
            }
            Offer::Full
        } else {
            proof {
                self.accepted_log@ = self.accepted_log@.push(line);
            }
            self.pending.push_back(line);
            assert(self.accepted_log@ =~= self.delivered_log@ + self.pending@);
            Offer::Accepted
        }
    }

    /// Hands the oldest pending record to the worker, if there is one.
    pub fn take_next(&mut self) -> (r: Option<String>)
        requires
            old(self).wf(),
        ensures
            final(self).wf(),
            final(self).capacity_spec() == old(self).capacity_spec(),
            final(self).is_closed_spec() == old(self).is_closed_spec(),
            final(self).sink_spec() == old(self).sink_spec(),
            final(self).waits_spec() == old(self).waits_spec(),
            final(self).dropped_spec() == old(self).dropped_spec(),
            final(self).accepted() == old(self).accepted(),
            old(self).pending().len() == 0 ==> {
                &&& r is None
                &&& final(self).pending() == old(self).pending()
                &&& final(self).delivered() == old(self).delivered()
            },
            old(self).pending().len() > 0 ==> {
                &&& r == Some(old(self).pending()[0])
                &&& final(self).pending() == old(self).pending().drop_first()
                &&& final(self).delivered() == old(self).delivered().push(old(self).pending()[0])
            },
    {
        let r = self.pending.pop_front();
        match &r {
            Some(line) => {
                proof {
                    self.delivered_log@ = self.delivered_log@.push(*line);
                    assert(self.accepted_log@ =~= self.delivered_log@ + self.pending@);
                }
            },
            None => {},
        }
        r
    }

    /// Stops accepting records. What is pending stays and is still handed out.
    pub fn close(&mut self)
        requires
            old(self).wf(),
        ensures
            final(self).wf(),
            final(self).is_closed_spec(),
            final(self).pending() == old(self).pending(),
            final(self).capacity_spec() == old(self).capacity_spec(),
            final(self).sink_spec() == old(self).sink_spec(),
            final(self).waits_spec() == old(self).waits_spec(),
            final(self).dropped_spec() == old(self).dropped_spec(),
            final(self).accepted() == old(self).accepted(),
            final(self).delivered() == old(self).delivered(),
    {
        self.closed = true;
    }

    pub fn len(&self) -> (n: usize)
        requires
            self.wf(),
        ensures
            n == self.pending().len(),
    {
        self.pending.len()
    }

    pub fn capacity(&self) -> (n: usize)
        ensures
            n == self.capacity_spec(),
    {
        self.capacity
    }

    pub fn is_closed(&self) -> (b: bool)
        ensures
            b == self.is_closed_spec(),
    {
        self.closed
    }

    pub fn sink(&self) -> (n: usize)
        ensures
            n == self.sink_spec(),
    {
        self.sink
    }

    /// How many offers found the queue full.
    pub fn waits(&self) -> (n: u64)
        ensures
            n == self.waits_spec(),
    {
        self.waits
    }

    /// How many records were offered after release, and so lost.
    pub fn dropped(&self) -> (n: u64)
        ensures
            n == self.dropped_spec(),
    {
        self.dropped
    }

    /// Released and nothing left to hand out: the worker may stop.
    pub fn is_drained(&self) -> (b: bool)
        requires
            self.wf(),
        ensures
            b == (self.is_closed_spec() && self.pending().len() == 0),
    {
        self.closed && self.pending.len() == 0
    }
}

/// Records reach the worker in the order they were accepted: what has been
/// handed out is always a prefix of what was accepted.
pub proof fn lemma_fifo(q: &SinkQueue)
    requires
        q.wf(),
    ensures
        q.delivered().len() <= q.accepted().len(),
        forall|k: int| 0 <= k < q.delivered().len() ==> q.delivered()[k] == q.accepted()[k],
{
    assert(q.accepted() == q.delivered() + q.pending());
}

/// A released queue with nothing pending has handed out every record it ever
/// accepted, in order.
pub proof fn lemma_drained_delivers_all(q: &SinkQueue)
    requires
        q.wf(),
        q.pending().len() == 0,
    ensures
        q.delivered() == q.accepted(),
{
    assert(q.accepted() == q.delivered() + q.pending());
    assert(q.delivered() + q.pending() =~= q.delivered());
}

} // verus!
