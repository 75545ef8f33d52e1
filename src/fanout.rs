use vstd::prelude::*;

verus! {

/// The per-subscriber queue of framed log records. A full queue drops what
/// is offered and counts it rather than making the producer wait.
pub struct LogChannel {
    items: Vec<Vec<u8>>,
    capacity: usize,
    dropped: u64,
    accepted: Ghost<Seq<Seq<u8>>>,
    delivered: Ghost<nat>,
}

impl LogChannel {
    /// Every frame the queue took, in the order it took them.
    pub closed spec fn accepted(&self) -> Seq<Seq<u8>> {
        self.accepted@
    }

    /// How many of the accepted frames were handed out.
    pub closed spec fn delivered(&self) -> nat {
        self.delivered@
    }

    pub closed spec fn capacity(&self) -> nat {
        self.capacity as nat
    }

    pub closed spec fn dropped(&self) -> nat {
        self.dropped as nat
    }

    /// The waiting frames are the accepted frames not yet handed out, in
    /// order, and no more than `capacity` of them.
    pub closed spec fn wf(&self) -> bool {
        &&& self.delivered@ <= self.accepted@.len()
        &&& self.items@.len() == self.accepted@.len() - self.delivered@
        &&& forall|i: int|
            0 <= i < self.items@.len() ==> (#[trigger] self.items@[i])@ == self.accepted@[self.delivered@
                + i]
        &&& self.items@.len() <= self.capacity
    }

    pub fn new(capacity: usize) -> (r: Self)
        ensures
            r.wf(),
            r.accepted() == Seq::<Seq<u8>>::empty(),
            r.delivered() == 0,
            r.dropped() == 0,
            r.capacity() == capacity,
    {
        LogChannel {
            items: Vec::new(),
            capacity,
            dropped: 0,
            accepted: Ghost(Seq::empty()),
            delivered: Ghost(0),
        }
    }

    /// The number of frames waiting.
    pub fn len(&self) -> (r: usize)
        requires
            self.wf(),
        ensures
            r == self.accepted().len() - self.delivered(),
    {
        self.items.len()
    }

    /// Offers a frame: taken when fewer than `capacity` frames wait,
    /// otherwise dropped and counted (the count saturates).
    pub fn offer(&mut self, frame: Vec<u8>) -> (taken: bool)
        requires
            old(self).wf(),
        ensures
            final(self).wf(),
            final(self).capacity() == old(self).capacity(),
            final(self).delivered() == old(self).delivered(),
            taken == (old(self).accepted().len() - old(self).delivered() < old(self).capacity()),
            taken ==> final(self).accepted() == old(self).accepted().push(frame@),
            taken ==> final(self).dropped() == old(self).dropped(),
            !taken ==> final(self).accepted() == old(self).accepted(),
            !taken ==> final(self).dropped() == (if old(self).dropped() < u64::MAX {
                old(self).dropped() + 1
            } else {
                old(self).dropped()
            }),
    {
        if self.items.len() < self.capacity {
            let ghost f = frame@;
            self.items.push(frame);
            self.accepted = Ghost(self.accepted@.push(f));
            true
        } else {
            if self.dropped < u64::MAX {
                self.dropped = self.dropped + 1;
            }
            false
        }
    }

    /// Hands out the oldest waiting frame: the accepted frames come out in
    /// the order they were taken, each once.
    pub fn take(&mut self) -> (r: Option<Vec<u8>>)
        requires
            old(self).wf(),
        ensures
            final(self).wf(),
            final(self).accepted() == old(self).accepted(),
            final(self).capacity() == old(self).capacity(),
            final(self).dropped() == old(self).dropped(),
            old(self).delivered() < old(self).accepted().len() ==> (r matches Some(f) && f@
                == old(self).accepted()[old(self).delivered() as int]),
            old(self).delivered() < old(self).accepted().len() ==> final(self).delivered()
                == old(self).delivered() + 1,
            old(self).delivered() == old(self).accepted().len() ==> r is None,
            old(self).delivered() == old(self).accepted().len() ==> final(self).delivered()
                == old(self).delivered(),
    {
        if self.items.len() == 0 {
            return None;
        }
        let ghost before = self.items@;
        let f = self.items.remove(0);
        proof {
            assert(f@ == before[0]@);
            assert forall|i: int| 0 <= i < self.items@.len() implies (#[trigger] self.items@[i])@
                == self.accepted@[self.delivered@ + 1 + i] by {
                assert(self.items@[i] == before[i + 1]);
            }
        }
        self.delivered = Ghost(self.delivered@ + 1);
        Some(f)
    }

    /// How many frames were dropped because the queue was full.
    pub fn dropped_count(&self) -> (r: u64)
        ensures
            r == self.dropped(),
    {
        self.dropped
    }
}

} // verus!
