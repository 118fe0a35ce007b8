//! The staging ring: a bounded arena of host-visible bytes from which
//! per-frame upload regions are carved.
//!
//! Regions are carved only while recording, made immutable by `finish`
//! before submission, and recycled by `recall` once the consumer of the
//! submission is done with them. The ordering of `finish` and `recall`
//! around a submission is the caller's protocol, stated here as hard
//! preconditions; the ring itself is plain storage.

use vstd::prelude::*;

verus! {

/// Whether the current frame's regions are still being carved or have
/// been sealed for consumption.
#[derive(Clone, Copy, PartialEq, Eq, Structural, Debug)]
pub enum RingState {
    Recording,
    Finished,
}

/// The bounded staging arena. Its capacity grows (never shrinks) when a
/// frame's demand exceeds it; geometry is never dropped.
#[derive(Debug)]
pub struct StagingRing {
    bytes: Vec<u8>,
    capacity: usize,
    state: RingState,
}

/// The mathematical value of a [`StagingRing`].
#[verifier::ext_equal]
pub ghost struct RingView {
    pub bytes: Seq<u8>,
    pub capacity: nat,
    pub state: RingState,
}

impl View for StagingRing {
    type V = RingView;

    closed spec fn view(&self) -> RingView {
        RingView {
            bytes: self.bytes@,
            capacity: self.capacity as nat,
            state: self.state,
        }
    }
}

/// The bytes of one carved region, read back from the sealed arena.
pub open spec fn region_bytes(bytes: Seq<u8>, offset: int, len: int) -> Seq<u8> {
    bytes.subrange(offset, offset + len)
}

impl StagingRing {
    /// Everything carved so far fits the current capacity.
    pub open spec fn wf(&self) -> bool {
        self@.bytes.len() <= self@.capacity
    }

    /// An empty recording ring with the given capacity.
    pub fn new(capacity: usize) -> (r: StagingRing)
        ensures
            r.wf(),
            r@.bytes == Seq::<u8>::empty(),
            r@.capacity == capacity,
            r@.state == RingState::Recording,
    {
        let r = StagingRing { bytes: Vec::new(), capacity, state: RingState::Recording };
        proof {
            assert(r@.bytes =~= Seq::<u8>::empty());
        }
        r
    }

    /// Carves one region and fills it with `data`, growing the arena if
    /// the frame's demand exceeds the current capacity. Returns the
    /// region's offset. Only legal while recording.
    pub fn carve(&mut self, data: &Vec<u8>) -> (offset: usize)
        requires
            old(self).wf(),
            old(self)@.state == RingState::Recording,
        ensures
            final(self).wf(),
            final(self)@.state == RingState::Recording,
            offset == old(self)@.bytes.len(),
            final(self)@.bytes == old(self)@.bytes + data@,
            final(self)@.capacity >= old(self)@.capacity,
            old(self)@.bytes.len() + data@.len() <= old(self)@.capacity
                ==> final(self)@.capacity == old(self)@.capacity,
    {
        let offset = self.bytes.len();
        let mut i: usize = 0;
        while i < data.len()
            invariant
                i <= data.len(),
                self.bytes@ == old(self).bytes@ + data@.take(i as int),
                self.capacity == old(self).capacity,
                self.state == old(self).state,
            decreases data.len() - i,
        {
            self.bytes.push(data[i]);
            proof {
                assert(old(self).bytes@ + data@.take(i + 1 as int) =~= (old(self).bytes@
                    + data@.take(i as int)).push(data@[i as int]));
            }
            i = i + 1;
        }
        proof {
            assert(data@.take(data@.len() as int) =~= data@);
        }
        if self.bytes.len() > self.capacity {
            let doubled: usize = if self.capacity <= usize::MAX / 2 {
                self.capacity * 2
            } else {
                usize::MAX
            };
            self.capacity = if doubled >= self.bytes.len() {
                doubled
            } else {
                self.bytes.len()
            };
        }
        offset
    }

    /// Seals the frame's regions for consumption. Must follow all the
    /// frame's carves and precede submission.
    pub fn finish(&mut self)
        requires
            old(self)@.state == RingState::Recording,
        ensures
            final(self)@ == (RingView { state: RingState::Finished, ..old(self)@ }),
            old(self).wf() ==> final(self).wf(),
    {
        self.state = RingState::Finished;
        proof {
            assert(self@ =~= RingView { state: RingState::Finished, ..old(self)@ });
        }
    }

    /// Reads one sealed region back, as the consumer of the submission
    /// sees it.
    pub fn read_back(&self, offset: usize, len: usize) -> (r: Vec<u8>)
        requires
            self@.state == RingState::Finished,
            offset + len <= self@.bytes.len(),
        ensures
            r@ == region_bytes(self@.bytes, offset as int, len as int),
    {
        let mut r: Vec<u8> = Vec::new();
        let total = self.bytes.len();
        let mut i: usize = 0;
        while i < len
            invariant
                i <= len,
                offset + len <= total,
                total == self@.bytes.len(),
                r@ == self@.bytes.subrange(offset as int, offset + i),
            decreases len - i,
        {
            r.push(self.bytes[offset + i]);
            proof {
                assert(self@.bytes.subrange(offset as int, offset + i + 1) =~= self@.bytes
                    .subrange(offset as int, offset + i).push(self@.bytes[offset + i]));
            }
            i = i + 1;
        }
        r
    }

    /// Returns the arena to reusable state after the consumer of the
    /// prior submission is done. Recycling earlier than that is the
    /// protocol violation the preconditions exclude.
    pub fn recall(&mut self)
        requires
            old(self)@.state == RingState::Finished,
        ensures
            final(self).wf(),
            final(self)@.bytes == Seq::<u8>::empty(),
            final(self)@.capacity == old(self)@.capacity,
            final(self)@.state == RingState::Recording,
    {
        self.bytes = Vec::new();
        self.state = RingState::Recording;
        proof {
            assert(self@.bytes =~= Seq::<u8>::empty());
        }
    }

    /// The bytes still free in the current arena.
    pub fn available(&self) -> (r: usize)
        requires
            self.wf(),
        ensures
            r == self@.capacity - self@.bytes.len(),
    {
        self.capacity - self.bytes.len()
    }

    /// The current arena capacity.
    pub fn capacity(&self) -> (r: usize)
        ensures
            r == self@.capacity,
    {
        self.capacity
    }
}

/// Ring round-trip: a region carved into the arena is read back
/// unchanged by the consumer. If the sealed arena holds `before`, then a
/// carved region `data`, then `after`, reading the region at its offset
/// yields exactly `data`.
pub proof fn lemma_ring_round_trip(before: Seq<u8>, data: Seq<u8>, after: Seq<u8>)
    ensures
        region_bytes(before + data + after, before.len() as int, data.len() as int) == data,
{
    assert(region_bytes(before + data + after, before.len() as int, data.len() as int)
        =~= data);
}

} // verus!
