//! A model of a split virtqueue as seen from the device: the chains that the
//! driver made available, the position of the next one to pop, and the used
//! ring that the device publishes.
use vstd::prelude::*;

verus! {

/// One descriptor of a chain: a guest-physical buffer.
#[derive(Clone, Copy, Debug, PartialEq, Eq)]
pub struct Descriptor {
    pub addr: u64,
    pub len: u32,
    pub write_only: bool,
}

/// A descriptor chain, rooted at the head `index`.
#[derive(Debug)]
pub struct DescriptorChain {
    pub index: u16,
    pub descriptors: Vec<Descriptor>,
}

/// One entry of the used ring: the chain's head and the bytes written into it.
#[derive(Clone, Copy, Debug, PartialEq, Eq)]
pub struct UsedElem {
    pub index: u16,
    pub len: u32,
}

impl DescriptorChain {
    /// A chain always holds at least its head descriptor.
    pub open spec fn wf(&self) -> bool {
        self.descriptors@.len() >= 1
    }

    /// The head descriptor.
    pub open spec fn head(&self) -> Descriptor {
        self.descriptors@[0]
    }

    pub fn new(index: u16, descriptors: Vec<Descriptor>) -> (r: DescriptorChain)
        ensures
            r.index == index,
            r.descriptors@ == descriptors@,
    {
        DescriptorChain { index, descriptors }
    }

    /// A copy of the chain.
    pub fn duplicate(&self) -> (r: DescriptorChain)
        ensures
            r.index == self.index,
            r.descriptors@ == self.descriptors@,
    {
        let mut descriptors: Vec<Descriptor> = Vec::new();
        let mut i: usize = 0;
        while i < self.descriptors.len()
            invariant
                i <= self.descriptors@.len(),
                descriptors@ == self.descriptors@.subrange(0, i as int),
            decreases self.descriptors@.len() - i,
        {
            descriptors.push(self.descriptors[i]);
            i += 1;
        }
        assert(descriptors@ =~= self.descriptors@);
        DescriptorChain { index: self.index, descriptors }
    }
}

/// The sum of the lengths recorded in a used ring.
pub open spec fn used_total(used: Seq<UsedElem>) -> int
    decreases used.len(),
{
    if used.len() == 0 {
        0
    } else {
        used_total(used.drop_last()) + used.last().len
    }
}

/// Appending one used entry adds its length to the total.
pub proof fn lemma_used_total_push(used: Seq<UsedElem>, e: UsedElem)
    ensures
        used_total(used.push(e)) == used_total(used) + e.len,
{
    assert(used.push(e).drop_last() =~= used);
}

/// A virtqueue: `chains` are the chains the driver has made available, in
/// order; those before `next_avail` have been popped by the device.
#[derive(Debug)]
pub struct Queue {
    pub size: u16,
    pub chains: Vec<DescriptorChain>,
    pub next_avail: usize,
    pub used: Vec<UsedElem>,
}

impl Queue {
    pub open spec fn wf(&self) -> bool {
        &&& self.next_avail <= self.chains@.len()
        &&& forall|i: int| 0 <= i < self.chains@.len() ==> (#[trigger] self.chains@[i]).wf()
    }

    /// The number of chains available to pop.
    pub open spec fn pending(&self) -> int {
        self.chains@.len() - self.next_avail
    }

    /// The chain that the next `pop` returns.
    pub open spec fn next_chain(&self) -> DescriptorChain {
        self.chains@[self.next_avail as int]
    }

    /// The queue is unchanged but for its used ring.
    pub open spec fn same_avail(&self, other: &Queue) -> bool {
        &&& self.size == other.size
        &&& self.chains@ == other.chains@
        &&& self.next_avail == other.next_avail
    }

    /// The queue is unchanged but for how far it was popped and its used
    /// ring.
    pub open spec fn same_chains(&self, other: &Queue) -> bool {
        &&& self.size == other.size
        &&& self.chains@ == other.chains@
    }

    pub fn new(size: u16) -> (r: Queue)
        ensures
            r.wf(),
            r.size == size,
            r.chains@.len() == 0,
            r.next_avail == 0,
            r.used@.len() == 0,
    {
        Queue { size, chains: Vec::new(), next_avail: 0, used: Vec::new() }
    }

    /// Driver side: offer one more chain to the device.
    pub fn add_chain(&mut self, chain: DescriptorChain)
        requires
            old(self).wf(),
            chain.wf(),
        ensures
            final(self).wf(),
            final(self).chains@ == old(self).chains@.push(chain),
            final(self).next_avail == old(self).next_avail,
            final(self).used@ == old(self).used@,
            final(self).size == old(self).size,
    {
        self.chains.push(chain);
        proof {
            assert forall|i: int| 0 <= i < self.chains@.len() implies (#[trigger] self.chains@[i]).wf() by {
                if i < old(self).chains@.len() {
                    assert(self.chains@[i] == old(self).chains@[i]);
                }
            }
        }
    }

    /// Removes the next available chain, if there is one.
    pub fn pop(&mut self) -> (r: Option<DescriptorChain>)
        requires
            old(self).wf(),
        ensures
            final(self).wf(),
            final(self).chains@ == old(self).chains@,
            final(self).used@ == old(self).used@,
            final(self).size == old(self).size,
            old(self).pending() == 0 ==> r.is_none() && final(self).next_avail == old(self).next_avail,
            old(self).pending() > 0 ==> {
                &&& r.is_some()
                &&& r.unwrap().index == old(self).next_chain().index
                &&& r.unwrap().descriptors@ == old(self).next_chain().descriptors@
                &&& final(self).next_avail == old(self).next_avail + 1
            },
    {
        if self.next_avail < self.chains.len() {
            let c = self.chains[self.next_avail].duplicate();
            self.next_avail = self.next_avail + 1;
            Some(c)
        } else {
            None
        }
    }

    /// Gives back the most recently popped chain, so that the next `pop`
    /// returns it again.
    pub fn undo_pop(&mut self)
        requires
            old(self).wf(),
            old(self).next_avail > 0,
        ensures
            final(self).wf(),
            final(self).chains@ == old(self).chains@,
            final(self).used@ == old(self).used@,
            final(self).size == old(self).size,
            final(self).next_avail == old(self).next_avail - 1,
    {
        self.next_avail = self.next_avail - 1;
    }

    /// Publishes the completion of the chain rooted at `index`, with `len`
    /// bytes written into it.
    pub fn add_used(&mut self, index: u16, len: u32)
        requires
            old(self).wf(),
        ensures
            final(self).wf(),
            final(self).same_avail(old(self)),
            final(self).used@ == old(self).used@.push(UsedElem { index, len }),
    {
        self.used.push(UsedElem { index, len });
    }

    /// True when no chain is available to pop.
    pub fn is_empty(&self) -> (r: bool)
        requires
            self.wf(),
        ensures
            r == (self.pending() == 0),
    {
        self.next_avail >= self.chains.len()
    }

    pub fn actual_size(&self) -> (r: u16)
        ensures
            r == self.size,
    {
        self.size
    }
}

} // verus!
