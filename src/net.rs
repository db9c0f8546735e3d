//! The virtio network device: frames from the layer-2 relay go into the
//! receive queue behind a zeroed virtio-net header, and chains from the
//! transmit queue go out as length-prefixed frames.
use crate::device::{config_read, raised, read_config_image, VIRTIO_MMIO_INT_VRING};
use crate::framing::wire_frame;
use crate::memory::{overwrite, range_fits, GuestMemory, MemoryError};
use crate::queue::{used_total, Descriptor, DescriptorChain, Queue, UsedElem};
use vstd::prelude::*;

verus! {

pub const MAX_BUFFER_SIZE: usize = 65562;
pub const QUEUE_SIZE: u16 = 256;
pub const NUM_QUEUES: usize = 2;
/// The index of the rx queue among the device's queues.
pub const RX_INDEX: usize = 0;
/// The index of the tx queue among the device's queues.
pub const TX_INDEX: usize = 1;
pub const MAC_ADDR_LEN: usize = 6;
pub const TYPE_NET: u32 = 1;

/// Feature bit: the device has a MAC address in its configuration space.
pub const VIRTIO_NET_F_MAC: u64 = 5;
/// `GUEST_CSUM`, `CSUM`, `GUEST_TSO4`, `GUEST_UFO`, `HOST_TSO4`, `HOST_UFO`
/// and `F_VERSION_1`.
pub const BASE_FEATURES: u64 = 0x1_0000_4c83;
/// `BASE_FEATURES` with `MAC`.
pub const MAC_FEATURES: u64 = 0x1_0000_4ca3;

/// Bytes of the virtio-net header in front of each frame.
pub open spec fn vnet_hdr_size() -> int {
    12
}

/// Relies on `virtio_bindings::virtio_net::virtio_net_hdr_v1`, whose layout
/// (flags, gso_type, hdr_len, gso_size, csum_start, csum_offset,
/// num_buffers) the crate asserts at compile time to be 12 bytes.
#[verifier::external_body]
fn vnet_hdr_len() -> (r: usize)
    ensures
        r == vnet_hdr_size(),
{
    std::mem::size_of::<virtio_bindings::virtio_net::virtio_net_hdr_v1>()
}

/// Zeroes the virtio-net header at the front of `buf` and returns its length.
pub fn write_virtio_net_hdr(buf: &mut [u8]) -> (r: usize)
    requires
        old(buf)@.len() >= vnet_hdr_size(),
    ensures
        r == vnet_hdr_size(),
        final(buf)@ == Seq::new(r as nat, |i: int| 0u8) + old(buf)@.subrange(r as int, old(buf)@.len() as int),
{
    let len = vnet_hdr_len();
    let ghost before = buf@;
    let mut i: usize = 0;
    while i < len
        invariant
            i <= len,
            len == vnet_hdr_size(),
            len <= before.len(),
            buf@ == Seq::new(i as nat, |j: int| 0u8) + before.subrange(i as int, before.len() as int),
        decreases len - i,
    {
        buf[i] = 0;
        i += 1;
        assert(buf@ =~= Seq::new(i as nat, |j: int| 0u8) + before.subrange(i as int, before.len() as int));
    }
    len
}

/// The network device's configuration space.
#[derive(Clone, Copy, Debug)]
pub struct ConfigSpace {
    pub guest_mac: [u8; 6],
}

impl Default for ConfigSpace {
    fn default() -> (r: ConfigSpace)
        ensures
            r.guest_mac@ == seq![0u8, 0u8, 0u8, 0u8, 0u8, 0u8],
    {
        let r = ConfigSpace { guest_mac: [0u8; 6] };
        assert(r.guest_mac@ =~= seq![0u8, 0u8, 0u8, 0u8, 0u8, 0u8]);
        r
    }
}

/// Why a frame could not be written into a receive chain.
#[derive(Clone, Copy, Debug, PartialEq, Eq)]
pub enum FrontendError {
    DescriptorChainTooSmall,
    EmptyQueue,
    GuestMemory(MemoryError),
    ReadOnlyDescriptor,
}

/// The outcome of writing a frame into a descriptor chain.
pub struct ChainWrite {
    pub result: Result<(), FrontendError>,
    pub mem: Seq<u8>,
    /// The pieces of the frame written into the descriptors, in order.
    pub pieces: Seq<Seq<u8>>,
}

/// Writes `frame` from byte `off` on into `descs` from descriptor `i` on:
/// each write-only descriptor takes as much as it holds. A descriptor that
/// is not write-only, or that lies outside guest memory, stops the write
/// with an error, and so does running out of descriptors first.
pub open spec fn write_chain(descs: Seq<Descriptor>, frame: Seq<u8>, mem: Seq<u8>, i: int, off: int) -> ChainWrite
    decreases descs.len() - i,
{
    if off >= frame.len() {
        ChainWrite { result: Ok(()), mem, pieces: Seq::empty() }
    } else if i < 0 || i >= descs.len() {
        ChainWrite { result: Err(FrontendError::DescriptorChainTooSmall), mem, pieces: Seq::empty() }
    } else if !descs[i].write_only {
        ChainWrite { result: Err(FrontendError::ReadOnlyDescriptor), mem, pieces: Seq::empty() }
    } else {
        let len = if frame.len() - off < descs[i].len { frame.len() - off } else { descs[i].len as int };
        let piece = frame.subrange(off, off + len);
        if !range_fits(mem.len() as int, descs[i].addr as int, len) {
            ChainWrite { result: Err(FrontendError::GuestMemory(MemoryError::OutOfBounds)), mem, pieces: Seq::empty() }
        } else {
            let rest = write_chain(descs, frame, overwrite(mem, descs[i].addr as int, piece), i + 1, off + len);
            ChainWrite { pieces: seq![piece] + rest.pieces, ..rest }
        }
    }
}

/// The total length of the descriptors from `i` on.
pub open spec fn chain_capacity(descs: Seq<Descriptor>, i: int) -> int
    decreases descs.len() - i,
{
    if i < 0 || i >= descs.len() {
        0
    } else {
        descs[i].len + chain_capacity(descs, i + 1)
    }
}

proof fn lemma_write_chain_not_empty_queue(descs: Seq<Descriptor>, frame: Seq<u8>, mem: Seq<u8>, i: int, off: int)
    ensures
        write_chain(descs, frame, mem, i, off).result != Err::<(), FrontendError>(FrontendError::EmptyQueue),
    decreases descs.len() - i,
{
    if off < frame.len() && 0 <= i < descs.len() && descs[i].write_only {
        let len = if frame.len() - off < descs[i].len { frame.len() - off } else { descs[i].len as int };
        let piece = frame.subrange(off, off + len);
        if range_fits(mem.len() as int, descs[i].addr as int, len) {
            lemma_write_chain_not_empty_queue(descs, frame, overwrite(mem, descs[i].addr as int, piece), i + 1, off + len);
        }
    }
}

proof fn lemma_capacity_nonneg(descs: Seq<Descriptor>, i: int)
    ensures
        chain_capacity(descs, i) >= 0,
    decreases descs.len() - i,
{
    if 0 <= i < descs.len() {
        lemma_capacity_nonneg(descs, i + 1);
    }
}

/// A frame written into a chain without error was split over the chain's
/// descriptors in order: the pieces written, one after the other, are the
/// frame. A frame longer than all the chain's descriptors together is
/// never written without error.
pub proof fn lemma_frame_split(descs: Seq<Descriptor>, frame: Seq<u8>, mem: Seq<u8>, i: int, off: int)
    requires
        0 <= i <= descs.len(),
        0 <= off <= frame.len(),
    ensures
        write_chain(descs, frame, mem, i, off).result is Ok ==> write_chain(descs, frame, mem, i, off).pieces.flatten()
            == frame.subrange(off, frame.len() as int),
        chain_capacity(descs, i) < frame.len() - off ==> write_chain(descs, frame, mem, i, off).result is Err,
    decreases descs.len() - i,
{
    lemma_capacity_nonneg(descs, i);
    if off >= frame.len() {
        assert(frame.subrange(off, frame.len() as int) =~= Seq::<u8>::empty());
    } else if i >= descs.len() {
    } else if !descs[i].write_only {
    } else {
        let len = if frame.len() - off < descs[i].len { frame.len() - off } else { descs[i].len as int };
        let piece = frame.subrange(off, off + len);
        if range_fits(mem.len() as int, descs[i].addr as int, len) {
            let m2 = overwrite(mem, descs[i].addr as int, piece);
            lemma_capacity_nonneg(descs, i + 1);
            lemma_frame_split(descs, frame, m2, i + 1, off + len);
            let rest = write_chain(descs, frame, m2, i + 1, off + len);
            let all = seq![piece] + rest.pieces;
            assert(all.first() == piece);
            assert(all.drop_first() =~= rest.pieces);
            if rest.result is Ok {
                assert(frame.subrange(off, frame.len() as int) =~= piece + frame.subrange(off + len, frame.len() as int));
            }
        }
    }
}

/// The receive queue and guest memory while frames are delivered.
pub struct RxDelivery {
    pub next: int,
    pub used: Seq<UsedElem>,
    pub mem: Seq<u8>,
}

/// Delivers `frame` to the first chain from `s.next` on that takes it
/// whole, trying at most `tries` chains. Each chain tried is used: with the
/// frame's length when it took the frame, with zero otherwise. Returns
/// whether the frame was delivered; running out of chains ends the attempt.
pub open spec fn deliver(chains: Seq<DescriptorChain>, frame: Seq<u8>, s: RxDelivery, tries: nat) -> (bool, RxDelivery)
    decreases tries,
{
    if tries == 0 || s.next < 0 || s.next >= chains.len() {
        (false, s)
    } else {
        let chain = chains[s.next];
        let w = write_chain(chain.descriptors@, frame, s.mem, 0, 0);
        let len: u32 = if w.result is Ok { frame.len() as u32 } else { 0 };
        let s1 = RxDelivery { next: s.next + 1, used: s.used.push(UsedElem { index: chain.index, len }), mem: w.mem };
        if w.result is Ok {
            (true, s1)
        } else {
            deliver(chains, frame, s1, (tries - 1) as nat)
        }
    }
}

proof fn lemma_deliver_bounds(chains: Seq<DescriptorChain>, frame: Seq<u8>, s: RxDelivery, tries: nat)
    requires
        0 <= s.next <= chains.len(),
    ensures
        s.next <= deliver(chains, frame, s, tries).1.next <= chains.len(),
    decreases tries,
{
    if tries == 0 || s.next >= chains.len() {
    } else {
        let chain = chains[s.next];
        let w = write_chain(chain.descriptors@, frame, s.mem, 0, 0);
        let len: u32 = if w.result is Ok { frame.len() as u32 } else { 0 };
        let s1 = RxDelivery { next: s.next + 1, used: s.used.push(UsedElem { index: chain.index, len }), mem: w.mem };
        if !(w.result is Ok) {
            lemma_deliver_bounds(chains, frame, s1, (tries - 1) as nat);
        }
    }
}

/// On the receive queue the used lengths add up to the bytes delivered:
/// delivering a frame adds its length when it was delivered and nothing
/// when it was dropped.
pub proof fn lemma_rx_used_total(chains: Seq<DescriptorChain>, frame: Seq<u8>, s: RxDelivery, tries: nat)
    requires
        frame.len() <= u32::MAX,
    ensures
        used_total(deliver(chains, frame, s, tries).1.used) == used_total(s.used) + if deliver(
            chains,
            frame,
            s,
            tries,
        ).0 {
            frame.len() as int
        } else {
            0
        },
    decreases tries,
{
    if tries == 0 || s.next < 0 || s.next >= chains.len() {
    } else {
        let chain = chains[s.next];
        let w = write_chain(chain.descriptors@, frame, s.mem, 0, 0);
        let len: u32 = if w.result is Ok { frame.len() as u32 } else { 0 };
        let e = UsedElem { index: chain.index, len };
        let s1 = RxDelivery { next: s.next + 1, used: s.used.push(e), mem: w.mem };
        crate::queue::lemma_used_total_push(s.used, e);
        if !(w.result is Ok) {
            lemma_rx_used_total(chains, frame, s1, (tries - 1) as nat);
        }
    }
}

/// The transmit queue and the frames sent so far.
pub struct TxRun {
    pub next: int,
    pub used: Seq<UsedElem>,
    /// Stream bytes of each frame sent, in order.
    pub frames: Seq<Seq<u8>>,
}

/// The bytes of `descs` from descriptor `i` on appended to `acc`, up to
/// `MAX_BUFFER_SIZE` in all; `None` when the chain holds a write-only
/// descriptor or a buffer outside guest memory.
pub open spec fn gather(descs: Seq<Descriptor>, mem: Seq<u8>, i: int, acc: Seq<u8>) -> Option<Seq<u8>>
    decreases descs.len() - i,
{
    if i < 0 || i >= descs.len() {
        Some(acc)
    } else if descs[i].write_only {
        None
    } else {
        let room = MAX_BUFFER_SIZE - acc.len();
        let len = if (descs[i].len as int) < room { descs[i].len as int } else { room };
        if !range_fits(mem.len() as int, descs[i].addr as int, len) {
            None
        } else {
            gather(descs, mem, i + 1, acc + mem.subrange(descs[i].addr as int, descs[i].addr + len))
        }
    }
}

/// The frame a gathered chain carries, behind the virtio-net header the
/// guest wrote; none when the chain was malformed or holds no more than the
/// header.
pub open spec fn tx_frame_of(g: Option<Seq<u8>>) -> Option<Seq<u8>> {
    match g {
        Some(b) => if b.len() > vnet_hdr_size() {
            Some(wire_frame(b.subrange(vnet_hdr_size(), b.len() as int)))
        } else {
            None
        },
        None => None,
    }
}

/// Sends every chain of the transmit queue from `s.next` on: each is used
/// with length zero, and the frame it carries, if any, goes to the stream.
pub open spec fn tx_frames(chains: Seq<DescriptorChain>, mem: Seq<u8>, s: TxRun) -> TxRun
    decreases chains.len() - s.next,
{
    if s.next < 0 || s.next >= chains.len() {
        s
    } else {
        let chain = chains[s.next];
        let f = tx_frame_of(gather(chain.descriptors@, mem, 0, Seq::empty()));
        tx_frames(
            chains,
            mem,
            TxRun {
                next: s.next + 1,
                used: s.used.push(UsedElem { index: chain.index, len: 0 }),
                frames: if f is Some { s.frames.push(f.unwrap()) } else { s.frames },
            },
        )
    }
}

proof fn lemma_tx_frames_bounds(chains: Seq<DescriptorChain>, mem: Seq<u8>, s: TxRun)
    requires
        0 <= s.next <= chains.len(),
    ensures
        s.next <= tx_frames(chains, mem, s).next <= chains.len(),
    decreases chains.len() - s.next,
{
    if s.next < chains.len() {
        let chain = chains[s.next];
        let f = tx_frame_of(gather(chain.descriptors@, mem, 0, Seq::empty()));
        lemma_tx_frames_bounds(
            chains,
            mem,
            TxRun {
                next: s.next + 1,
                used: s.used.push(UsedElem { index: chain.index, len: 0 }),
                frames: if f is Some { s.frames.push(f.unwrap()) } else { s.frames },
            },
        );
    }
}

/// On the transmit queue every used length is zero: sending adds nothing to
/// the used total.
pub proof fn lemma_tx_used_total(chains: Seq<DescriptorChain>, mem: Seq<u8>, s: TxRun)
    ensures
        used_total(tx_frames(chains, mem, s).used) == used_total(s.used),
    decreases chains.len() - s.next,
{
    if 0 <= s.next < chains.len() {
        let chain = chains[s.next];
        let f = tx_frame_of(gather(chain.descriptors@, mem, 0, Seq::empty()));
        let e = UsedElem { index: chain.index, len: 0 };
        crate::queue::lemma_used_total_push(s.used, e);
        lemma_tx_used_total(
            chains,
            mem,
            TxRun { next: s.next + 1, used: s.used.push(e), frames: if f is Some { s.frames.push(f.unwrap()) } else { s.frames } },
        );
    }
}

/// What reading the next frame from the stream gave.
#[derive(Debug)]
pub enum StreamRead {
    Frame(Vec<u8>),
    /// No frame is ready yet.
    WouldBlock,
    /// The stream failed.
    Failed,
}

/// What the receive loop does next.
#[derive(Clone, Copy, Debug, PartialEq, Eq)]
pub enum RxAction {
    ReadAgain,
    Done,
    Fail,
}

pub struct Net {
    pub id: String,
    pub avail_features: u64,
    pub acked_features: u64,
    pub queues: Vec<Queue>,
    /// A receive chain was used and the driver has not been told yet.
    pub rx_deferred_irqs: bool,
    /// Bytes of `rx_frame_buf` that hold the frame being received.
    pub rx_bytes_read: usize,
    /// The frame being received, behind its virtio-net header.
    pub rx_frame_buf: Vec<u8>,
    pub interrupt_status: u32,
    /// An interrupt was raised that has not yet been delivered.
    pub irq_pending: bool,
    pub config_space: ConfigSpace,
    pub guest_mac: Option<[u8; 6]>,
    pub activated: bool,
    pub mem: GuestMemory,
    pub irq_line: Option<u32>,
}

impl Net {
    pub open spec fn wf(&self) -> bool {
        &&& self.queues@.len() == NUM_QUEUES
        &&& self.queues@[RX_INDEX as int].wf()
        &&& self.queues@[TX_INDEX as int].wf()
        &&& self.rx_frame_buf@.len() == MAX_BUFFER_SIZE
        &&& self.rx_bytes_read <= MAX_BUFFER_SIZE
    }

    /// The frame being received, header included.
    pub open spec fn rx_frame(&self) -> Seq<u8> {
        self.rx_frame_buf@.subrange(0, self.rx_bytes_read as int)
    }

    /// The receive queue and guest memory, as delivering a frame sees them.
    pub open spec fn rx_delivery(&self) -> RxDelivery {
        RxDelivery {
            next: self.queues@[RX_INDEX as int].next_avail as int,
            used: self.queues@[RX_INDEX as int].used@,
            mem: self.mem@,
        }
    }

    /// The transmit queue, as sending frames sees it.
    pub open spec fn tx_run(&self) -> TxRun {
        TxRun {
            next: self.queues@[TX_INDEX as int].next_avail as int,
            used: self.queues@[TX_INDEX as int].used@,
            frames: Seq::empty(),
        }
    }

    /// Everything but the queues, guest memory, the frame being received and
    /// the interrupt state is as in `o`.
    pub open spec fn same_setup(&self, o: &Net) -> bool {
        &&& self.id@ == o.id@
        &&& self.avail_features == o.avail_features
        &&& self.acked_features == o.acked_features
        &&& self.config_space == o.config_space
        &&& self.guest_mac == o.guest_mac
        &&& self.activated == o.activated
        &&& self.irq_line == o.irq_line
    }

    /// The interrupt state is as in `o`.
    pub open spec fn same_irq(&self, o: &Net) -> bool {
        &&& self.interrupt_status == o.interrupt_status
        &&& self.irq_pending == o.irq_pending
        &&& self.rx_deferred_irqs == o.rx_deferred_irqs
    }

    /// A device with MAC address `guest_mac`, if one is given.
    pub fn new(id: String, guest_mac: Option<[u8; 6]>) -> (r: Net)
        ensures
            r.wf(),
            r.id@ == id@,
            r.avail_features == (if guest_mac.is_some() { MAC_FEATURES } else { BASE_FEATURES }),
            r.acked_features == 0,
            guest_mac.is_some() ==> r.config_space.guest_mac@ == guest_mac.unwrap()@,
            guest_mac.is_none() ==> r.config_space.guest_mac@ == seq![0u8, 0u8, 0u8, 0u8, 0u8, 0u8],
            r.guest_mac == guest_mac,
            r.queues@[RX_INDEX as int].pending() == 0,
            r.queues@[TX_INDEX as int].pending() == 0,
            r.queues@[RX_INDEX as int].next_avail == 0,
            r.queues@[TX_INDEX as int].next_avail == 0,
            r.queues@[RX_INDEX as int].used@.len() == 0,
            r.queues@[TX_INDEX as int].used@.len() == 0,
            r.queues@[RX_INDEX as int].size == QUEUE_SIZE,
            r.queues@[TX_INDEX as int].size == QUEUE_SIZE,
            !r.rx_deferred_irqs,
            r.rx_frame().len() == 0,
            r.interrupt_status == 0,
            !r.irq_pending,
            !r.activated,
            r.irq_line.is_none(),
    {
        let mut avail_features = BASE_FEATURES;
        let mut config_space = ConfigSpace::default();
        match guest_mac {
            Some(mac) => {
                config_space.guest_mac = mac;
                avail_features = MAC_FEATURES;
            },
            None => {},
        }
        let mut rx_frame_buf: Vec<u8> = Vec::new();
        let mut i: usize = 0;
        while i < MAX_BUFFER_SIZE
            invariant
                i <= MAX_BUFFER_SIZE,
                rx_frame_buf@.len() == i,
            decreases MAX_BUFFER_SIZE - i,
        {
            rx_frame_buf.push(0u8);
            i += 1;
        }
        let mut queues: Vec<Queue> = Vec::new();
        queues.push(Queue::new(QUEUE_SIZE));
        queues.push(Queue::new(QUEUE_SIZE));
        Net {
            id,
            avail_features,
            acked_features: 0,
            queues,
            rx_deferred_irqs: false,
            rx_bytes_read: 0,
            rx_frame_buf,
            interrupt_status: 0,
            irq_pending: false,
            config_space,
            guest_mac,
            activated: false,
            mem: GuestMemory::new(0),
            irq_line: None,
        }
    }

    /// Provides the ID of this net device.
    pub fn id(&self) -> (r: &String)
        ensures
            r@ == self.id@,
    {
        &self.id
    }

    /// Provides the MAC of this net device.
    pub fn guest_mac(&self) -> (r: Option<[u8; 6]>)
        ensures
            r == self.guest_mac,
    {
        self.guest_mac
    }

    /// Tells the driver that queues have new used entries; no receive
    /// interrupt stays deferred.
    pub fn signal_used_queue(&mut self)
        ensures
            final(self).interrupt_status == raised(old(self).interrupt_status, VIRTIO_MMIO_INT_VRING),
            final(self).irq_pending,
            !final(self).rx_deferred_irqs,
            final(self).same_setup(old(self)),
            final(self).queues@ == old(self).queues@,
            final(self).mem@ == old(self).mem@,
            final(self).rx_frame_buf@ == old(self).rx_frame_buf@,
            final(self).rx_bytes_read == old(self).rx_bytes_read,
    {
        self.interrupt_status = self.interrupt_status | VIRTIO_MMIO_INT_VRING;
        self.irq_pending = true;
        self.rx_deferred_irqs = false;
    }

    /// Raises the receive interrupt that was deferred, if one was.
    pub fn signal_rx_used_queue(&mut self)
        ensures
            old(self).rx_deferred_irqs ==> final(self).interrupt_status == raised(
                old(self).interrupt_status,
                VIRTIO_MMIO_INT_VRING,
            ) && final(self).irq_pending && !final(self).rx_deferred_irqs,
            !old(self).rx_deferred_irqs ==> final(self).same_irq(old(self)),
            final(self).same_setup(old(self)),
            final(self).queues@ == old(self).queues@,
            final(self).mem@ == old(self).mem@,
            final(self).rx_frame_buf@ == old(self).rx_frame_buf@,
            final(self).rx_bytes_read == old(self).rx_bytes_read,
    {
        if self.rx_deferred_irqs {
            self.signal_used_queue();
        }
    }

    /// Hands a raised interrupt over for delivery: true when one was pending.
    pub fn take_irq(&mut self) -> (r: bool)
        ensures
            r == old(self).irq_pending,
            !final(self).irq_pending,
            final(self).interrupt_status == old(self).interrupt_status,
            final(self).rx_deferred_irqs == old(self).rx_deferred_irqs,
            final(self).same_setup(old(self)),
            final(self).queues@ == old(self).queues@,
            final(self).mem@ == old(self).mem@,
            final(self).rx_frame_buf@ == old(self).rx_frame_buf@,
            final(self).rx_bytes_read == old(self).rx_bytes_read,
    {
        let r = self.irq_pending;
        self.irq_pending = false;
        r
    }

    /// The driver acknowledges the interrupt bits in `bits`.
    pub fn ack_interrupt(&mut self, bits: u32)
        ensures
            final(self).interrupt_status == crate::device::acknowledged(old(self).interrupt_status, bits),
            final(self).irq_pending == old(self).irq_pending,
            final(self).rx_deferred_irqs == old(self).rx_deferred_irqs,
            final(self).same_setup(old(self)),
            final(self).queues@ == old(self).queues@,
            final(self).mem@ == old(self).mem@,
            final(self).rx_frame_buf@ == old(self).rx_frame_buf@,
            final(self).rx_bytes_read == old(self).rx_bytes_read,
    {
        self.interrupt_status = self.interrupt_status & !bits;
    }

    /// The `len` bytes of the frame buffer from `off` on.
    fn rx_piece(&self, off: usize, len: usize) -> (r: Vec<u8>)
        requires
            self.wf(),
            off + len <= self.rx_frame_buf@.len(),
        ensures
            r@ == self.rx_frame_buf@.subrange(off as int, off + len),
    {
        let mut out: Vec<u8> = Vec::new();
        let mut i: usize = 0;
        while i < len
            invariant
                i <= len,
                off + len <= self.rx_frame_buf@.len(),
                self.rx_frame_buf@.len() == MAX_BUFFER_SIZE,
                out@ == self.rx_frame_buf@.subrange(off as int, off + i),
            decreases len - i,
        {
            out.push(self.rx_frame_buf[off + i]);
            i += 1;
            assert(out@ =~= self.rx_frame_buf@.subrange(off as int, off + i));
        }
        out
    }

    /// Copies the frame being received into the next receive chain. The
    /// chain is used: with the frame's length when it took the whole frame,
    /// with zero when it did not.
    pub fn do_write_frame_to_guest(&mut self) -> (r: Result<(), FrontendError>)
        requires
            old(self).wf(),
            old(self).activated,
        ensures
            final(self).wf(),
            final(self).same_setup(old(self)),
            final(self).rx_frame_buf@ == old(self).rx_frame_buf@,
            final(self).rx_bytes_read == old(self).rx_bytes_read,
            final(self).queues@[TX_INDEX as int] == old(self).queues@[TX_INDEX as int],
            final(self).queues@[RX_INDEX as int].same_chains(&old(self).queues@[RX_INDEX as int]),
            final(self).interrupt_status == old(self).interrupt_status,
            final(self).irq_pending == old(self).irq_pending,
            old(self).queues@[RX_INDEX as int].pending() == 0 ==> {
                &&& r == Err::<(), FrontendError>(FrontendError::EmptyQueue)
                &&& final(self).rx_delivery() == old(self).rx_delivery()
                &&& final(self).rx_deferred_irqs == old(self).rx_deferred_irqs
            },
            old(self).queues@[RX_INDEX as int].pending() > 0 ==> ({
                let frame = old(self).rx_frame();
                let chain = old(self).queues@[RX_INDEX as int].next_chain();
                let w = write_chain(chain.descriptors@, frame, old(self).mem@, 0, 0);
                let len: u32 = if w.result is Ok { frame.len() as u32 } else { 0 };
                &&& r == w.result
                &&& r != Err::<(), FrontendError>(FrontendError::EmptyQueue)
                &&& final(self).rx_delivery() == (RxDelivery {
                    next: old(self).rx_delivery().next + 1,
                    used: old(self).rx_delivery().used.push(UsedElem { index: chain.index, len }),
                    mem: w.mem,
                })
                &&& final(self).rx_deferred_irqs
            }),
    {
        proof {
            if self.queues@[RX_INDEX as int].pending() > 0 {
                lemma_write_chain_not_empty_queue(
                    self.queues@[RX_INDEX as int].next_chain().descriptors@,
                    self.rx_frame(),
                    self.mem@,
                    0,
                    0,
                );
            }
        }
        let popped = self.queues[RX_INDEX].pop();
        let chain = match popped {
            None => {
                return Err(FrontendError::EmptyQueue);
            },
            Some(c) => c,
        };
        let frame_len = self.rx_bytes_read;
        let ghost frame = self.rx_frame();
        let ghost descs = chain.descriptors@;
        let ghost target = write_chain(descs, frame, self.mem@, 0, 0);
        let ghost before = *self;
        let mut result: Result<(), FrontendError> = Ok(());
        let mut off: usize = 0;
        let mut i: usize = 0;
        loop
            invariant_except_break
                result == Ok::<(), FrontendError>(()),
                ({
                    let w = write_chain(descs, frame, self.mem@, i as int, off as int);
                    w.result == target.result && w.mem == target.mem
                }),
            invariant
                self.wf(),
                self.same_setup(&before),
                self.queues@ == before.queues@,
                self.rx_frame_buf@ == before.rx_frame_buf@,
                self.rx_bytes_read == before.rx_bytes_read,
                self.same_irq(&before),
                frame == self.rx_frame(),
                frame_len == frame.len(),
                descs == chain.descriptors@,
                i <= descs.len(),
                off <= frame_len,
            ensures
                result == target.result,
                self.mem@ == target.mem,
                self.wf(),
                self.same_setup(&before),
                self.queues@ == before.queues@,
                self.rx_frame_buf@ == before.rx_frame_buf@,
                self.rx_bytes_read == before.rx_bytes_read,
                self.same_irq(&before),
            decreases descs.len() - i,
        {
            if off >= frame_len {
                break;
            }
            if i >= chain.descriptors.len() {
                result = Err(FrontendError::DescriptorChainTooSmall);
                break;
            }
            let d = chain.descriptors[i];
            if !d.write_only {
                result = Err(FrontendError::ReadOnlyDescriptor);
                break;
            }
            let len: usize = if frame_len - off < d.len as usize { frame_len - off } else { d.len as usize };
            let piece = self.rx_piece(off, len);
            assert(piece@ == frame.subrange(off as int, off + len));
            match self.mem.write_slice(piece.as_slice(), d.addr) {
                Ok(()) => {
                    off = off + len;
                    i = i + 1;
                },
                Err(e) => {
                    result = Err(FrontendError::GuestMemory(e));
                    break;
                },
            }
        }
        let used_len: u32 = if result.is_ok() { frame_len as u32 } else { 0 };
        self.queues[RX_INDEX].add_used(chain.index, used_len);
        self.rx_deferred_irqs = true;
        result
    }

    /// Copies the frame being received into the guest, trying chain after
    /// chain, as many as the queue's size, until one takes it. True when the
    /// frame was delivered.
    fn write_frame_to_guest(&mut self) -> (r: bool)
        requires
            old(self).wf(),
            old(self).activated,
        ensures
            final(self).wf(),
            final(self).same_setup(old(self)),
            final(self).rx_frame_buf@ == old(self).rx_frame_buf@,
            final(self).rx_bytes_read == old(self).rx_bytes_read,
            final(self).queues@[TX_INDEX as int] == old(self).queues@[TX_INDEX as int],
            final(self).queues@[RX_INDEX as int].same_chains(&old(self).queues@[RX_INDEX as int]),
            final(self).interrupt_status == old(self).interrupt_status,
            final(self).irq_pending == old(self).irq_pending,
            ({
                let (ok, d) = deliver(
                    old(self).queues@[RX_INDEX as int].chains@,
                    old(self).rx_frame(),
                    old(self).rx_delivery(),
                    old(self).queues@[RX_INDEX as int].size as nat,
                );
                &&& r == ok
                &&& final(self).rx_delivery() == d
                &&& final(self).rx_deferred_irqs == (old(self).rx_deferred_irqs || d.next > old(self).rx_delivery().next)
            }),
    {
        let max_iterations = self.queues[RX_INDEX].actual_size();
        let ghost chains = self.queues@[RX_INDEX as int].chains@;
        let ghost frame = self.rx_frame();
        let ghost target = deliver(chains, frame, self.rx_delivery(), max_iterations as nat);
        let ghost start = self.rx_delivery().next;
        let ghost before = *self;
        proof {
            lemma_deliver_bounds(chains, frame, self.rx_delivery(), max_iterations as nat);
        }
        let mut k: u16 = 0;
        let mut delivered = false;
        while k < max_iterations
            invariant_except_break
                !delivered,
                deliver(chains, frame, self.rx_delivery(), (max_iterations - k) as nat) == target,
            invariant
                self.wf(),
                self.activated,
                k <= max_iterations,
                self.same_setup(&before),
                self.rx_frame_buf@ == before.rx_frame_buf@,
                self.rx_bytes_read == before.rx_bytes_read,
                self.queues@[TX_INDEX as int] == before.queues@[TX_INDEX as int],
                self.queues@[RX_INDEX as int].same_chains(&before.queues@[RX_INDEX as int]),
                self.interrupt_status == before.interrupt_status,
                self.irq_pending == before.irq_pending,
                chains == self.queues@[RX_INDEX as int].chains@,
                frame == self.rx_frame(),
                start <= self.rx_delivery().next,
                self.rx_deferred_irqs == (before.rx_deferred_irqs || self.rx_delivery().next > start),
            ensures
                target == (delivered, self.rx_delivery()),
            decreases max_iterations - k,
        {
            match self.do_write_frame_to_guest() {
                Ok(()) => {
                    delivered = true;
                    break;
                },
                Err(FrontendError::EmptyQueue) => {
                    break;
                },
                Err(_) => {},
            }
            k += 1;
        }
        delivered
    }

    /// Puts `frame` behind a zeroed virtio-net header in the frame buffer.
    fn read_into_rx_frame_buf(&mut self, frame: &[u8])
        requires
            old(self).wf(),
            frame@.len() + vnet_hdr_size() <= MAX_BUFFER_SIZE,
        ensures
            final(self).wf(),
            final(self).rx_frame() == Seq::new(vnet_hdr_size() as nat, |i: int| 0u8) + frame@,
            final(self).same_setup(old(self)),
            final(self).queues@ == old(self).queues@,
            final(self).mem@ == old(self).mem@,
            final(self).same_irq(old(self)),
    {
        let len = write_virtio_net_hdr(self.rx_frame_buf.as_mut_slice());
        let ghost hdr = Seq::new(len as nat, |i: int| 0u8);
        let mut j: usize = 0;
        while j < frame.len()
            invariant
                len == vnet_hdr_size(),
                j <= frame@.len(),
                frame@.len() + len <= MAX_BUFFER_SIZE,
                self.rx_frame_buf@.len() == MAX_BUFFER_SIZE,
                self.rx_frame_buf@.subrange(0, len + j) == hdr + frame@.subrange(0, j as int),
                self.same_setup(old(self)),
                self.queues@ == old(self).queues@,
                self.mem@ == old(self).mem@,
                self.same_irq(old(self)),
                self.rx_bytes_read == old(self).rx_bytes_read,
            decreases frame@.len() - j,
        {
            let ghost prev = self.rx_frame_buf@;
            self.rx_frame_buf.set(len + j, frame[j]);
            j += 1;
            assert(self.rx_frame_buf@.subrange(0, len + j) =~= prev.subrange(0, len + j - 1).push(frame@[j - 1]));
            assert(frame@.subrange(0, j as int) =~= frame@.subrange(0, j - 1).push(frame@[j - 1]));
            assert(self.rx_frame_buf@.subrange(0, len + j) =~= hdr + frame@.subrange(0, j as int));
        }
        self.rx_bytes_read = len + frame.len();
        assert(frame@.subrange(0, j as int) =~= frame@);
    }

    /// Receives one frame from the stream: copies it into the guest behind a
    /// zeroed virtio-net header. A frame that does not fit the frame buffer
    /// with its header is dropped. True when the frame was delivered; the
    /// interrupt for the chains used stays deferred.
    pub fn deliver_frame(&mut self, frame: &[u8]) -> (r: bool)
        requires
            old(self).wf(),
            old(self).activated,
        ensures
            final(self).wf(),
            final(self).same_setup(old(self)),
            final(self).queues@[TX_INDEX as int] == old(self).queues@[TX_INDEX as int],
            final(self).queues@[RX_INDEX as int].same_chains(&old(self).queues@[RX_INDEX as int]),
            final(self).interrupt_status == old(self).interrupt_status,
            final(self).irq_pending == old(self).irq_pending,
            frame@.len() + vnet_hdr_size() > MAX_BUFFER_SIZE ==> !r && final(self).rx_delivery() == old(self).rx_delivery()
                && final(self).rx_deferred_irqs == old(self).rx_deferred_irqs,
            frame@.len() + vnet_hdr_size() <= MAX_BUFFER_SIZE ==> ({
                let (ok, d) = deliver(
                    old(self).queues@[RX_INDEX as int].chains@,
                    Seq::new(vnet_hdr_size() as nat, |i: int| 0u8) + frame@,
                    old(self).rx_delivery(),
                    old(self).queues@[RX_INDEX as int].size as nat,
                );
                &&& r == ok
                &&& final(self).rx_delivery() == d
                &&& final(self).rx_deferred_irqs == (old(self).rx_deferred_irqs || d.next > old(self).rx_delivery().next)
            }),
    {
        if frame.len() > MAX_BUFFER_SIZE - 12 {
            return false;
        }
        self.read_into_rx_frame_buf(frame);
        self.write_frame_to_guest()
    }

    /// The bytes a transmit chain carries, up to `MAX_BUFFER_SIZE`; none
    /// when the chain is malformed.
    fn gather_chain(&self, chain: &DescriptorChain) -> (r: Option<Vec<u8>>)
        ensures
            r.is_some() == gather(chain.descriptors@, self.mem@, 0, Seq::empty()).is_some(),
            r.is_some() ==> r.unwrap()@ == gather(chain.descriptors@, self.mem@, 0, Seq::empty()).unwrap(),
            r.is_some() ==> r.unwrap()@.len() <= MAX_BUFFER_SIZE,
    {
        let ghost descs = chain.descriptors@;
        let ghost target = gather(descs, self.mem@, 0, Seq::empty());
        let mut acc: Vec<u8> = Vec::new();
        let mut ok = true;
        let mut i: usize = 0;
        while i < chain.descriptors.len()
            invariant_except_break
                ok,
                gather(descs, self.mem@, i as int, acc@) == target,
            invariant
                i <= descs.len(),
                descs == chain.descriptors@,
                acc@.len() <= MAX_BUFFER_SIZE,
            ensures
                ok ==> target == Some(acc@),
                !ok ==> target.is_none(),
            decreases descs.len() - i,
        {
            let d = chain.descriptors[i];
            if d.write_only {
                ok = false;
                break;
            }
            let room = MAX_BUFFER_SIZE - acc.len();
            let len: usize = if (d.len as usize) < room { d.len as usize } else { room };
            match self.mem.read_slice(d.addr, len) {
                Ok(bytes) => {
                    let mut bytes = bytes;
                    acc.append(&mut bytes);
                },
                Err(_) => {
                    ok = false;
                    break;
                },
            }
            i += 1;
        }
        if ok {
            Some(acc)
        } else {
            None
        }
    }

    /// Takes every chain of the transmit queue and returns the stream bytes
    /// of the frames they carry, in order. Each chain is used with length
    /// zero; a malformed one is discarded. Raises an interrupt when a chain
    /// was used.
    pub fn process_tx(&mut self) -> (r: Vec<Vec<u8>>)
        requires
            old(self).wf(),
            old(self).activated,
        ensures
            final(self).wf(),
            final(self).same_setup(old(self)),
            final(self).mem@ == old(self).mem@,
            final(self).rx_frame_buf@ == old(self).rx_frame_buf@,
            final(self).rx_bytes_read == old(self).rx_bytes_read,
            final(self).queues@[RX_INDEX as int] == old(self).queues@[RX_INDEX as int],
            final(self).queues@[TX_INDEX as int].same_chains(&old(self).queues@[TX_INDEX as int]),
            ({
                let t = tx_frames(old(self).queues@[TX_INDEX as int].chains@, old(self).mem@, old(self).tx_run());
                &&& final(self).queues@[TX_INDEX as int].next_avail == t.next
                &&& final(self).queues@[TX_INDEX as int].used@ == t.used
                &&& r@.map_values(|v: Vec<u8>| v@) == t.frames
                &&& t.next > old(self).tx_run().next ==> {
                    &&& final(self).interrupt_status == raised(old(self).interrupt_status, VIRTIO_MMIO_INT_VRING)
                    &&& final(self).irq_pending
                    &&& !final(self).rx_deferred_irqs
                }
                &&& t.next == old(self).tx_run().next ==> final(self).same_irq(old(self))
            }),
    {
        let ghost chains = self.queues@[TX_INDEX as int].chains@;
        let ghost mem = self.mem@;
        let ghost target = tx_frames(chains, mem, self.tx_run());
        let ghost start = self.tx_run().next;
        let ghost before = *self;
        proof {
            lemma_tx_frames_bounds(chains, mem, self.tx_run());
        }
        let hdr_len = vnet_hdr_len();
        let mut frames: Vec<Vec<u8>> = Vec::new();
        let mut raise_irq = false;
        assert(frames@.map_values(|v: Vec<u8>| v@) =~= Seq::<Seq<u8>>::empty());
        loop
            invariant
                self.wf(),
                hdr_len == vnet_hdr_size(),
                self.same_setup(&before),
                self.same_irq(&before),
                self.mem@ == mem,
                self.rx_frame_buf@ == before.rx_frame_buf@,
                self.rx_bytes_read == before.rx_bytes_read,
                self.queues@[RX_INDEX as int] == before.queues@[RX_INDEX as int],
                self.queues@[TX_INDEX as int].same_chains(&before.queues@[TX_INDEX as int]),
                chains == self.queues@[TX_INDEX as int].chains@,
                tx_frames(chains, mem, TxRun { frames: frames@.map_values(|v: Vec<u8>| v@), ..self.tx_run() }) == target,
                start <= self.tx_run().next <= target.next,
                target.next <= chains.len(),
                raise_irq == (self.tx_run().next > start),
            ensures
                (TxRun { frames: frames@.map_values(|v: Vec<u8>| v@), ..self.tx_run() }) == target,
                raise_irq == (self.tx_run().next > start),
                self.wf(),
                self.same_setup(&before),
                self.same_irq(&before),
            decreases self.queues@[TX_INDEX as int].pending(),
        {
            let popped = self.queues[TX_INDEX].pop();
            match popped {
                None => {
                    break;
                },
                Some(chain) => {
                    let ghost prev = frames@.map_values(|v: Vec<u8>| v@);
                    match self.gather_chain(&chain) {
                        Some(buf) => {
                            if buf.len() > hdr_len {
                                let wire = crate::framing::write_frame(hdr_len, buf.as_slice());
                                frames.push(wire);
                                assert(frames@.map_values(|v: Vec<u8>| v@) =~= prev.push(wire@));
                            }
                        },
                        None => {},
                    }
                    self.queues[TX_INDEX].add_used(chain.index, 0);
                    raise_irq = true;
                    proof {
                        lemma_tx_frames_bounds(
                            chains,
                            mem,
                            TxRun { frames: frames@.map_values(|v: Vec<u8>| v@), ..self.tx_run() },
                        );
                    }
                },
            }
        }
        if raise_irq {
            self.signal_used_queue();
        }
        frames
    }


    /// True when the receive queue has a chain to take a frame; while it
    /// has none, frames are left in the stream.
    pub fn has_rx_buffers(&self) -> (r: bool)
        requires
            self.wf(),
        ensures
            r == (self.queues@[RX_INDEX as int].pending() > 0),
    {
        !self.queues[RX_INDEX].is_empty()
    }

    pub fn device_type(&self) -> (r: u32)
        ensures
            r == TYPE_NET,
    {
        TYPE_NET
    }

    pub fn avail_features(&self) -> (r: u64)
        ensures
            r == self.avail_features,
    {
        self.avail_features
    }

    pub fn acked_features(&self) -> (r: u64)
        ensures
            r == self.acked_features,
    {
        self.acked_features
    }

    /// Records the features the driver acknowledged, as they are.
    pub fn set_acked_features(&mut self, acked_features: u64)
        ensures
            final(self).acked_features == acked_features,
            final(self).avail_features == old(self).avail_features,
            final(self).wf() == old(self).wf(),
            final(self).activated == old(self).activated,
    {
        self.acked_features = acked_features;
    }

    pub fn set_irq_line(&mut self, irq: u32)
        ensures
            final(self).irq_line == Some(irq),
            final(self).wf() == old(self).wf(),
            final(self).activated == old(self).activated,
    {
        self.irq_line = Some(irq);
    }

    /// The guest reads the configuration space from `offset` into `data`.
    pub fn read_config(&self, offset: u64, data: &mut [u8])
        ensures
            final(data)@ == config_read(self.config_space.guest_mac@, offset as int, old(data)@),
    {
        read_config_image(self.config_space.guest_mac.as_slice(), offset, data);
    }

    /// The guest writes `data` into the configuration space at `offset`; a
    /// write that does not fit is refused. The MAC address follows what was
    /// written.
    pub fn write_config(&mut self, offset: u64, data: &[u8])
        requires
            old(self).wf(),
        ensures
            final(self).wf(),
            offset + data@.len() > MAC_ADDR_LEN ==> final(self).config_space == old(self).config_space
                && final(self).guest_mac == old(self).guest_mac,
            offset + data@.len() <= MAC_ADDR_LEN ==> {
                &&& final(self).config_space.guest_mac@ == overwrite(
                    old(self).config_space.guest_mac@,
                    offset as int,
                    data@,
                )
                &&& final(self).guest_mac == Some(final(self).config_space.guest_mac)
            },
            final(self).queues@ == old(self).queues@,
            final(self).mem@ == old(self).mem@,
            final(self).activated == old(self).activated,
            final(self).same_irq(old(self)),
    {
        if offset > MAC_ADDR_LEN as u64 || data.len() as u64 > MAC_ADDR_LEN as u64 - offset {
            return;
        }
        let start = offset as usize;
        let ghost before = self.config_space.guest_mac@;
        let mut i: usize = 0;
        while i < data.len()
            invariant
                i <= data@.len(),
                start + data@.len() <= MAC_ADDR_LEN,
                self.config_space.guest_mac@.len() == MAC_ADDR_LEN,
                before.len() == MAC_ADDR_LEN,
                self.config_space.guest_mac@ == overwrite(before, start as int, data@.subrange(0, i as int))
                    .subrange(0, start + i) + before.subrange(start + i, MAC_ADDR_LEN as int),
                self.wf(),
                self.queues@ == old(self).queues@,
                self.mem@ == old(self).mem@,
                self.activated == old(self).activated,
                self.same_irq(old(self)),
            decreases data@.len() - i,
        {
            let ghost prev = self.config_space.guest_mac@;
            self.config_space.guest_mac[start + i] = data[i];
            assert(self.config_space.guest_mac@ == prev.update(start + i, data@[i as int]));
            i += 1;
            assert(self.config_space.guest_mac@ =~= overwrite(before, start as int, data@.subrange(0, i as int))
                .subrange(0, start + i) + before.subrange(start + i, MAC_ADDR_LEN as int));
        }
        assert(data@.subrange(0, i as int) =~= data@);
        assert(self.config_space.guest_mac@ =~= overwrite(before, start as int, data@));
        self.guest_mac = Some(self.config_space.guest_mac);
    }

    /// Starts the device on guest memory `mem`.
    pub fn activate(&mut self, mem: GuestMemory)
        ensures
            final(self).activated,
            final(self).mem@ == mem@,
            final(self).wf() == old(self).wf(),
            final(self).queues@ == old(self).queues@,
            final(self).config_space == old(self).config_space,
            final(self).same_irq(old(self)),
    {
        self.mem = mem;
        self.activated = true;
    }

    pub fn is_activated(&self) -> (r: bool)
        ensures
            r == self.activated,
    {
        self.activated
    }


    /// One step of the receive loop: a frame read from the stream goes to
    /// the guest and the loop reads again; when the stream has nothing ready
    /// the deferred receive interrupt is raised and the loop ends; a failed
    /// stream ends it with an error.
    pub fn process_rx_step(&mut self, read: StreamRead) -> (r: RxAction)
        requires
            old(self).wf(),
            old(self).activated,
        ensures
            final(self).wf(),
            final(self).same_setup(old(self)),
            final(self).queues@[TX_INDEX as int] == old(self).queues@[TX_INDEX as int],
            match read {
                StreamRead::Frame(f) => {
                    &&& r == RxAction::ReadAgain
                    &&& f@.len() + vnet_hdr_size() <= MAX_BUFFER_SIZE ==> final(self).rx_delivery() == deliver(
                        old(self).queues@[RX_INDEX as int].chains@,
                        Seq::new(vnet_hdr_size() as nat, |i: int| 0u8) + f@,
                        old(self).rx_delivery(),
                        old(self).queues@[RX_INDEX as int].size as nat,
                    ).1
                    &&& f@.len() + vnet_hdr_size() > MAX_BUFFER_SIZE ==> final(self).rx_delivery() == old(self).rx_delivery()
                    &&& final(self).interrupt_status == old(self).interrupt_status
                    &&& final(self).irq_pending == old(self).irq_pending
                },
                StreamRead::WouldBlock => {
                    &&& r == RxAction::Done
                    &&& final(self).rx_delivery() == old(self).rx_delivery()
                    &&& !final(self).rx_deferred_irqs
                    &&& old(self).rx_deferred_irqs ==> final(self).interrupt_status == raised(
                        old(self).interrupt_status,
                        VIRTIO_MMIO_INT_VRING,
                    ) && final(self).irq_pending
                    &&& !old(self).rx_deferred_irqs ==> final(self).same_irq(old(self))
                },
                StreamRead::Failed => {
                    &&& r == RxAction::Fail
                    &&& final(self).rx_delivery() == old(self).rx_delivery()
                    &&& final(self).same_irq(old(self))
                },
            },
    {
        match read {
            StreamRead::Frame(f) => {
                self.deliver_frame(f.as_slice());
                RxAction::ReadAgain
            },
            StreamRead::WouldBlock => {
                self.signal_rx_used_queue();
                RxAction::Done
            },
            StreamRead::Failed => RxAction::Fail,
        }
    }

}

} // verus!
