//! The multiport console: configuration space, the control protocol spoken
//! over the two control queues, and the per-port receive and transmit paths.
use crate::device::{config_read, raised, read_config_image, VIRTIO_MMIO_INT_CONFIG, VIRTIO_MMIO_INT_VRING};
use crate::memory::{overwrite, range_fits, GuestMemory};
use crate::queue::{DescriptorChain, Queue, UsedElem};
use vstd::bytes::*;
use vstd::prelude::*;

verus! {

pub const VIRTIO_ID_CONSOLE: u32 = 3;
pub const VIRTIO_CONSOLE_F_SIZE: u64 = 0;
pub const VIRTIO_CONSOLE_F_MULTIPORT: u64 = 1;
pub const VIRTIO_F_VERSION_1: u64 = 32;
/// `F_SIZE`, `F_MULTIPORT` and `F_VERSION_1`.
pub const AVAIL_FEATURES: u64 = 0x1_0000_0003;

pub const CONSOLE_DEV_ID: &'static str = "virtio_console";
pub const QUEUE_SIZE: u16 = 32;
pub const CONTROL_RXQ_INDEX: usize = 2;
pub const CONTROL_TXQ_INDEX: usize = 3;
/// The most ports a console can have, so that every queue index fits.
pub const MAX_PORTS: usize = 0x7fff_fffe;

pub const VIRTIO_CONSOLE_DEVICE_READY: u16 = 0;
pub const VIRTIO_CONSOLE_PORT_ADD: u16 = 1;
pub const VIRTIO_CONSOLE_PORT_REMOVE: u16 = 2;
pub const VIRTIO_CONSOLE_PORT_READY: u16 = 3;
pub const VIRTIO_CONSOLE_CONSOLE_PORT: u16 = 4;
pub const VIRTIO_CONSOLE_RESIZE: u16 = 5;
pub const VIRTIO_CONSOLE_PORT_OPEN: u16 = 6;
pub const VIRTIO_CONSOLE_PORT_NAME: u16 = 7;

/// Bytes of a control message on the wire.
pub const CONTROL_MSG_LEN: usize = 8;

/// The console's configuration space, read-only to the guest.
#[derive(Clone, Copy, Debug, Default)]
pub struct VirtioConsoleConfig {
    pub cols: u16,
    pub rows: u16,
    pub max_nr_ports: u32,
    pub emerg_wr: u32,
}

/// The packed little-endian image of a console configuration.
pub open spec fn config_image(c: VirtioConsoleConfig) -> Seq<u8> {
    spec_u16_to_le_bytes(c.cols) + spec_u16_to_le_bytes(c.rows) + spec_u32_to_le_bytes(c.max_nr_ports)
        + spec_u32_to_le_bytes(c.emerg_wr)
}

impl VirtioConsoleConfig {
    pub fn new(cols: u16, rows: u16, max_nr_ports: u32) -> (r: Self)
        ensures
            r.cols == cols,
            r.rows == rows,
            r.max_nr_ports == max_nr_ports,
            r.emerg_wr == 0,
    {
        VirtioConsoleConfig { cols, rows, max_nr_ports, emerg_wr: 0u32 }
    }

    pub fn update_console_size(&mut self, cols: u16, rows: u16)
        ensures
            final(self).cols == cols,
            final(self).rows == rows,
            final(self).max_nr_ports == old(self).max_nr_ports,
            final(self).emerg_wr == old(self).emerg_wr,
    {
        self.cols = cols;
        self.rows = rows;
    }

    /// The configuration as the guest sees it.
    pub fn as_bytes(&self) -> (r: Vec<u8>)
        ensures
            r@ == config_image(*self),
            r@.len() == 12,
    {
        proof {
            lemma_auto_spec_u16_to_from_le_bytes();
            lemma_auto_spec_u32_to_from_le_bytes();
        }
        let mut out = u16_to_le_bytes(self.cols);
        let mut rows = u16_to_le_bytes(self.rows);
        let mut ports = u32_to_le_bytes(self.max_nr_ports);
        let mut emerg = u32_to_le_bytes(self.emerg_wr);
        out.append(&mut rows);
        out.append(&mut ports);
        out.append(&mut emerg);
        out
    }
}

/// A control message, exchanged over the control queues.
#[derive(Clone, Copy, Debug, Default, PartialEq, Eq)]
pub struct VirtioConsoleControl {
    /// Port number
    pub id: u32,
    /// The kind of control event
    pub event: u16,
    /// Extra information for the event
    pub value: u16,
}

/// The 8 little-endian bytes of a control message.
pub open spec fn control_bytes(c: VirtioConsoleControl) -> Seq<u8> {
    spec_u32_to_le_bytes(c.id) + spec_u16_to_le_bytes(c.event) + spec_u16_to_le_bytes(c.value)
}

/// The control message that 8 bytes encode.
pub open spec fn control_from_bytes(b: Seq<u8>) -> VirtioConsoleControl {
    VirtioConsoleControl {
        id: spec_u32_from_le_bytes(b.subrange(0, 4)),
        event: spec_u16_from_le_bytes(b.subrange(4, 6)),
        value: spec_u16_from_le_bytes(b.subrange(6, 8)),
    }
}

/// Decoding the bytes of a message gives the message back.
pub proof fn lemma_control_round_trip(c: VirtioConsoleControl)
    ensures
        control_bytes(c).len() == CONTROL_MSG_LEN,
        control_from_bytes(control_bytes(c)) == c,
{
    lemma_auto_spec_u16_to_from_le_bytes();
    lemma_auto_spec_u32_to_from_le_bytes();
    assert(spec_u32_to_le_bytes(c.id).len() == 4);
    assert(spec_u16_to_le_bytes(c.event).len() == 2);
    assert(spec_u16_to_le_bytes(c.value).len() == 2);
    let b = control_bytes(c);
    assert(b.subrange(0, 4) =~= spec_u32_to_le_bytes(c.id));
    assert(b.subrange(4, 6) =~= spec_u16_to_le_bytes(c.event));
    assert(b.subrange(6, 8) =~= spec_u16_to_le_bytes(c.value));
}

impl VirtioConsoleControl {
    pub fn to_bytes(&self) -> (r: Vec<u8>)
        ensures
            r@ == control_bytes(*self),
            r@.len() == CONTROL_MSG_LEN,
    {
        proof {
            lemma_control_round_trip(*self);
        }
        let mut out = u32_to_le_bytes(self.id);
        let mut event = u16_to_le_bytes(self.event);
        let mut value = u16_to_le_bytes(self.value);
        out.append(&mut event);
        out.append(&mut value);
        out
    }

    pub fn from_bytes(b: &[u8]) -> (r: Self)
        requires
            b@.len() == CONTROL_MSG_LEN,
        ensures
            r == control_from_bytes(b@),
    {
        let id = u32_from_le_bytes(vstd::slice::slice_subrange(b, 0, 4));
        let event = u16_from_le_bytes(vstd::slice::slice_subrange(b, 4, 6));
        let value = u16_from_le_bytes(vstd::slice::slice_subrange(b, 6, 8));
        VirtioConsoleControl { id, event, value }
    }
}

/// Where a port stands in the control protocol.
#[derive(Clone, Copy, Debug, PartialEq, Eq, Structural)]
pub enum PortStatus {
    NotReady,
    Ready { opened: bool },
}

/// One port of the console. Port 0 is the console port.
#[derive(Debug)]
pub struct Port {
    pub console: bool,
    /// Input arrived that the guest has not been given yet.
    pub pending_rx: bool,
    pub status: PortStatus,
    /// Bytes from the host input source that the guest has not received.
    pub input: Vec<u8>,
    /// Bytes the guest transmitted that the host output sink has not taken.
    pub output: Vec<u8>,
}

impl Port {
    pub fn new(console: bool) -> (r: Port)
        ensures
            r.console == console,
            !r.pending_rx,
            r.status == PortStatus::NotReady,
            r.input@.len() == 0,
            r.output@.len() == 0,
    {
        Port { console, pending_rx: false, status: PortStatus::NotReady, input: Vec::new(), output: Vec::new() }
    }
}

/// Index of the receive queue of port `p`: ports 0 and 1 and on sit around
/// the two control queues, as the virtio console lays them out.
pub open spec fn rx_queue_index(p: int) -> int {
    if p == 0 {
        0
    } else {
        2 * p + 2
    }
}

/// Index of the transmit queue of port `p`.
pub open spec fn tx_queue_index(p: int) -> int {
    rx_queue_index(p) + 1
}

pub fn port_rx_queue_index(port_id: usize) -> (r: usize)
    requires
        port_id < MAX_PORTS,
    ensures
        r == rx_queue_index(port_id as int),
{
    if port_id == 0 {
        0
    } else {
        2 * port_id + 2
    }
}

pub fn port_tx_queue_index(port_id: usize) -> (r: usize)
    requires
        port_id < MAX_PORTS,
    ensures
        r == tx_queue_index(port_id as int),
{
    port_rx_queue_index(port_id) + 1
}

/// The console device.
pub struct Console {
    pub queues: Vec<Queue>,
    pub ports: Vec<Port>,
    /// Control messages owed to the driver, oldest first.
    pub cmd_queue: Vec<VirtioConsoleControl>,
    pub avail_features: u64,
    pub acked_features: u64,
    pub interrupt_status: u32,
    /// An interrupt was raised that has not yet been delivered.
    pub irq_pending: bool,
    pub config: VirtioConsoleConfig,
    pub configured: bool,
    pub interactive: bool,
    pub activated: bool,
    pub mem: GuestMemory,
    pub irq_line: Option<u32>,
}

/// The messages announcing ports `0..n`, in ascending order.
pub open spec fn port_add_msgs(n: nat) -> Seq<VirtioConsoleControl> {
    Seq::new(n, |i: int| VirtioConsoleControl { id: i as u32, event: VIRTIO_CONSOLE_PORT_ADD, value: 0 })
}

/// Progress of draining the control message queue into the control receive
/// queue.
pub struct DrainState {
    pub next: int,
    pub used: Seq<UsedElem>,
    pub mem: Seq<u8>,
    pub cmds: Seq<VirtioConsoleControl>,
}

/// Drains `s.cmds` into the chains from `s.next` on: each chain takes the
/// oldest message at its head address and is used with the message's
/// length; one whose address lies outside guest memory is used with length
/// zero and the message waits for the next. Stops when either runs out.
pub open spec fn drain(chains: Seq<DescriptorChain>, s: DrainState) -> DrainState
    decreases chains.len() - s.next,
{
    if s.cmds.len() == 0 || s.next < 0 || s.next >= chains.len() {
        s
    } else {
        let chain = chains[s.next];
        let msg = control_bytes(s.cmds[0]);
        if range_fits(s.mem.len() as int, chain.head().addr as int, msg.len() as int) {
            drain(
                chains,
                DrainState {
                    next: s.next + 1,
                    used: s.used.push(UsedElem { index: chain.index, len: CONTROL_MSG_LEN as u32 }),
                    mem: overwrite(s.mem, chain.head().addr as int, msg),
                    cmds: s.cmds.drop_first(),
                },
            )
        } else {
            drain(
                chains,
                DrainState {
                    next: s.next + 1,
                    used: s.used.push(UsedElem { index: chain.index, len: 0 }),
                    mem: s.mem,
                    cmds: s.cmds,
                },
            )
        }
    }
}

proof fn lemma_drain_bounds(chains: Seq<DescriptorChain>, s: DrainState)
    requires
        0 <= s.next <= chains.len(),
    ensures
        s.next <= drain(chains, s).next <= chains.len(),
        drain(chains, s).mem.len() == s.mem.len(),
    decreases chains.len() - s.next,
{
    if s.cmds.len() == 0 || s.next >= chains.len() {
    } else {
        let chain = chains[s.next];
        let msg = control_bytes(s.cmds[0]);
        if range_fits(s.mem.len() as int, chain.head().addr as int, msg.len() as int) {
            lemma_control_round_trip(s.cmds[0]);
            lemma_drain_bounds(
                chains,
                DrainState {
                    next: s.next + 1,
                    used: s.used.push(UsedElem { index: chain.index, len: CONTROL_MSG_LEN as u32 }),
                    mem: overwrite(s.mem, chain.head().addr as int, msg),
                    cmds: s.cmds.drop_first(),
                },
            );
        } else {
            lemma_drain_bounds(
                chains,
                DrainState {
                    next: s.next + 1,
                    used: s.used.push(UsedElem { index: chain.index, len: 0 }),
                    mem: s.mem,
                    cmds: s.cmds,
                },
            );
        }
    }
}

/// Progress of handling the driver's control messages.
pub struct CtrlState {
    pub next: int,
    pub used: Seq<UsedElem>,
    pub status: Seq<PortStatus>,
    pub cmds: Seq<VirtioConsoleControl>,
    /// Ports that were opened and may have input waiting, in order.
    pub resume: Seq<u32>,
}

/// The device's answer to `PORT_READY(id, 1)`.
pub open spec fn ready_reply(id: u32, console: bool) -> VirtioConsoleControl {
    if console {
        VirtioConsoleControl { id, event: VIRTIO_CONSOLE_CONSOLE_PORT, value: 1 }
    } else {
        VirtioConsoleControl { id, event: VIRTIO_CONSOLE_PORT_OPEN, value: 1 }
    }
}

/// The effect of one control message from the driver on a console whose
/// ports are the console port as `consoles` says.
pub open spec fn apply_control(cmd: VirtioConsoleControl, consoles: Seq<bool>, s: CtrlState) -> CtrlState {
    if cmd.event == VIRTIO_CONSOLE_DEVICE_READY {
        CtrlState { cmds: s.cmds + port_add_msgs(consoles.len()), ..s }
    } else if cmd.event == VIRTIO_CONSOLE_PORT_READY {
        if cmd.value != 1 || cmd.id >= consoles.len() {
            s
        } else {
            CtrlState {
                status: s.status.update(cmd.id as int, PortStatus::Ready { opened: false }),
                cmds: s.cmds.push(ready_reply(cmd.id, consoles[cmd.id as int])),
                ..s
            }
        }
    } else if cmd.event == VIRTIO_CONSOLE_PORT_OPEN {
        if cmd.value > 1 || cmd.id >= consoles.len() {
            s
        } else {
            CtrlState {
                status: s.status.update(cmd.id as int, PortStatus::Ready { opened: cmd.value == 1 }),
                resume: if cmd.value == 1 { s.resume.push(cmd.id) } else { s.resume },
                ..s
            }
        }
    } else {
        s
    }
}

/// Takes the chains of the control transmit queue from `s.next` on: each is
/// used with length zero, and the message at its head address, where that
/// lies inside guest memory `mem`, is acted on.
pub open spec fn control_tx(chains: Seq<DescriptorChain>, mem: Seq<u8>, consoles: Seq<bool>, s: CtrlState) -> CtrlState
    decreases chains.len() - s.next,
{
    if s.next < 0 || s.next >= chains.len() {
        s
    } else {
        let chain = chains[s.next];
        let addr = chain.head().addr as int;
        let s1 = CtrlState { next: s.next + 1, used: s.used.push(UsedElem { index: chain.index, len: 0 }), ..s };
        if range_fits(mem.len() as int, addr, CONTROL_MSG_LEN as int) {
            let cmd = control_from_bytes(mem.subrange(addr, addr + CONTROL_MSG_LEN));
            control_tx(chains, mem, consoles, apply_control(cmd, consoles, s1))
        } else {
            control_tx(chains, mem, consoles, s1)
        }
    }
}

proof fn lemma_control_tx_bounds(chains: Seq<DescriptorChain>, mem: Seq<u8>, consoles: Seq<bool>, s: CtrlState)
    requires
        0 <= s.next <= chains.len(),
        consoles.len() <= MAX_PORTS,
    ensures
        s.next <= control_tx(chains, mem, consoles, s).next <= chains.len(),
        s.cmds.len() <= control_tx(chains, mem, consoles, s).cmds.len(),
    decreases chains.len() - s.next,
{
    if s.next < chains.len() {
        let chain = chains[s.next];
        let addr = chain.head().addr as int;
        let s1 = CtrlState { next: s.next + 1, used: s.used.push(UsedElem { index: chain.index, len: 0 }), ..s };
        if range_fits(mem.len() as int, addr, CONTROL_MSG_LEN as int) {
            let cmd = control_from_bytes(mem.subrange(addr, addr + CONTROL_MSG_LEN));
            let s2 = apply_control(cmd, consoles, s1);
            lemma_control_tx_bounds(chains, mem, consoles, s2);
        } else {
            lemma_control_tx_bounds(chains, mem, consoles, s1);
        }
    }
}

/// Progress of handing a port's input to the guest.
pub struct RxState {
    pub next: int,
    pub used: Seq<UsedElem>,
    pub mem: Seq<u8>,
    pub input: Seq<u8>,
    pub pending: bool,
}

/// Hands `s.input` to the chains of a receive queue from `s.next` on: each
/// chain takes as much as its head buffer holds and is used with that many
/// bytes. When no input is left, the chain goes back to the queue and the
/// port has nothing pending; when the queue runs out first, what is left
/// stays pending. A chain whose buffer lies outside guest memory is used with
/// length zero.
pub open spec fn rx_fill(chains: Seq<DescriptorChain>, s: RxState) -> RxState
    decreases chains.len() - s.next,
{
    if s.next < 0 || s.next >= chains.len() {
        s
    } else {
        let chain = chains[s.next];
        let head = chain.head();
        let n = if (head.len as int) < s.input.len() { head.len as int } else { s.input.len() as int };
        if n == 0 {
            RxState { pending: false, ..s }
        } else if range_fits(s.mem.len() as int, head.addr as int, n) {
            rx_fill(
                chains,
                RxState {
                    next: s.next + 1,
                    used: s.used.push(UsedElem { index: chain.index, len: n as u32 }),
                    mem: overwrite(s.mem, head.addr as int, s.input.subrange(0, n)),
                    input: s.input.subrange(n, s.input.len() as int),
                    pending: s.pending,
                },
            )
        } else {
            rx_fill(chains, RxState { next: s.next + 1, used: s.used.push(UsedElem { index: chain.index, len: 0 }), ..s })
        }
    }
}

proof fn lemma_rx_fill_bounds(chains: Seq<DescriptorChain>, s: RxState)
    requires
        0 <= s.next <= chains.len(),
    ensures
        s.next <= rx_fill(chains, s).next <= chains.len(),
    decreases chains.len() - s.next,
{
    if s.next < chains.len() {
        let chain = chains[s.next];
        let head = chain.head();
        let n = if (head.len as int) < s.input.len() { head.len as int } else { s.input.len() as int };
        if n == 0 {
        } else if range_fits(s.mem.len() as int, head.addr as int, n) {
            lemma_rx_fill_bounds(
                chains,
                RxState {
                    next: s.next + 1,
                    used: s.used.push(UsedElem { index: chain.index, len: n as u32 }),
                    mem: overwrite(s.mem, head.addr as int, s.input.subrange(0, n)),
                    input: s.input.subrange(n, s.input.len() as int),
                    pending: s.pending,
                },
            );
        } else {
            lemma_rx_fill_bounds(chains, RxState { next: s.next + 1, used: s.used.push(UsedElem { index: chain.index, len: 0 }), ..s });
        }
    }
}

/// Progress of taking what the guest transmitted on a port.
pub struct TxState {
    pub next: int,
    pub used: Seq<UsedElem>,
    pub output: Seq<u8>,
}

/// Takes the chains of a transmit queue from `s.next` on: the bytes of each
/// head buffer go to the port's output and the chain is used with the
/// buffer's length. A buffer outside guest memory adds nothing.
pub open spec fn tx_drain(chains: Seq<DescriptorChain>, mem: Seq<u8>, s: TxState) -> TxState
    decreases chains.len() - s.next,
{
    if s.next < 0 || s.next >= chains.len() {
        s
    } else {
        let chain = chains[s.next];
        let head = chain.head();
        let out = if range_fits(mem.len() as int, head.addr as int, head.len as int) {
            s.output + mem.subrange(head.addr as int, head.addr + head.len)
        } else {
            s.output
        };
        tx_drain(
            chains,
            mem,
            TxState { next: s.next + 1, used: s.used.push(UsedElem { index: chain.index, len: head.len }), output: out },
        )
    }
}

proof fn lemma_tx_drain_bounds(chains: Seq<DescriptorChain>, mem: Seq<u8>, s: TxState)
    requires
        0 <= s.next <= chains.len(),
    ensures
        s.next <= tx_drain(chains, mem, s).next <= chains.len(),
    decreases chains.len() - s.next,
{
    if s.next < chains.len() {
        let chain = chains[s.next];
        let head = chain.head();
        let out = if range_fits(mem.len() as int, head.addr as int, head.len as int) {
            s.output + mem.subrange(head.addr as int, head.addr + head.len)
        } else {
            s.output
        };
        lemma_tx_drain_bounds(
            chains,
            mem,
            TxState { next: s.next + 1, used: s.used.push(UsedElem { index: chain.index, len: head.len }), output: out },
        );
    }
}

/// What the host input source of a port reported.
#[derive(Clone, Copy, Debug, PartialEq, Eq)]
pub struct InputEvents {
    /// Input is ready to read.
    pub input: bool,
    /// The peer hung up.
    pub hang_up: bool,
    /// The peer closed its writing end.
    pub read_hang_up: bool,
}

/// The first `n` bytes of `v`.
fn prefix(v: &Vec<u8>, n: usize) -> (r: Vec<u8>)
    requires
        n <= v@.len(),
    ensures
        r@ == v@.subrange(0, n as int),
{
    let mut out: Vec<u8> = Vec::new();
    let mut i: usize = 0;
    while i < n
        invariant
            i <= n,
            n <= v@.len(),
            out@ == v@.subrange(0, i as int),
        decreases n - i,
    {
        out.push(v[i]);
        i += 1;
        assert(out@ =~= v@.subrange(0, i as int));
    }
    out
}

/// The bytes of `v` from `n` on.
fn suffix(v: &Vec<u8>, n: usize) -> (r: Vec<u8>)
    requires
        n <= v@.len(),
    ensures
        r@ == v@.subrange(n as int, v@.len() as int),
{
    let mut out: Vec<u8> = Vec::new();
    let mut i: usize = n;
    while i < v.len()
        invariant
            n <= i <= v@.len(),
            out@ == v@.subrange(n as int, i as int),
        decreases v@.len() - i,
    {
        out.push(v[i]);
        i += 1;
        assert(out@ =~= v@.subrange(n as int, i as int));
    }
    out
}

/// A port's receive queue position, used ring, waiting input and pending
/// flag.
pub struct PortRx {
    pub next: int,
    pub used: Seq<UsedElem>,
    pub input: Seq<u8>,
    pub pending: bool,
}

/// The receive side of every port, with guest memory, while opened ports
/// are resumed.
pub struct ResumeState {
    pub mem: Seq<u8>,
    pub ports: Seq<PortRx>,
    /// A receive chain was used.
    pub used_any: bool,
}

/// Resumes the ports in `ids`, in order: a port that exists, has input
/// pending and is open hands its input to its receive queue (`rx_fill`);
/// any other is left alone. `chains` holds each port's receive chains.
pub open spec fn resume_ports(
    chains: Seq<Seq<DescriptorChain>>,
    status: Seq<PortStatus>,
    ids: Seq<u32>,
    s: ResumeState,
) -> ResumeState
    decreases ids.len(),
{
    if ids.len() == 0 {
        s
    } else {
        let p = ids[0] as int;
        if p < s.ports.len() && s.ports[p].pending && status[p] == (PortStatus::Ready { opened: true }) {
            let r = rx_fill(
                chains[p],
                RxState { next: s.ports[p].next, used: s.ports[p].used, mem: s.mem, input: s.ports[p].input, pending: true },
            );
            resume_ports(
                chains,
                status,
                ids.drop_first(),
                ResumeState {
                    mem: r.mem,
                    ports: s.ports.update(p, PortRx { next: r.next, used: r.used, input: r.input, pending: r.pending }),
                    used_any: s.used_any || r.next > s.ports[p].next,
                },
            )
        } else {
            resume_ports(chains, status, ids.drop_first(), s)
        }
    }
}

proof fn lemma_resume_ports_used_any(chains: Seq<Seq<DescriptorChain>>, status: Seq<PortStatus>, ids: Seq<u32>, s: ResumeState)
    ensures
        s.used_any ==> resume_ports(chains, status, ids, s).used_any,
    decreases ids.len(),
{
    if ids.len() > 0 {
        let p = ids[0] as int;
        if p < s.ports.len() && s.ports[p].pending && status[p] == (PortStatus::Ready { opened: true }) {
            let r = rx_fill(
                chains[p],
                RxState { next: s.ports[p].next, used: s.ports[p].used, mem: s.mem, input: s.ports[p].input, pending: true },
            );
            lemma_resume_ports_used_any(
                chains,
                status,
                ids.drop_first(),
                ResumeState {
                    mem: r.mem,
                    ports: s.ports.update(p, PortRx { next: r.next, used: r.used, input: r.input, pending: r.pending }),
                    used_any: s.used_any || r.next > s.ports[p].next,
                },
            );
        } else {
            lemma_resume_ports_used_any(chains, status, ids.drop_first(), s);
        }
    }
}

/// After `DEVICE_READY` the device owes exactly one `PORT_ADD` per port, in
/// ascending order of port id, behind what it already owed. After
/// `PORT_READY(id, 1)` for a port that exists it owes exactly one more
/// message: `CONSOLE_PORT(id, 1)` for the console port, `PORT_OPEN(id, 1)`
/// for any other, and the port is ready but not open.
pub proof fn lemma_handshake_replies(consoles: Seq<bool>, s: CtrlState, ready_id: u32, ready_value: u16, id: u32)
    requires
        s.status.len() == consoles.len(),
    ensures
        ({
            let r = apply_control(
                VirtioConsoleControl { id: ready_id, event: VIRTIO_CONSOLE_DEVICE_READY, value: ready_value },
                consoles,
                s,
            );
            &&& r.cmds.len() == s.cmds.len() + consoles.len()
            &&& r.cmds.subrange(0, s.cmds.len() as int) == s.cmds
            &&& forall|i: int| 0 <= i < consoles.len() ==> #[trigger] r.cmds[s.cmds.len() + i] == (VirtioConsoleControl {
                id: i as u32,
                event: VIRTIO_CONSOLE_PORT_ADD,
                value: 0,
            })
            &&& r.status == s.status
        }),
        id < consoles.len() ==> ({
            let r = apply_control(VirtioConsoleControl { id, event: VIRTIO_CONSOLE_PORT_READY, value: 1 }, consoles, s);
            &&& r.cmds == s.cmds.push(
                if consoles[id as int] {
                    VirtioConsoleControl { id, event: VIRTIO_CONSOLE_CONSOLE_PORT, value: 1 }
                } else {
                    VirtioConsoleControl { id, event: VIRTIO_CONSOLE_PORT_OPEN, value: 1 }
                },
            )
            &&& r.status[id as int] == (PortStatus::Ready { opened: false })
        }),
{
    let r = apply_control(
        VirtioConsoleControl { id: ready_id, event: VIRTIO_CONSOLE_DEVICE_READY, value: ready_value },
        consoles,
        s,
    );
    assert(r.cmds.subrange(0, s.cmds.len() as int) =~= s.cmds);
}

/// Input that reaches a port before it is open waits: the port is opened
/// by `PORT_OPEN(id, 1)`, which marks it for resuming; at the next chance to
/// receive, a receive chain with room and an address inside guest memory
/// takes the first bytes of the waiting input at its address.
pub proof fn lemma_parked_input_delivered(consoles: Seq<bool>, s: CtrlState, id: u32, chains: Seq<DescriptorChain>, rx: RxState)
    requires
        id < consoles.len(),
        s.status.len() == consoles.len(),
        0 <= rx.next < chains.len(),
        rx.input.len() > 0,
        chains[rx.next].head().len > 0,
        range_fits(
            rx.mem.len() as int,
            chains[rx.next].head().addr as int,
            if (chains[rx.next].head().len as int) < rx.input.len() {
                chains[rx.next].head().len as int
            } else {
                rx.input.len() as int
            },
        ),
    ensures
        ({
            let r = apply_control(VirtioConsoleControl { id, event: VIRTIO_CONSOLE_PORT_OPEN, value: 1 }, consoles, s);
            &&& r.status[id as int] == (PortStatus::Ready { opened: true })
            &&& r.resume == s.resume.push(id)
        }),
        ({
            let head = chains[rx.next].head();
            let n = if (head.len as int) < rx.input.len() { head.len as int } else { rx.input.len() as int };
            let res = rx_fill(chains, rx);
            &&& res.used.len() > rx.used.len()
            &&& res.used[rx.used.len() as int] == (UsedElem { index: chains[rx.next].index, len: n as u32 })
            &&& res.input.len() <= rx.input.len() - n
        }),
{
    let head = chains[rx.next].head();
    let n = if (head.len as int) < rx.input.len() { head.len as int } else { rx.input.len() as int };
    let s1 = RxState {
        next: rx.next + 1,
        used: rx.used.push(UsedElem { index: chains[rx.next].index, len: n as u32 }),
        mem: overwrite(rx.mem, head.addr as int, rx.input.subrange(0, n)),
        input: rx.input.subrange(n, rx.input.len() as int),
        pending: rx.pending,
    };
    lemma_rx_fill_grows(chains, s1);
    let res = rx_fill(chains, rx);
    assert(res == rx_fill(chains, s1));
    assert(s1.used[rx.used.len() as int] == (UsedElem { index: chains[rx.next].index, len: n as u32 }));
    assert(res.used.subrange(0, s1.used.len() as int)[rx.used.len() as int] == res.used[rx.used.len() as int]);
}

proof fn lemma_rx_fill_grows(chains: Seq<DescriptorChain>, s: RxState)
    ensures
        rx_fill(chains, s).used.len() >= s.used.len(),
        rx_fill(chains, s).used.subrange(0, s.used.len() as int) == s.used,
        rx_fill(chains, s).input.len() <= s.input.len(),
    decreases chains.len() - s.next,
{
    if 0 <= s.next < chains.len() {
        let chain = chains[s.next];
        let head = chain.head();
        let n = if (head.len as int) < s.input.len() { head.len as int } else { s.input.len() as int };
        if n == 0 {
            assert(s.used.subrange(0, s.used.len() as int) =~= s.used);
        } else if range_fits(s.mem.len() as int, head.addr as int, n) {
            let s1 = RxState {
                next: s.next + 1,
                used: s.used.push(UsedElem { index: chain.index, len: n as u32 }),
                mem: overwrite(s.mem, head.addr as int, s.input.subrange(0, n)),
                input: s.input.subrange(n, s.input.len() as int),
                pending: s.pending,
            };
            lemma_rx_fill_grows(chains, s1);
            assert(rx_fill(chains, s).used.subrange(0, s.used.len() as int) =~= rx_fill(chains, s1).used.subrange(
                0,
                s1.used.len() as int,
            ).subrange(0, s.used.len() as int));
            assert(s1.used.subrange(0, s.used.len() as int) =~= s.used);
        } else {
            let s1 = RxState { next: s.next + 1, used: s.used.push(UsedElem { index: chain.index, len: 0 }), ..s };
            lemma_rx_fill_grows(chains, s1);
            assert(rx_fill(chains, s).used.subrange(0, s.used.len() as int) =~= rx_fill(chains, s1).used.subrange(
                0,
                s1.used.len() as int,
            ).subrange(0, s.used.len() as int));
            assert(s1.used.subrange(0, s.used.len() as int) =~= s.used);
        }
    } else {
        assert(s.used.subrange(0, s.used.len() as int) =~= s.used);
    }
}

/// On a port's receive queue the used lengths add up to the bytes the guest
/// received: handing input over adds to the used total exactly the number
/// of input bytes taken.
pub proof fn lemma_rx_used_total(chains: Seq<DescriptorChain>, s: RxState)
    ensures
        rx_fill(chains, s).input.len() <= s.input.len(),
        crate::queue::used_total(rx_fill(chains, s).used) == crate::queue::used_total(s.used) + s.input.len()
            - rx_fill(chains, s).input.len(),
    decreases chains.len() - s.next,
{
    if 0 <= s.next < chains.len() {
        let chain = chains[s.next];
        let head = chain.head();
        let n = if (head.len as int) < s.input.len() { head.len as int } else { s.input.len() as int };
        if n == 0 {
        } else if range_fits(s.mem.len() as int, head.addr as int, n) {
            let e = UsedElem { index: chain.index, len: n as u32 };
            let s1 = RxState {
                next: s.next + 1,
                used: s.used.push(e),
                mem: overwrite(s.mem, head.addr as int, s.input.subrange(0, n)),
                input: s.input.subrange(n, s.input.len() as int),
                pending: s.pending,
            };
            crate::queue::lemma_used_total_push(s.used, e);
            lemma_rx_used_total(chains, s1);
        } else {
            let e = UsedElem { index: chain.index, len: 0 };
            crate::queue::lemma_used_total_push(s.used, e);
            lemma_rx_used_total(chains, RxState { next: s.next + 1, used: s.used.push(e), ..s });
        }
    }
}

/// On the control transmit queue every used length is zero: handling the
/// driver's messages adds nothing to the used total.
pub proof fn lemma_control_tx_used_total(chains: Seq<DescriptorChain>, mem: Seq<u8>, consoles: Seq<bool>, s: CtrlState)
    ensures
        crate::queue::used_total(control_tx(chains, mem, consoles, s).used) == crate::queue::used_total(s.used),
    decreases chains.len() - s.next,
{
    if 0 <= s.next < chains.len() {
        let chain = chains[s.next];
        let addr = chain.head().addr as int;
        let e = UsedElem { index: chain.index, len: 0 };
        let s1 = CtrlState { next: s.next + 1, used: s.used.push(e), ..s };
        crate::queue::lemma_used_total_push(s.used, e);
        if range_fits(mem.len() as int, addr, CONTROL_MSG_LEN as int) {
            let cmd = control_from_bytes(mem.subrange(addr, addr + CONTROL_MSG_LEN));
            lemma_control_tx_used_total(chains, mem, consoles, apply_control(cmd, consoles, s1));
        } else {
            lemma_control_tx_used_total(chains, mem, consoles, s1);
        }
    }
}

impl Console {
    pub open spec fn wf(&self) -> bool {
        &&& 1 <= self.ports@.len() <= MAX_PORTS
        &&& self.queues@.len() == 2 + 2 * self.ports@.len()
        &&& forall|i: int| 0 <= i < self.queues@.len() ==> (#[trigger] self.queues@[i]).wf()
        &&& forall|p: int| 0 <= p < self.ports@.len() ==> (#[trigger] self.ports@[p]).console == (p == 0)
    }

    /// The status of each port.
    pub open spec fn statuses(&self) -> Seq<PortStatus> {
        self.ports@.map_values(|p: Port| p.status)
    }

    /// Which ports are the console port.
    pub open spec fn consoles(&self) -> Seq<bool> {
        self.ports@.map_values(|p: Port| p.console)
    }

    /// Everything but the queues, the ports, the message queue, guest memory
    /// and the interrupt state is as in `o`.
    pub open spec fn same_setup(&self, o: &Console) -> bool {
        &&& self.avail_features == o.avail_features
        &&& self.acked_features == o.acked_features
        &&& self.config == o.config
        &&& self.configured == o.configured
        &&& self.interactive == o.interactive
        &&& self.activated == o.activated
        &&& self.irq_line == o.irq_line
    }

    /// The interrupt state is as in `o`.
    pub open spec fn same_irq(&self, o: &Console) -> bool {
        &&& self.interrupt_status == o.interrupt_status
        &&& self.irq_pending == o.irq_pending
    }

    /// The state of the control receive queue, guest memory and the message
    /// queue, as a drain sees it.
    pub open spec fn drain_state(&self) -> DrainState {
        DrainState {
            next: self.queues@[CONTROL_RXQ_INDEX as int].next_avail as int,
            used: self.queues@[CONTROL_RXQ_INDEX as int].used@,
            mem: self.mem@,
            cmds: self.cmd_queue@,
        }
    }

    /// A console with `num_ports` ports, of which port 0 is the console
    /// port, and a `cols` x `rows` terminal.
    pub fn new(num_ports: usize, cols: u16, rows: u16) -> (r: Console)
        requires
            1 <= num_ports <= MAX_PORTS,
        ensures
            r.wf(),
            r.ports@.len() == num_ports,
            forall|p: int| 0 <= p < num_ports ==> (#[trigger] r.ports@[p]).status == PortStatus::NotReady,
            forall|p: int| 0 <= p < num_ports ==> !(#[trigger] r.ports@[p]).pending_rx,
            forall|i: int| 0 <= i < r.queues@.len() ==> (#[trigger] r.queues@[i]).pending() == 0,
            forall|i: int| 0 <= i < r.queues@.len() ==> (#[trigger] r.queues@[i]).used@.len() == 0,
            forall|i: int| 0 <= i < r.queues@.len() ==> (#[trigger] r.queues@[i]).next_avail == 0,
            r.cmd_queue@.len() == 0,
            r.config == (VirtioConsoleConfig { cols, rows, max_nr_ports: num_ports as u32, emerg_wr: 0 }),
            r.avail_features == AVAIL_FEATURES,
            r.acked_features == 0,
            r.interrupt_status == 0,
            !r.irq_pending,
            !r.activated,
            !r.configured,
            r.interactive,
            r.irq_line.is_none(),
    {
        let num_queues: usize = 2 + num_ports * 2;
        let mut queues: Vec<Queue> = Vec::new();
        let mut i: usize = 0;
        while i < num_queues
            invariant
                i <= num_queues,
                queues@.len() == i,
                forall|j: int| 0 <= j < i ==> (#[trigger] queues@[j]).wf() && queues@[j].pending() == 0
                    && queues@[j].used@.len() == 0 && queues@[j].next_avail == 0,
            decreases num_queues - i,
        {
            queues.push(Queue::new(QUEUE_SIZE));
            i += 1;
        }
        let mut ports: Vec<Port> = Vec::new();
        let mut p: usize = 0;
        while p < num_ports
            invariant
                p <= num_ports,
                ports@.len() == p,
                forall|j: int| 0 <= j < p ==> (#[trigger] ports@[j]).console == (j == 0),
                forall|j: int| 0 <= j < p ==> (#[trigger] ports@[j]).status == PortStatus::NotReady,
                forall|j: int| 0 <= j < p ==> !(#[trigger] ports@[j]).pending_rx,
            decreases num_ports - p,
        {
            ports.push(Port::new(p == 0));
            p += 1;
        }
        Console {
            queues,
            ports,
            cmd_queue: Vec::new(),
            avail_features: AVAIL_FEATURES,
            acked_features: 0,
            interrupt_status: 0,
            irq_pending: false,
            config: VirtioConsoleConfig::new(cols, rows, num_ports as u32),
            configured: false,
            interactive: true,
            activated: false,
            mem: GuestMemory::new(0),
            irq_line: None,
        }
    }

    pub fn id(&self) -> (r: &'static str)
        ensures
            r@ == CONSOLE_DEV_ID@,
    {
        CONSOLE_DEV_ID
    }

    pub fn set_interactive(&mut self, interactive: bool)
        ensures
            final(self).interactive == interactive,
            final(self).wf() == old(self).wf(),
            final(self).queues@ == old(self).queues@,
            final(self).ports@ == old(self).ports@,
            final(self).activated == old(self).activated,
    {
        self.interactive = interactive;
    }

    /// Tells the driver that queues have new used entries.
    pub fn signal_used_queue(&mut self)
        ensures
            final(self).interrupt_status == raised(old(self).interrupt_status, VIRTIO_MMIO_INT_VRING),
            final(self).irq_pending,
            final(self).same_setup(old(self)),
            final(self).queues@ == old(self).queues@,
            final(self).ports@ == old(self).ports@,
            final(self).cmd_queue@ == old(self).cmd_queue@,
            final(self).mem@ == old(self).mem@,
    {
        self.interrupt_status = self.interrupt_status | VIRTIO_MMIO_INT_VRING;
        self.irq_pending = true;
    }

    /// Tells the driver that the configuration space changed.
    pub fn signal_config_update(&mut self)
        ensures
            final(self).interrupt_status == raised(old(self).interrupt_status, VIRTIO_MMIO_INT_CONFIG),
            final(self).irq_pending,
            final(self).same_setup(old(self)),
            final(self).queues@ == old(self).queues@,
            final(self).ports@ == old(self).ports@,
            final(self).cmd_queue@ == old(self).cmd_queue@,
            final(self).mem@ == old(self).mem@,
    {
        self.interrupt_status = self.interrupt_status | VIRTIO_MMIO_INT_CONFIG;
        self.irq_pending = true;
    }

    /// Hands a raised interrupt over for delivery: true when one was pending.
    pub fn take_irq(&mut self) -> (r: bool)
        ensures
            r == old(self).irq_pending,
            !final(self).irq_pending,
            final(self).interrupt_status == old(self).interrupt_status,
            final(self).same_setup(old(self)),
            final(self).queues@ == old(self).queues@,
            final(self).ports@ == old(self).ports@,
            final(self).cmd_queue@ == old(self).cmd_queue@,
            final(self).mem@ == old(self).mem@,
    {
        let r = self.irq_pending;
        self.irq_pending = false;
        r
    }

    /// The driver acknowledges the interrupt bits in `bits`.
    pub fn ack_interrupt(&mut self, bits: u32)
        ensures
            final(self).interrupt_status == crate::device::acknowledged(old(self).interrupt_status, bits),
            final(self).irq_pending == old(self).irq_pending,
            final(self).same_setup(old(self)),
            final(self).queues@ == old(self).queues@,
            final(self).ports@ == old(self).ports@,
            final(self).cmd_queue@ == old(self).cmd_queue@,
            final(self).mem@ == old(self).mem@,
    {
        self.interrupt_status = self.interrupt_status & !bits;
    }

    /// The terminal was resized.
    pub fn update_console_size(&mut self, cols: u16, rows: u16)
        ensures
            final(self).config.cols == cols,
            final(self).config.rows == rows,
            final(self).config.max_nr_ports == old(self).config.max_nr_ports,
            final(self).config.emerg_wr == old(self).config.emerg_wr,
            final(self).interrupt_status == raised(old(self).interrupt_status, VIRTIO_MMIO_INT_CONFIG),
            final(self).irq_pending,
            final(self).queues@ == old(self).queues@,
            final(self).ports@ == old(self).ports@,
            final(self).cmd_queue@ == old(self).cmd_queue@,
            final(self).mem@ == old(self).mem@,
            final(self).activated == old(self).activated,
    {
        self.config.update_console_size(cols, rows);
        self.signal_config_update();
    }

    pub fn avail_features(&self) -> (r: u64)
        ensures
            r == self.avail_features,
    {
        self.avail_features
    }

    pub fn acked_features(&self) -> (r: u64)
        ensures
            r == self.acked_features,
    {
        self.acked_features
    }

    /// Records the features the driver acknowledged, as they are.
    pub fn set_acked_features(&mut self, acked_features: u64)
        ensures
            final(self).acked_features == acked_features,
            final(self).avail_features == old(self).avail_features,
            final(self).wf() == old(self).wf(),
            final(self).activated == old(self).activated,
    {
        self.acked_features = acked_features;
    }

    pub fn device_type(&self) -> (r: u32)
        ensures
            r == VIRTIO_ID_CONSOLE,
    {
        VIRTIO_ID_CONSOLE
    }

    pub fn set_irq_line(&mut self, irq: u32)
        ensures
            final(self).irq_line == Some(irq),
            final(self).wf() == old(self).wf(),
            final(self).activated == old(self).activated,
    {
        self.irq_line = Some(irq);
    }

    /// The guest reads the configuration space from `offset` into `data`.
    pub fn read_config(&self, offset: u64, data: &mut [u8])
        ensures
            final(data)@ == config_read(config_image(self.config), offset as int, old(data)@),
    {
        let image = self.config.as_bytes();
        read_config_image(image.as_slice(), offset, data);
    }

    /// The configuration space is read-only: a write from the guest changes
    /// nothing.
    pub fn write_config(&mut self, offset: u64, data: &[u8])
        ensures
            final(self).config == old(self).config,
            final(self).wf() == old(self).wf(),
            final(self).queues@ == old(self).queues@,
            final(self).ports@ == old(self).ports@,
            final(self).cmd_queue@ == old(self).cmd_queue@,
            final(self).mem@ == old(self).mem@,
            final(self).same_setup(old(self)),
            final(self).same_irq(old(self)),
    {
    }

    /// Starts the device on guest memory `mem`.
    pub fn activate(&mut self, mem: GuestMemory)
        ensures
            final(self).activated,
            final(self).mem@ == mem@,
            final(self).wf() == old(self).wf(),
            final(self).queues@ == old(self).queues@,
            final(self).ports@ == old(self).ports@,
            final(self).cmd_queue@ == old(self).cmd_queue@,
            final(self).config == old(self).config,
    {
        self.mem = mem;
        self.activated = true;
    }

    pub fn is_activated(&self) -> (r: bool)
        ensures
            r == self.activated,
    {
        self.activated
    }

    /// Writes pending control messages to the driver, oldest first, one per
    /// available chain of the control receive queue. True when a chain was
    /// used.
    pub fn process_control_rx(&mut self) -> (used_any: bool)
        requires
            old(self).wf(),
            old(self).activated,
        ensures
            final(self).wf(),
            ({
                let res = drain(old(self).queues@[CONTROL_RXQ_INDEX as int].chains@, old(self).drain_state());
                &&& final(self).drain_state() == res
                &&& used_any == (res.next > old(self).drain_state().next)
            }),
            final(self).queues@[CONTROL_RXQ_INDEX as int].same_chains(&old(self).queues@[CONTROL_RXQ_INDEX as int]),
            forall|i: int| 0 <= i < final(self).queues@.len() && i != CONTROL_RXQ_INDEX ==>
                #[trigger] final(self).queues@[i] == old(self).queues@[i],
            final(self).ports@ == old(self).ports@,
            final(self).same_setup(old(self)),
            final(self).same_irq(old(self)),
    {
        let ghost chains = self.queues@[CONTROL_RXQ_INDEX as int].chains@;
        let ghost target = drain(chains, self.drain_state());
        let ghost start = self.queues@[CONTROL_RXQ_INDEX as int].next_avail as int;
        let ghost old_self = *self;
        proof {
            lemma_drain_bounds(chains, self.drain_state());
        }
        let mut used_any = false;
        while self.cmd_queue.len() > 0
            invariant
                self.wf(),
                self.queues@.len() == old_self.queues@.len(),
                self.queues@[CONTROL_RXQ_INDEX as int].same_chains(&old_self.queues@[CONTROL_RXQ_INDEX as int]),
                forall|i: int| 0 <= i < self.queues@.len() && i != CONTROL_RXQ_INDEX ==>
                    #[trigger] self.queues@[i] == old_self.queues@[i],
                self.ports@ == old_self.ports@,
                self.same_setup(&old_self),
                self.same_irq(&old_self),
                chains == self.queues@[CONTROL_RXQ_INDEX as int].chains@,
                drain(chains, self.drain_state()) == target,
                start <= self.drain_state().next,
                used_any == (self.drain_state().next > start),
            ensures
                drain(chains, self.drain_state()) == self.drain_state(),
                start <= self.drain_state().next,
            decreases self.queues@[CONTROL_RXQ_INDEX as int].pending(),
        {
            let popped = self.queues[CONTROL_RXQ_INDEX].pop();
            match popped {
                None => {
                    break;
                },
                Some(chain) => {
                    proof {
                        lemma_control_round_trip(self.cmd_queue@[0]);
                    }
                    let msg = self.cmd_queue[0].to_bytes();
                    let addr = chain.descriptors[0].addr;
                    match self.mem.write_slice(msg.as_slice(), addr) {
                        Ok(()) => {
                            self.queues[CONTROL_RXQ_INDEX].add_used(chain.index, CONTROL_MSG_LEN as u32);
                            self.cmd_queue.remove(0);
                        },
                        Err(_) => {
                            self.queues[CONTROL_RXQ_INDEX].add_used(chain.index, 0);
                        },
                    }
                    used_any = true;
                },
            }
        }
        used_any
    }

    /// The state of the control transmit queue and of the control protocol,
    /// as the handling of driver messages sees it.
    pub open spec fn ctrl_state(&self) -> CtrlState {
        CtrlState {
            next: self.queues@[CONTROL_TXQ_INDEX as int].next_avail as int,
            used: self.queues@[CONTROL_TXQ_INDEX as int].used@,
            status: self.statuses(),
            cmds: self.cmd_queue@,
            resume: Seq::empty(),
        }
    }

    /// Every port keeps all but its status.
    pub open spec fn same_port_data(&self, o: &Console) -> bool {
        &&& self.ports@.len() == o.ports@.len()
        &&& forall|p: int| 0 <= p < self.ports@.len() ==> {
            &&& (#[trigger] self.ports@[p]).console == o.ports@[p].console
            &&& self.ports@[p].pending_rx == o.ports@[p].pending_rx
            &&& self.ports@[p].input@ == o.ports@[p].input@
            &&& self.ports@[p].output@ == o.ports@[p].output@
        }
    }

    fn set_port_status(&mut self, port_id: usize, status: PortStatus)
        requires
            old(self).wf(),
            port_id < old(self).ports@.len(),
        ensures
            final(self).wf(),
            final(self).statuses() == old(self).statuses().update(port_id as int, status),
            final(self).same_port_data(old(self)),
            final(self).queues@ == old(self).queues@,
            final(self).cmd_queue@ == old(self).cmd_queue@,
            final(self).mem@ == old(self).mem@,
            final(self).same_setup(old(self)),
            final(self).same_irq(old(self)),
    {
        let ghost before = self.statuses();
        self.ports[port_id].status = status;
        assert(self.statuses() =~= before.update(port_id as int, status));
    }

    /// Acts on one control message from the driver.
    fn handle_control_msg(&mut self, cmd: VirtioConsoleControl, resume: &mut Vec<u32>)
        requires
            old(self).wf(),
        ensures
            final(self).wf(),
            ({
                let s = CtrlState {
                    next: 0,
                    used: Seq::empty(),
                    status: old(self).statuses(),
                    cmds: old(self).cmd_queue@,
                    resume: old(resume)@,
                };
                let res = apply_control(cmd, old(self).consoles(), s);
                &&& final(self).statuses() == res.status
                &&& final(self).cmd_queue@ == res.cmds
                &&& final(resume)@ == res.resume
            }),
            final(self).same_port_data(old(self)),
            final(self).queues@ == old(self).queues@,
            final(self).mem@ == old(self).mem@,
            final(self).same_setup(old(self)),
            final(self).same_irq(old(self)),
    {
        let n = self.ports.len();
        if cmd.event == VIRTIO_CONSOLE_DEVICE_READY {
            let ghost before = self.cmd_queue@;
            let mut p: usize = 0;
            while p < n
                invariant
                    p <= n,
                    n == self.ports@.len(),
                    self.cmd_queue@ == before + port_add_msgs(p as nat),
                    self.wf(),
                    self.statuses() == old(self).statuses(),
                    self.same_port_data(old(self)),
                    self.queues@ == old(self).queues@,
                    self.mem@ == old(self).mem@,
                    self.same_setup(old(self)),
                    self.same_irq(old(self)),
                    self.consoles() == old(self).consoles(),
                    resume@ == old(resume)@,
                decreases n - p,
            {
                self.cmd_queue.push(VirtioConsoleControl { id: p as u32, event: VIRTIO_CONSOLE_PORT_ADD, value: 0 });
                p += 1;
                assert(self.cmd_queue@ =~= before + port_add_msgs(p as nat));
            }
            assert(self.consoles().len() == n);
        } else if cmd.event == VIRTIO_CONSOLE_PORT_READY {
            if cmd.value == 1 && (cmd.id as u64) < (n as u64) {
                let id = cmd.id as usize;
                self.set_port_status(id, PortStatus::Ready { opened: false });
                let console = self.ports[id].console;
                assert(console == old(self).consoles()[id as int]);
                if console {
                    self.cmd_queue.push(VirtioConsoleControl { id: cmd.id, event: VIRTIO_CONSOLE_CONSOLE_PORT, value: 1 });
                } else {
                    self.cmd_queue.push(VirtioConsoleControl { id: cmd.id, event: VIRTIO_CONSOLE_PORT_OPEN, value: 1 });
                }
            }
        } else if cmd.event == VIRTIO_CONSOLE_PORT_OPEN {
            if cmd.value <= 1 && (cmd.id as u64) < (n as u64) {
                let opened = cmd.value == 1;
                self.set_port_status(cmd.id as usize, PortStatus::Ready { opened });
                if opened {
                    resume.push(cmd.id);
                }
            }
        }
    }

    /// Takes every control message the driver made available and acts on
    /// it, then writes the replies it owes. Returns whether a chain was used,
    /// and the ports that were opened, in order.
    pub fn process_control_tx(&mut self) -> (r: (bool, Vec<u32>))
        requires
            old(self).wf(),
            old(self).activated,
        ensures
            final(self).wf(),
            ({
                let t = control_tx(
                    old(self).queues@[CONTROL_TXQ_INDEX as int].chains@,
                    old(self).mem@,
                    old(self).consoles(),
                    old(self).ctrl_state(),
                );
                let d = drain(
                    old(self).queues@[CONTROL_RXQ_INDEX as int].chains@,
                    DrainState { cmds: t.cmds, ..old(self).drain_state() },
                );
                &&& final(self).queues@[CONTROL_TXQ_INDEX as int].next_avail == t.next
                &&& final(self).queues@[CONTROL_TXQ_INDEX as int].used@ == t.used
                &&& final(self).statuses() == t.status
                &&& final(self).drain_state() == d
                &&& r.1@ == t.resume
                &&& r.0 == (t.next > old(self).ctrl_state().next || d.next > old(self).drain_state().next)
            }),
            final(self).queues@[CONTROL_TXQ_INDEX as int].same_chains(&old(self).queues@[CONTROL_TXQ_INDEX as int]),
            final(self).queues@[CONTROL_RXQ_INDEX as int].same_chains(&old(self).queues@[CONTROL_RXQ_INDEX as int]),
            forall|i: int|
                0 <= i < final(self).queues@.len() && i != CONTROL_RXQ_INDEX && i != CONTROL_TXQ_INDEX ==>
                    #[trigger] final(self).queues@[i] == old(self).queues@[i],
            final(self).same_port_data(old(self)),
            final(self).same_setup(old(self)),
            final(self).same_irq(old(self)),
    {
        let ghost chains = self.queues@[CONTROL_TXQ_INDEX as int].chains@;
        let ghost consoles = self.consoles();
        let ghost mem = self.mem@;
        let ghost target = control_tx(chains, mem, consoles, self.ctrl_state());
        let ghost start = self.queues@[CONTROL_TXQ_INDEX as int].next_avail as int;
        let ghost old_self = *self;
        let mut resume: Vec<u32> = Vec::new();
        let mut used_any = false;
        proof {
            lemma_control_tx_bounds(chains, mem, consoles, self.ctrl_state());
        }
        loop
            invariant
                self.wf(),
                self.queues@.len() == old_self.queues@.len(),
                self.queues@[CONTROL_TXQ_INDEX as int].same_chains(&old_self.queues@[CONTROL_TXQ_INDEX as int]),
                forall|i: int| 0 <= i < self.queues@.len() && i != CONTROL_TXQ_INDEX ==>
                    #[trigger] self.queues@[i] == old_self.queues@[i],
                self.same_port_data(&old_self),
                self.consoles() == consoles,
                self.mem@ == mem,
                self.same_setup(&old_self),
                self.same_irq(&old_self),
                chains == self.queues@[CONTROL_TXQ_INDEX as int].chains@,
                control_tx(chains, mem, consoles, (CtrlState { resume: resume@, ..self.ctrl_state() })) == target,
                start <= self.ctrl_state().next <= target.next,
                target.next <= chains.len(),
                used_any == (self.ctrl_state().next > start),
            ensures
                (CtrlState { resume: resume@, ..self.ctrl_state() }) == target,
                used_any == (self.ctrl_state().next > start),
            decreases self.queues@[CONTROL_TXQ_INDEX as int].pending(),
        {
            let popped = self.queues[CONTROL_TXQ_INDEX].pop();
            match popped {
                None => {
                    break;
                },
                Some(chain) => {
                    let head = chain.descriptors[0];
                    self.queues[CONTROL_TXQ_INDEX].add_used(chain.index, 0);
                    used_any = true;
                    match self.mem.read_slice(head.addr, CONTROL_MSG_LEN) {
                        Ok(bytes) => {
                            let cmd = VirtioConsoleControl::from_bytes(bytes.as_slice());
                            self.handle_control_msg(cmd, &mut resume);
                        },
                        Err(_) => {},
                    }
                    proof {
                        lemma_control_tx_bounds(chains, mem, consoles, CtrlState { resume: resume@, ..self.ctrl_state() });
                    }
                },
            }
        }
        let mut control_used = false;
        if self.cmd_queue.len() > 0 {
            control_used = self.process_control_rx();
        }
        (used_any || control_used, resume)
    }


    /// Port `p`'s receive queue, guest memory and input, as handing input to
    /// the guest sees them.
    pub open spec fn rx_state(&self, p: int) -> RxState {
        RxState {
            next: self.queues@[rx_queue_index(p)].next_avail as int,
            used: self.queues@[rx_queue_index(p)].used@,
            mem: self.mem@,
            input: self.ports@[p].input@,
            pending: self.ports@[p].pending_rx,
        }
    }

    /// Port `p`'s transmit queue and output.
    pub open spec fn tx_state(&self, p: int) -> TxState {
        TxState {
            next: self.queues@[tx_queue_index(p)].next_avail as int,
            used: self.queues@[tx_queue_index(p)].used@,
            output: self.ports@[p].output@,
        }
    }

    /// All ports but `p` are as in `o`, and so are `p`'s console flag and
    /// status.
    pub open spec fn other_ports_same(&self, o: &Console, p: int) -> bool {
        &&& self.ports@.len() == o.ports@.len()
        &&& forall|q: int| 0 <= q < self.ports@.len() && q != p ==> #[trigger] self.ports@[q] == o.ports@[q]
        &&& self.ports@[p].console == o.ports@[p].console
        &&& self.ports@[p].status == o.ports@[p].status
    }

    /// All queues but the one at `qi` are as in `o`, and that one differs only
    /// in how far it was popped and in its used ring.
    pub open spec fn other_queues_same(&self, o: &Console, qi: int) -> bool {
        &&& self.queues@.len() == o.queues@.len()
        &&& forall|i: int| 0 <= i < self.queues@.len() && i != qi ==> #[trigger] self.queues@[i] == o.queues@[i]
        &&& self.queues@[qi].same_chains(&o.queues@[qi])
    }

    /// Hands the input of port `port_id` to the guest through the port's
    /// receive queue. True when a chain was used.
    pub fn process_rx(&mut self, port_id: usize) -> (used_any: bool)
        requires
            old(self).wf(),
            old(self).activated,
            port_id < old(self).ports@.len(),
        ensures
            final(self).wf(),
            ({
                let res = rx_fill(
                    old(self).queues@[rx_queue_index(port_id as int)].chains@,
                    RxState { pending: true, ..old(self).rx_state(port_id as int) },
                );
                &&& final(self).rx_state(port_id as int) == res
                &&& used_any == (res.next > old(self).rx_state(port_id as int).next)
            }),
            final(self).other_queues_same(old(self), rx_queue_index(port_id as int)),
            final(self).other_ports_same(old(self), port_id as int),
            final(self).ports@[port_id as int].output@ == old(self).ports@[port_id as int].output@,
            final(self).cmd_queue@ == old(self).cmd_queue@,
            final(self).same_setup(old(self)),
            final(self).same_irq(old(self)),
    {
        let ghost p = port_id as int;
        let qi = port_rx_queue_index(port_id);
        self.ports[port_id].pending_rx = true;
        let ghost chains = self.queues@[qi as int].chains@;
        let ghost target = rx_fill(chains, self.rx_state(p));
        let ghost start = self.rx_state(p).next;
        let ghost old_self = *self;
        proof {
            lemma_rx_fill_bounds(chains, self.rx_state(p));
        }
        let mut used_any = false;
        loop
            invariant
                self.wf(),
                qi == rx_queue_index(p),
                0 <= p < self.ports@.len(),
                p == port_id as int,
                self.other_queues_same(&old_self, qi as int),
                self.other_ports_same(&old_self, p),
                self.ports@[p].output@ == old_self.ports@[p].output@,
                self.cmd_queue@ == old_self.cmd_queue@,
                self.same_setup(&old_self),
                self.same_irq(&old_self),
                chains == self.queues@[qi as int].chains@,
                rx_fill(chains, self.rx_state(p)) == target,
                start <= self.rx_state(p).next <= target.next,
                target.next <= chains.len(),
                used_any == (self.rx_state(p).next > start),
            ensures
                self.rx_state(p) == target,
                used_any == (self.rx_state(p).next > start),
            decreases self.queues@[qi as int].pending(),
        {
            let popped = self.queues[qi].pop();
            match popped {
                None => {
                    break;
                },
                Some(chain) => {
                    let head = chain.descriptors[0];
                    let avail = self.ports[port_id].input.len();
                    let n: usize = if (head.len as usize) < avail { head.len as usize } else { avail };
                    if n == 0 {
                        self.ports[port_id].pending_rx = false;
                        self.queues[qi].undo_pop();
                        assert(self.rx_state(p) == target);
                        break;
                    }
                    let chunk = prefix(&self.ports[port_id].input, n);
                    match self.mem.write_slice(chunk.as_slice(), head.addr) {
                        Ok(()) => {
                            let rest = suffix(&self.ports[port_id].input, n);
                            self.ports[port_id].input = rest;
                            self.queues[qi].add_used(chain.index, n as u32);
                        },
                        Err(_) => {
                            self.queues[qi].add_used(chain.index, 0);
                        },
                    }
                    used_any = true;
                    proof {
                        lemma_rx_fill_bounds(chains, self.rx_state(p));
                    }
                },
            }
        }
        used_any
    }

    /// Hands input that arrived while port `port_id` was closed to the guest,
    /// once the port is open. True when a chain was used.
    pub fn resume_rx(&mut self, port_id: usize) -> (used_any: bool)
        requires
            old(self).wf(),
            old(self).activated,
            port_id < old(self).ports@.len(),
        ensures
            final(self).wf(),
            ({
                let p = port_id as int;
                if old(self).ports@[p].pending_rx && old(self).ports@[p].status == (PortStatus::Ready { opened: true }) {
                    let res = rx_fill(
                        old(self).queues@[rx_queue_index(p)].chains@,
                        RxState { pending: true, ..old(self).rx_state(p) },
                    );
                    &&& final(self).rx_state(p) == res
                    &&& used_any == (res.next > old(self).rx_state(p).next)
                    &&& final(self).other_queues_same(old(self), rx_queue_index(p))
                    &&& final(self).other_ports_same(old(self), p)
                    &&& final(self).ports@[p].output@ == old(self).ports@[p].output@
                } else {
                    &&& !used_any
                    &&& final(self).queues@ == old(self).queues@
                    &&& final(self).ports@ == old(self).ports@
                    &&& final(self).mem@ == old(self).mem@
                }
            }),
            final(self).cmd_queue@ == old(self).cmd_queue@,
            final(self).same_setup(old(self)),
            final(self).same_irq(old(self)),
    {
        let ready = match self.ports[port_id].status {
            PortStatus::Ready { opened } => opened,
            PortStatus::NotReady => false,
        };
        if !self.ports[port_id].pending_rx || !ready {
            return false;
        }
        self.process_rx(port_id)
    }

    /// Copies what the guest transmitted on port `port_id` to the port's
    /// output. The first transmission ever also raises a configuration
    /// interrupt, which drivers of a single port wait for. True when a chain
    /// was used.
    pub fn process_tx(&mut self, port_id: usize) -> (used_any: bool)
        requires
            old(self).wf(),
            old(self).activated,
            port_id < old(self).ports@.len(),
        ensures
            final(self).wf(),
            ({
                let res = tx_drain(
                    old(self).queues@[tx_queue_index(port_id as int)].chains@,
                    old(self).mem@,
                    old(self).tx_state(port_id as int),
                );
                &&& final(self).tx_state(port_id as int) == res
                &&& used_any == (res.next > old(self).tx_state(port_id as int).next)
            }),
            final(self).configured,
            !old(self).configured ==> final(self).interrupt_status == raised(old(self).interrupt_status, VIRTIO_MMIO_INT_CONFIG)
                && final(self).irq_pending,
            old(self).configured ==> final(self).same_irq(old(self)),
            final(self).other_queues_same(old(self), tx_queue_index(port_id as int)),
            final(self).other_ports_same(old(self), port_id as int),
            final(self).ports@[port_id as int].input@ == old(self).ports@[port_id as int].input@,
            final(self).ports@[port_id as int].pending_rx == old(self).ports@[port_id as int].pending_rx,
            final(self).cmd_queue@ == old(self).cmd_queue@,
            final(self).mem@ == old(self).mem@,
            final(self).avail_features == old(self).avail_features,
            final(self).acked_features == old(self).acked_features,
            final(self).config == old(self).config,
            final(self).activated == old(self).activated,
    {
        if !self.configured {
            self.configured = true;
            self.signal_config_update();
        }
        let ghost p = port_id as int;
        let qi = port_tx_queue_index(port_id);
        let ghost chains = self.queues@[qi as int].chains@;
        let ghost mem = self.mem@;
        let ghost target = tx_drain(chains, mem, self.tx_state(p));
        let ghost start = self.tx_state(p).next;
        let ghost old_self = *self;
        proof {
            lemma_tx_drain_bounds(chains, mem, self.tx_state(p));
        }
        let mut used_any = false;
        loop
            invariant
                self.wf(),
                qi == tx_queue_index(p),
                0 <= p < self.ports@.len(),
                p == port_id as int,
                self.other_queues_same(&old_self, qi as int),
                self.other_ports_same(&old_self, p),
                self.ports@[p].input@ == old_self.ports@[p].input@,
                self.ports@[p].pending_rx == old_self.ports@[p].pending_rx,
                self.cmd_queue@ == old_self.cmd_queue@,
                self.mem@ == mem,
                self.same_setup(&old_self),
                self.same_irq(&old_self),
                chains == self.queues@[qi as int].chains@,
                tx_drain(chains, mem, self.tx_state(p)) == target,
                start <= self.tx_state(p).next <= target.next,
                target.next <= chains.len(),
                used_any == (self.tx_state(p).next > start),
            ensures
                self.tx_state(p) == target,
                used_any == (self.tx_state(p).next > start),
            decreases self.queues@[qi as int].pending(),
        {
            let popped = self.queues[qi].pop();
            match popped {
                None => {
                    break;
                },
                Some(chain) => {
                    let head = chain.descriptors[0];
                    match self.mem.read_slice(head.addr, head.len as usize) {
                        Ok(bytes) => {
                            let mut bytes = bytes;
                            self.ports[port_id].output.append(&mut bytes);
                        },
                        Err(_) => {},
                    }
                    self.queues[qi].add_used(chain.index, head.len);
                    used_any = true;
                    proof {
                        lemma_tx_drain_bounds(chains, mem, self.tx_state(p));
                    }
                },
            }
        }
        used_any
    }


    /// Queues a control message for the driver and writes what the control
    /// receive queue takes, raising an interrupt when a chain was used.
    pub fn push_control_cmd(&mut self, cmd: VirtioConsoleControl)
        requires
            old(self).wf(),
            old(self).activated,
        ensures
            final(self).wf(),
            ({
                let d = drain(
                    old(self).queues@[CONTROL_RXQ_INDEX as int].chains@,
                    DrainState { cmds: old(self).cmd_queue@.push(cmd), ..old(self).drain_state() },
                );
                &&& final(self).drain_state() == d
                &&& if d.next > old(self).drain_state().next {
                    &&& final(self).interrupt_status == raised(old(self).interrupt_status, VIRTIO_MMIO_INT_VRING)
                    &&& final(self).irq_pending
                } else {
                    final(self).same_irq(old(self))
                }
            }),
            final(self).other_queues_same(old(self), CONTROL_RXQ_INDEX as int),
            final(self).ports@ == old(self).ports@,
            final(self).same_setup(old(self)),
    {
        self.cmd_queue.push(cmd);
        if self.process_control_rx() {
            self.signal_used_queue();
        }
    }

    /// Acts on what the host input source of port `port_id` reported. Input
    /// on a port that is not ready yet is remembered as pending; on a closed
    /// port it is left alone; on an open port it goes to the guest, and a
    /// hang-up closes the port and tells the driver so. True when an
    /// interrupt is owed for used chains.
    pub fn handle_input(&mut self, events: InputEvents, port_id: usize) -> (raise_irq: bool)
        requires
            old(self).wf(),
            old(self).activated,
            port_id < old(self).ports@.len(),
        ensures
            final(self).wf(),
            final(self).same_setup(old(self)),
            ({
                let p = port_id as int;
                let rxq = rx_queue_index(p);
                let hang = events.hang_up || events.read_hang_up;
                let rx = if events.input {
                    rx_fill(old(self).queues@[rxq].chains@, RxState { pending: true, ..old(self).rx_state(p) })
                } else {
                    old(self).rx_state(p)
                };
                let close = VirtioConsoleControl { id: port_id as u32, event: VIRTIO_CONSOLE_PORT_OPEN, value: 0 };
                let d = drain(
                    old(self).queues@[CONTROL_RXQ_INDEX as int].chains@,
                    DrainState { mem: rx.mem, cmds: old(self).cmd_queue@.push(close), ..old(self).drain_state() },
                );
                if old(self).ports@[p].status == PortStatus::NotReady {
                    &&& !raise_irq
                    &&& final(self).ports@ == old(self).ports@.update(p, Port { pending_rx: true, ..old(self).ports@[p] })
                    &&& final(self).queues@ == old(self).queues@
                    &&& final(self).mem@ == old(self).mem@
                    &&& final(self).cmd_queue@ == old(self).cmd_queue@
                    &&& final(self).same_irq(old(self))
                } else if old(self).ports@[p].status == (PortStatus::Ready { opened: false }) {
                    &&& !raise_irq
                    &&& final(self).ports@ == old(self).ports@
                    &&& final(self).queues@ == old(self).queues@
                    &&& final(self).mem@ == old(self).mem@
                    &&& final(self).cmd_queue@ == old(self).cmd_queue@
                    &&& final(self).same_irq(old(self))
                } else {
                    &&& final(self).queues@[rxq].next_avail == rx.next
                    &&& final(self).queues@[rxq].used@ == rx.used
                    &&& final(self).ports@[p].input@ == rx.input
                    &&& final(self).ports@[p].pending_rx == rx.pending
                    &&& final(self).ports@[p].output@ == old(self).ports@[p].output@
                    &&& raise_irq == ((events.input && rx.next > old(self).rx_state(p).next) || hang)
                    &&& hang ==> {
                        &&& final(self).statuses() == old(self).statuses().update(p, PortStatus::Ready { opened: false })
                        &&& final(self).drain_state() == d
                        &&& if d.next > old(self).drain_state().next {
                            &&& final(self).interrupt_status == raised(old(self).interrupt_status, VIRTIO_MMIO_INT_VRING)
                            &&& final(self).irq_pending
                        } else {
                            final(self).same_irq(old(self))
                        }
                    }
                    &&& !hang ==> {
                        &&& final(self).statuses() == old(self).statuses()
                        &&& final(self).mem@ == rx.mem
                        &&& final(self).cmd_queue@ == old(self).cmd_queue@
                        &&& final(self).queues@[CONTROL_RXQ_INDEX as int] == old(self).queues@[CONTROL_RXQ_INDEX as int]
                        &&& final(self).same_irq(old(self))
                    }
                }
            }),
    {
        let ghost p = port_id as int;
        match self.ports[port_id].status {
            PortStatus::NotReady => {
                self.ports[port_id].pending_rx = true;
                false
            },
            PortStatus::Ready { opened: false } => false,
            PortStatus::Ready { opened: true } => {
                let mut raise_irq = false;
                if events.input {
                    raise_irq = self.process_rx(port_id);
                }
                if events.hang_up || events.read_hang_up {
                    let ghost before = self.statuses();
                    self.ports[port_id].status = PortStatus::Ready { opened: false };
                    assert(self.statuses() =~= before.update(p, PortStatus::Ready { opened: false }));
                    self.push_control_cmd(VirtioConsoleControl { id: port_id as u32, event: VIRTIO_CONSOLE_PORT_OPEN, value: 0 });
                    raise_irq = true;
                }
                raise_irq
            },
        }
    }


    /// Each port's receive chains.
    pub open spec fn port_rx_chains(&self) -> Seq<Seq<DescriptorChain>> {
        Seq::new(self.ports@.len(), |p: int| self.queues@[rx_queue_index(p)].chains@)
    }

    /// Each port's receive side.
    pub open spec fn port_rx(&self) -> Seq<PortRx> {
        Seq::new(
            self.ports@.len(),
            |p: int|
                PortRx {
                    next: self.queues@[rx_queue_index(p)].next_avail as int,
                    used: self.queues@[rx_queue_index(p)].used@,
                    input: self.ports@[p].input@,
                    pending: self.ports@[p].pending_rx,
                },
        )
    }

    /// What acting on the driver's control messages gives.
    pub open spec fn control_tx_result(&self) -> CtrlState {
        control_tx(self.queues@[CONTROL_TXQ_INDEX as int].chains@, self.mem@, self.consoles(), self.ctrl_state())
    }

    /// What writing the replies then gives.
    pub open spec fn control_reply_result(&self) -> DrainState {
        drain(
            self.queues@[CONTROL_RXQ_INDEX as int].chains@,
            DrainState { cmds: self.control_tx_result().cmds, ..self.drain_state() },
        )
    }

    /// What resuming the opened ports then gives.
    pub open spec fn resume_result(&self) -> ResumeState {
        resume_ports(
            self.port_rx_chains(),
            self.control_tx_result().status,
            self.control_tx_result().resume,
            ResumeState { mem: self.control_reply_result().mem, ports: self.port_rx(), used_any: false },
        )
    }

    /// Handling a control transmit notification uses a chain of some queue.
    pub open spec fn control_tx_uses_chain(&self) -> bool {
        ||| self.control_tx_result().next > self.ctrl_state().next
        ||| self.control_reply_result().next > self.drain_state().next
        ||| self.resume_result().used_any
    }

    /// Handles a notification on the control transmit queue: acts on the
    /// driver's messages, writes the replies, then hands pending input to
    /// the ports that were opened. True when an interrupt is owed for used
    /// chains.
    pub fn handle_control_tx_event(&mut self) -> (raise_irq: bool)
        requires
            old(self).wf(),
            old(self).activated,
        ensures
            final(self).wf(),
            ({
                let t = old(self).control_tx_result();
                let d = old(self).control_reply_result();
                let res = old(self).resume_result();
                &&& final(self).queues@[CONTROL_TXQ_INDEX as int].next_avail == t.next
                &&& final(self).queues@[CONTROL_TXQ_INDEX as int].used@ == t.used
                &&& final(self).statuses() == t.status
                &&& final(self).cmd_queue@ == d.cmds
                &&& final(self).queues@[CONTROL_RXQ_INDEX as int].next_avail == d.next
                &&& final(self).queues@[CONTROL_RXQ_INDEX as int].used@ == d.used
                &&& final(self).mem@ == res.mem
                &&& final(self).port_rx() == res.ports
                &&& final(self).port_rx_chains() == old(self).port_rx_chains()
                &&& raise_irq == old(self).control_tx_uses_chain()
            }),
            final(self).same_setup(old(self)),
            final(self).same_irq(old(self)),
    {
        let ghost start = *self;
        let (used_any, resume) = self.process_control_tx();
        let ghost mid = *self;
        let ghost chains = start.port_rx_chains();
        let ghost status = mid.statuses();
        let ghost target = start.resume_result();
        proof {
            assert(mid.port_rx() =~= start.port_rx());
            assert(mid.port_rx_chains() =~= chains);
            assert(resume@ == start.control_tx_result().resume);
            assert(status == start.control_tx_result().status);
            assert(mid.mem@ == start.control_reply_result().mem);
            assert(resume@.subrange(0, resume@.len() as int) =~= resume@);
        }
        let mut resumed = false;
        let mut i: usize = 0;
        while i < resume.len()
            invariant
                self.wf(),
                self.activated,
                i <= resume@.len(),
                self.queues@.len() == mid.queues@.len(),
                self.queues@[CONTROL_TXQ_INDEX as int] == mid.queues@[CONTROL_TXQ_INDEX as int],
                self.queues@[CONTROL_RXQ_INDEX as int] == mid.queues@[CONTROL_RXQ_INDEX as int],
                self.statuses() == status,
                self.cmd_queue@ == mid.cmd_queue@,
                self.same_setup(&mid),
                self.same_irq(&mid),
                self.port_rx_chains() == chains,
                resume_ports(
                    chains,
                    status,
                    resume@.subrange(i as int, resume@.len() as int),
                    ResumeState { mem: self.mem@, ports: self.port_rx(), used_any: resumed },
                ) == target,
            decreases resume@.len() - i,
        {
            let id = resume[i];
            let ghost before = *self;
            let ghost ids = resume@.subrange(i as int, resume@.len() as int);
            assert(ids.drop_first() =~= resume@.subrange(i + 1, resume@.len() as int));
            if (id as u64) < (self.ports.len() as u64) {
                let p = id as usize;
                let used = self.resume_rx(p);
                resumed = resumed || used;
                assert(self.statuses() =~= before.statuses());
                proof {
                    if before.ports@[p as int].pending_rx && before.ports@[p as int].status == (PortStatus::Ready {
                        opened: true,
                    }) {
                        let r = rx_fill(
                            chains[p as int],
                            RxState { pending: true, ..before.rx_state(p as int) },
                        );
                        assert(self.port_rx() =~= before.port_rx().update(
                            p as int,
                            PortRx { next: r.next, used: r.used, input: r.input, pending: r.pending },
                        ));
                        assert(self.port_rx_chains() =~= chains);
                    } else {
                        assert(self.port_rx() =~= before.port_rx());
                        assert(self.port_rx_chains() =~= chains);
                    }
                }
            }
            i += 1;
        }
        proof {
            lemma_resume_ports_used_any(chains, status, Seq::empty(), ResumeState {
                mem: self.mem@,
                ports: self.port_rx(),
                used_any: resumed,
            });
        }
        used_any || resumed
    }

    /// Handles a notification on queue `queue_index` and raises the
    /// interrupt that the work owes. An inactive device does nothing.
    pub fn process_queue_event(&mut self, queue_index: usize)
        requires
            old(self).wf(),
        ensures
            final(self).wf(),
            final(self).avail_features == old(self).avail_features,
            final(self).acked_features == old(self).acked_features,
            final(self).config == old(self).config,
            final(self).activated == old(self).activated,
            !old(self).activated || queue_index >= old(self).queues@.len() ==> {
                &&& final(self).queues@ == old(self).queues@
                &&& final(self).ports@ == old(self).ports@
                &&& final(self).mem@ == old(self).mem@
                &&& final(self).cmd_queue@ == old(self).cmd_queue@
                &&& final(self).same_irq(old(self))
            },
            old(self).activated && queue_index == CONTROL_TXQ_INDEX ==> ({
                let t = old(self).control_tx_result();
                let d = old(self).control_reply_result();
                let res = old(self).resume_result();
                &&& final(self).queues@[CONTROL_TXQ_INDEX as int].next_avail == t.next
                &&& final(self).queues@[CONTROL_TXQ_INDEX as int].used@ == t.used
                &&& final(self).statuses() == t.status
                &&& final(self).cmd_queue@ == d.cmds
                &&& final(self).queues@[CONTROL_RXQ_INDEX as int].next_avail == d.next
                &&& final(self).queues@[CONTROL_RXQ_INDEX as int].used@ == d.used
                &&& final(self).mem@ == res.mem
                &&& final(self).port_rx() == res.ports
                &&& if old(self).control_tx_uses_chain() {
                    &&& final(self).interrupt_status == raised(old(self).interrupt_status, VIRTIO_MMIO_INT_VRING)
                    &&& final(self).irq_pending
                } else {
                    final(self).same_irq(old(self))
                }
            }),
            old(self).activated && queue_index == CONTROL_RXQ_INDEX ==> ({
                let res = drain(old(self).queues@[CONTROL_RXQ_INDEX as int].chains@, old(self).drain_state());
                &&& final(self).drain_state() == res
                &&& if res.next > old(self).drain_state().next {
                    &&& final(self).interrupt_status == raised(old(self).interrupt_status, VIRTIO_MMIO_INT_VRING)
                    &&& final(self).irq_pending
                } else {
                    final(self).same_irq(old(self))
                }
            }),
            old(self).activated && queue_index < old(self).queues@.len() && (queue_index == 0 || (queue_index >= 4
                && queue_index % 2 == 0)) ==> ({
                let p = if queue_index == 0 { 0 } else { queue_index / 2 - 1 };
                let res = rx_fill(
                    old(self).queues@[queue_index as int].chains@,
                    RxState { pending: true, ..old(self).rx_state(p) },
                );
                &&& final(self).rx_state(p) == res
                &&& if res.next > old(self).rx_state(p).next {
                    &&& final(self).interrupt_status == raised(old(self).interrupt_status, VIRTIO_MMIO_INT_VRING)
                    &&& final(self).irq_pending
                } else {
                    final(self).same_irq(old(self))
                }
            }),
            old(self).activated && queue_index < old(self).queues@.len() && (queue_index == 1 || (queue_index >= 4
                && queue_index % 2 == 1)) ==> ({
                let p = if queue_index == 1 { 0 } else { queue_index / 2 - 1 };
                let res = tx_drain(old(self).queues@[queue_index as int].chains@, old(self).mem@, old(self).tx_state(p));
                let status = if old(self).configured {
                    old(self).interrupt_status
                } else {
                    raised(old(self).interrupt_status, VIRTIO_MMIO_INT_CONFIG)
                };
                &&& final(self).tx_state(p) == res
                &&& final(self).configured
                &&& final(self).interrupt_status == if res.next > old(self).tx_state(p).next {
                    raised(status, VIRTIO_MMIO_INT_VRING)
                } else {
                    status
                }
                &&& final(self).irq_pending == (old(self).irq_pending || !old(self).configured || res.next
                    > old(self).tx_state(p).next)
            }),
    {
        if !self.activated || queue_index >= self.queues.len() {
            return;
        }
        let raise_irq = if queue_index == CONTROL_RXQ_INDEX {
            self.process_control_rx()
        } else if queue_index == CONTROL_TXQ_INDEX {
            self.handle_control_tx_event()
        } else if queue_index == 0 {
            self.process_rx(0)
        } else if queue_index == 1 {
            self.process_tx(0)
        } else if queue_index % 2 == 0 {
            self.process_rx(queue_index / 2 - 1)
        } else {
            self.process_tx(queue_index / 2 - 1)
        };
        if raise_irq {
            self.signal_used_queue();
        }
    }

}

} // verus!
