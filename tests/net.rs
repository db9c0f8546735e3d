use virtio_devices::memory::{GuestMemory, MemoryError};
use virtio_devices::net::{
    write_virtio_net_hdr, ConfigSpace, FrontendError, Net, RxAction, StreamRead, BASE_FEATURES, MAC_FEATURES,
    RX_INDEX, TX_INDEX, TYPE_NET,
};
use virtio_devices::queue::{Descriptor, DescriptorChain, UsedElem};

const HDR: usize = 12;

fn active_net() -> Net {
    let mut n = Net::new(String::from("net0"), None);
    n.activate(GuestMemory::new(8192));
    n
}

fn desc(addr: u64, len: u32, write_only: bool) -> Descriptor {
    Descriptor { addr, len, write_only }
}

fn frame(len: usize) -> Vec<u8> {
    (0..len).map(|i| (i as u8).wrapping_mul(7).wrapping_add(1)).collect()
}

#[test]
fn net_header_is_zeroed() {
    let mut buf = [0xffu8; 20];
    assert_eq!(write_virtio_net_hdr(&mut buf), HDR);
    assert_eq!(&buf[..HDR], &[0u8; HDR]);
    assert_eq!(&buf[HDR..], &[0xffu8; 8]);
}

#[test]
fn net_new_features() {
    let n = Net::new(String::from("a"), None);
    assert_eq!(n.avail_features(), BASE_FEATURES);
    assert_eq!(n.guest_mac(), None);
    assert_eq!(n.id(), "a");
    assert_eq!(n.device_type(), TYPE_NET);
    let m = Net::new(String::from("b"), Some([1, 2, 3, 4, 5, 6]));
    assert_eq!(m.avail_features(), MAC_FEATURES);
    assert_eq!(MAC_FEATURES, BASE_FEATURES | (1 << 5));
    assert_eq!(m.guest_mac(), Some([1, 2, 3, 4, 5, 6]));
    let mut b = [0u8; 6];
    m.read_config(0, &mut b);
    assert_eq!(b, [1, 2, 3, 4, 5, 6]);
    let d = ConfigSpace::default();
    assert_eq!(d.guest_mac, [0; 6]);
}

#[test]
fn net_activation_flag() {
    let mut n = Net::new(String::from("a"), None);
    assert!(!n.is_activated());
    n.activate(GuestMemory::new(8));
    assert!(n.is_activated());
}

#[test]
fn net_config_read_and_write() {
    let mut n = Net::new(String::from("a"), Some([1, 2, 3, 4, 5, 6]));
    let mut b = [9u8; 4];
    n.read_config(4, &mut b);
    assert_eq!(b, [5, 6, 9, 9]);
    n.read_config(6, &mut b);
    assert_eq!(b, [5, 6, 9, 9]);
    n.write_config(2, &[0xaa, 0xbb]);
    assert_eq!(n.guest_mac(), Some([1, 2, 0xaa, 0xbb, 5, 6]));
    n.write_config(5, &[0xcc, 0xdd]);
    assert_eq!(n.guest_mac(), Some([1, 2, 0xaa, 0xbb, 5, 6]));
    n.write_config(u64::MAX, &[0xcc]);
    assert_eq!(n.config_space.guest_mac, [1, 2, 0xaa, 0xbb, 5, 6]);
}

#[test]
fn net_tx_framing() {
    let mut n = active_net();
    let eth = [0x00u8, 0x11, 0x22, 0x33, 0x44, 0x55, 0x66, 0x77, 0x88, 0x99, 0xaa, 0xbb, 0x08, 0x00];
    let mut chain_bytes = vec![0u8; HDR];
    chain_bytes.extend_from_slice(&eth);
    n.mem.write_slice(&chain_bytes, 0x100).unwrap();
    n.queues[TX_INDEX].add_chain(DescriptorChain::new(3, vec![desc(0x100, chain_bytes.len() as u32, false)]));
    let frames = n.process_tx();
    let mut expected = vec![0x00, 0x00, 0x00, 0x0e];
    expected.extend_from_slice(&eth);
    assert_eq!(frames, vec![expected]);
    assert_eq!(n.queues[TX_INDEX].used, vec![UsedElem { index: 3, len: 0 }]);
    assert!(n.take_irq());
}

#[test]
fn net_tx_gathers_several_descriptors() {
    let mut n = active_net();
    let body = frame(30);
    let mut bytes = vec![0u8; HDR];
    bytes.extend_from_slice(&body);
    n.mem.write_slice(&bytes[..20], 0x100).unwrap();
    n.mem.write_slice(&bytes[20..], 0x400).unwrap();
    n.queues[TX_INDEX].add_chain(DescriptorChain::new(
        1,
        vec![desc(0x100, 20, false), desc(0x400, (bytes.len() - 20) as u32, false)],
    ));
    let frames = n.process_tx();
    assert_eq!(frames.len(), 1);
    assert_eq!(&frames[0][..4], &[0, 0, 0, 30]);
    assert_eq!(&frames[0][4..], &body[..]);
}

#[test]
fn net_tx_discards_malformed_chains() {
    let mut n = active_net();
    n.queues[TX_INDEX].add_chain(DescriptorChain::new(1, vec![desc(0x100, 40, false), desc(0x200, 40, true)]));
    n.queues[TX_INDEX].add_chain(DescriptorChain::new(2, vec![desc(0x100, HDR as u32, false)]));
    n.queues[TX_INDEX].add_chain(DescriptorChain::new(3, vec![desc(0x10_0000, 40, false)]));
    let frames = n.process_tx();
    assert!(frames.is_empty());
    assert_eq!(
        n.queues[TX_INDEX].used,
        vec![UsedElem { index: 1, len: 0 }, UsedElem { index: 2, len: 0 }, UsedElem { index: 3, len: 0 }]
    );
}

#[test]
fn net_tx_with_empty_queue_raises_nothing() {
    let mut n = active_net();
    assert!(n.process_tx().is_empty());
    assert!(!n.take_irq());
}

#[test]
fn net_rx_chain_too_small() {
    let mut n = active_net();
    n.queues[RX_INDEX].add_chain(DescriptorChain::new(5, vec![desc(0x100, 50, true)]));
    assert!(!n.deliver_frame(&frame(100)));
    assert_eq!(n.queues[RX_INDEX].used, vec![UsedElem { index: 5, len: 0 }]);
    assert!(n.rx_deferred_irqs);
    assert!(!n.irq_pending);
    n.signal_rx_used_queue();
    assert!(n.irq_pending);
    assert!(!n.rx_deferred_irqs);
}

#[test]
fn net_rx_multi_descriptor() {
    let mut n = active_net();
    let f = frame(100);
    n.mem.write_slice(&[0xee; 200], 0x1000).unwrap();
    n.queues[RX_INDEX].add_chain(DescriptorChain::new(
        2,
        vec![desc(0x1000, 16, true), desc(0x1400, 60, true), desc(0x1800, 40, true)],
    ));
    assert!(n.deliver_frame(&f));
    assert_eq!(n.queues[RX_INDEX].used, vec![UsedElem { index: 2, len: (HDR + 100) as u32 }]);
    let first = n.mem.read_slice(0x1000, 16).unwrap();
    assert_eq!(&first[..HDR], &[0u8; HDR]);
    assert_eq!(&first[HDR..], &f[..4]);
    assert_eq!(n.mem.read_slice(0x1400, 60).unwrap(), f[4..64].to_vec());
    assert_eq!(n.mem.read_slice(0x1800, 36).unwrap(), f[64..].to_vec());
    assert_eq!(n.mem.read_slice(0x1800 + 36, 4).unwrap(), vec![0; 4]);
}

#[test]
fn net_rx_retries_next_chain() {
    let mut n = active_net();
    let f = frame(20);
    n.queues[RX_INDEX].add_chain(DescriptorChain::new(1, vec![desc(0x100, 64, false)]));
    n.queues[RX_INDEX].add_chain(DescriptorChain::new(2, vec![desc(0x10_0000, 64, true)]));
    n.queues[RX_INDEX].add_chain(DescriptorChain::new(3, vec![desc(0x200, 64, true)]));
    assert!(n.deliver_frame(&f));
    assert_eq!(
        n.queues[RX_INDEX].used,
        vec![UsedElem { index: 1, len: 0 }, UsedElem { index: 2, len: 0 }, UsedElem { index: 3, len: 32 }]
    );
    assert_eq!(n.mem.read_slice(0x200 + HDR as u64, 20).unwrap(), f);
    let total: u32 = n.queues[RX_INDEX].used.iter().map(|u| u.len).sum();
    assert_eq!(total as usize, HDR + f.len());
}

#[test]
fn net_rx_empty_queue_drops_frame() {
    let mut n = active_net();
    assert!(!n.has_rx_buffers());
    assert!(!n.deliver_frame(&frame(10)));
    assert!(n.queues[RX_INDEX].used.is_empty());
    assert!(!n.rx_deferred_irqs);
    n.signal_rx_used_queue();
    assert!(!n.irq_pending);
}

#[test]
fn net_rx_oversized_frame_is_dropped() {
    let mut n = active_net();
    n.queues[RX_INDEX].add_chain(DescriptorChain::new(1, vec![desc(0x100, 64, true)]));
    assert!(n.has_rx_buffers());
    assert!(!n.deliver_frame(&vec![1u8; 65562 - HDR + 1]));
    assert!(n.queues[RX_INDEX].used.is_empty());
}

#[test]
fn memory_bounds() {
    let mut m = GuestMemory::new(16);
    assert_eq!(m.len(), 16);
    assert_eq!(m.write_slice(&[1, 2, 3], 14), Err(MemoryError::OutOfBounds));
    assert_eq!(m.write_slice(&[1, 2], 14), Ok(()));
    assert_eq!(m.read_slice(13, 3), Ok(vec![0, 1, 2]));
    assert_eq!(m.read_slice(13, 4), Err(MemoryError::OutOfBounds));
    assert_eq!(m.read_slice(u64::MAX, 1), Err(MemoryError::OutOfBounds));
}

#[test]
fn net_rx_step_flow() {
    let mut n = active_net();
    n.queues[RX_INDEX].add_chain(DescriptorChain::new(1, vec![desc(0x100, 64, true)]));
    assert_eq!(n.process_rx_step(StreamRead::Frame(frame(10))), RxAction::ReadAgain);
    assert_eq!(n.queues[RX_INDEX].used, vec![UsedElem { index: 1, len: (HDR + 10) as u32 }]);
    assert!(!n.irq_pending);
    assert_eq!(n.process_rx_step(StreamRead::WouldBlock), RxAction::Done);
    assert!(n.irq_pending);
    assert!(!n.rx_deferred_irqs);
    assert!(n.take_irq());
    assert_eq!(n.process_rx_step(StreamRead::WouldBlock), RxAction::Done);
    assert!(!n.irq_pending);
    assert_eq!(n.process_rx_step(StreamRead::Failed), RxAction::Fail);
}

#[test]
fn net_do_write_errors() {
    let mut n = active_net();
    // No chain: the frame stays in the buffer.
    assert!(!n.deliver_frame(&frame(40)));
    assert_eq!(n.do_write_frame_to_guest(), Err(FrontendError::EmptyQueue));
    n.queues[RX_INDEX].add_chain(DescriptorChain::new(1, vec![desc(0x100, 64, false)]));
    n.queues[RX_INDEX].add_chain(DescriptorChain::new(2, vec![desc(0x100, 20, true), desc(0x200, 20, true)]));
    n.queues[RX_INDEX].add_chain(DescriptorChain::new(3, vec![desc(0x10_0000, 64, true)]));
    n.queues[RX_INDEX].add_chain(DescriptorChain::new(4, vec![desc(0x100, 30, true), desc(0x200, 30, true)]));
    assert_eq!(n.do_write_frame_to_guest(), Err(FrontendError::ReadOnlyDescriptor));
    assert_eq!(n.do_write_frame_to_guest(), Err(FrontendError::DescriptorChainTooSmall));
    assert_eq!(n.do_write_frame_to_guest(), Err(FrontendError::GuestMemory(MemoryError::OutOfBounds)));
    assert_eq!(n.do_write_frame_to_guest(), Ok(()));
    assert_eq!(
        n.queues[RX_INDEX].used,
        vec![
            UsedElem { index: 1, len: 0 },
            UsedElem { index: 2, len: 0 },
            UsedElem { index: 3, len: 0 },
            UsedElem { index: 4, len: 52 },
        ]
    );
    let f = frame(40);
    assert_eq!(n.mem.read_slice(0x100 + HDR as u64, 18).unwrap(), f[..18].to_vec());
    assert_eq!(n.mem.read_slice(0x200, 22).unwrap(), f[18..].to_vec());
}
