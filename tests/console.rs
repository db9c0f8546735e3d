use virtio_devices::console::{
    Console, InputEvents, PortStatus, VirtioConsoleConfig, VirtioConsoleControl, AVAIL_FEATURES,
    CONTROL_RXQ_INDEX, CONTROL_TXQ_INDEX, VIRTIO_CONSOLE_CONSOLE_PORT, VIRTIO_CONSOLE_DEVICE_READY,
    VIRTIO_CONSOLE_PORT_ADD, VIRTIO_CONSOLE_PORT_OPEN, VIRTIO_CONSOLE_PORT_READY, VIRTIO_ID_CONSOLE,
};
use virtio_devices::device::{VIRTIO_MMIO_INT_CONFIG, VIRTIO_MMIO_INT_VRING};
use virtio_devices::memory::GuestMemory;
use virtio_devices::queue::{Descriptor, DescriptorChain, UsedElem};

fn active_console(ports: usize) -> Console {
    let mut c = Console::new(ports, 80, 24);
    c.activate(GuestMemory::new(8192));
    c
}

fn chain(index: u16, addr: u64, len: u32, write_only: bool) -> DescriptorChain {
    DescriptorChain::new(index, vec![Descriptor { addr, len, write_only }])
}

/// The driver sends a control message through the control transmit queue.
fn driver_sends(c: &mut Console, index: u16, addr: u64, msg: VirtioConsoleControl) {
    c.mem.write_slice(&msg.to_bytes(), addr).unwrap();
    c.queues[CONTROL_TXQ_INDEX].add_chain(chain(index, addr, 8, false));
}

/// The driver offers a buffer for one control message from the device.
fn driver_offers_control(c: &mut Console, index: u16, addr: u64) {
    c.queues[CONTROL_RXQ_INDEX].add_chain(chain(index, addr, 8, true));
}

fn message_at(c: &Console, addr: u64) -> VirtioConsoleControl {
    VirtioConsoleControl::from_bytes(&c.mem.read_slice(addr, 8).unwrap())
}

fn msg(id: u32, event: u16, value: u16) -> VirtioConsoleControl {
    VirtioConsoleControl { id, event, value }
}

#[test]
fn config_new_and_resize() {
    let mut cfg = VirtioConsoleConfig::new(80, 24, 2);
    assert_eq!((cfg.cols, cfg.rows, cfg.max_nr_ports, cfg.emerg_wr), (80, 24, 2, 0));
    cfg.update_console_size(132, 50);
    assert_eq!((cfg.cols, cfg.rows, cfg.max_nr_ports, cfg.emerg_wr), (132, 50, 2, 0));
    assert_eq!(cfg.as_bytes(), vec![132, 0, 50, 0, 2, 0, 0, 0, 0, 0, 0, 0]);
}

#[test]
fn control_message_bytes() {
    let m = msg(0x01020304, 6, 0x0102);
    let b = m.to_bytes();
    assert_eq!(b, vec![4, 3, 2, 1, 6, 0, 2, 1]);
    assert_eq!(VirtioConsoleControl::from_bytes(&b), m);
}

#[test]
fn new_console_setup() {
    let c = Console::new(2, 80, 24);
    assert_eq!(c.queues.len(), 6);
    assert_eq!(c.ports.len(), 2);
    assert!(c.ports[0].console);
    assert!(!c.ports[1].console);
    assert_eq!(c.ports[1].status, PortStatus::NotReady);
    assert_eq!(c.avail_features(), AVAIL_FEATURES);
    assert_eq!(c.avail_features(), (1 << 0) | (1 << 1) | (1 << 32));
    assert_eq!(c.acked_features(), 0);
    assert_eq!(c.device_type(), VIRTIO_ID_CONSOLE);
    assert_eq!(c.id(), "virtio_console");
}

#[test]
fn activation_flag() {
    let mut c = Console::new(1, 80, 24);
    assert!(!c.is_activated());
    c.activate(GuestMemory::new(16));
    assert!(c.is_activated());
    c.set_acked_features(7);
    assert!(c.is_activated());
    assert_eq!(c.acked_features(), 7);
}

#[test]
fn read_config_windows() {
    let c = Console::new(1, 80, 24);
    let mut all = [0xaau8; 12];
    c.read_config(0, &mut all);
    assert_eq!(all, [80, 0, 24, 0, 1, 0, 0, 0, 0, 0, 0, 0]);
    let mut mid = [0xaau8; 4];
    c.read_config(2, &mut mid);
    assert_eq!(mid, [24, 0, 1, 0]);
    let mut tail = [0xaau8; 8];
    c.read_config(10, &mut tail);
    assert_eq!(tail, [0, 0, 0xaa, 0xaa, 0xaa, 0xaa, 0xaa, 0xaa]);
    let mut past = [0xaau8; 4];
    c.read_config(12, &mut past);
    assert_eq!(past, [0xaa; 4]);
    c.read_config(u64::MAX, &mut past);
    assert_eq!(past, [0xaa; 4]);
}

#[test]
fn write_config_is_ignored() {
    let mut c = Console::new(1, 80, 24);
    c.write_config(0, &[1, 2, 3, 4]);
    let mut all = [0u8; 4];
    c.read_config(0, &mut all);
    assert_eq!(all, [80, 0, 24, 0]);
}

#[test]
fn console_handshake() {
    let mut c = active_console(1);
    driver_offers_control(&mut c, 7, 0x200);
    driver_sends(&mut c, 1, 0x100, msg(0, VIRTIO_CONSOLE_DEVICE_READY, 1));
    c.process_queue_event(CONTROL_TXQ_INDEX);
    assert_eq!(message_at(&c, 0x200), msg(0, VIRTIO_CONSOLE_PORT_ADD, 0));
    assert_eq!(c.queues[CONTROL_RXQ_INDEX].used, vec![UsedElem { index: 7, len: 8 }]);
    assert_eq!(c.queues[CONTROL_TXQ_INDEX].used, vec![UsedElem { index: 1, len: 0 }]);
    assert!(c.cmd_queue.is_empty());
    assert!(c.take_irq());
    assert_eq!(c.interrupt_status & VIRTIO_MMIO_INT_VRING, VIRTIO_MMIO_INT_VRING);
}

#[test]
fn console_port_open() {
    let mut c = active_console(1);
    driver_offers_control(&mut c, 7, 0x200);
    driver_sends(&mut c, 1, 0x100, msg(0, VIRTIO_CONSOLE_DEVICE_READY, 1));
    c.process_queue_event(CONTROL_TXQ_INDEX);
    driver_offers_control(&mut c, 8, 0x400);
    driver_sends(&mut c, 2, 0x300, msg(0, VIRTIO_CONSOLE_PORT_READY, 1));
    c.process_queue_event(CONTROL_TXQ_INDEX);
    assert_eq!(message_at(&c, 0x400), msg(0, VIRTIO_CONSOLE_CONSOLE_PORT, 1));
    assert_eq!(c.ports[0].status, PortStatus::Ready { opened: false });
    assert_eq!(c.queues[CONTROL_RXQ_INDEX].used.len(), 2);
}

#[test]
fn console_hang_up() {
    let mut c = active_console(1);
    c.ports[0].status = PortStatus::Ready { opened: true };
    driver_offers_control(&mut c, 3, 0x200);
    let events = InputEvents { input: false, hang_up: true, read_hang_up: false };
    assert!(c.handle_input(events, 0));
    assert_eq!(c.ports[0].status, PortStatus::Ready { opened: false });
    assert_eq!(message_at(&c, 0x200), msg(0, VIRTIO_CONSOLE_PORT_OPEN, 0));
    assert_eq!(c.queues[CONTROL_RXQ_INDEX].used, vec![UsedElem { index: 3, len: 8 }]);
    assert!(c.cmd_queue.is_empty());
    assert!(c.irq_pending);
    assert_eq!(c.interrupt_status, VIRTIO_MMIO_INT_VRING);
}

#[test]
fn hang_up_names_the_port_that_closed() {
    let mut c = active_console(3);
    c.ports[2].status = PortStatus::Ready { opened: true };
    driver_offers_control(&mut c, 3, 0x200);
    let events = InputEvents { input: false, hang_up: false, read_hang_up: true };
    assert!(c.handle_input(events, 2));
    assert_eq!(message_at(&c, 0x200), msg(2, VIRTIO_CONSOLE_PORT_OPEN, 0));
}

#[test]
fn port_adds_in_ascending_order() {
    let mut c = active_console(3);
    for (i, addr) in [0x200u64, 0x210, 0x220].iter().enumerate() {
        driver_offers_control(&mut c, i as u16, *addr);
    }
    driver_sends(&mut c, 9, 0x100, msg(0, VIRTIO_CONSOLE_DEVICE_READY, 1));
    c.process_queue_event(CONTROL_TXQ_INDEX);
    assert_eq!(message_at(&c, 0x200), msg(0, VIRTIO_CONSOLE_PORT_ADD, 0));
    assert_eq!(message_at(&c, 0x210), msg(1, VIRTIO_CONSOLE_PORT_ADD, 0));
    assert_eq!(message_at(&c, 0x220), msg(2, VIRTIO_CONSOLE_PORT_ADD, 0));
    driver_offers_control(&mut c, 5, 0x230);
    driver_sends(&mut c, 10, 0x110, msg(1, VIRTIO_CONSOLE_PORT_READY, 1));
    c.process_queue_event(CONTROL_TXQ_INDEX);
    assert_eq!(message_at(&c, 0x230), msg(1, VIRTIO_CONSOLE_PORT_OPEN, 1));
    assert_eq!(c.ports[1].status, PortStatus::Ready { opened: false });
}

#[test]
fn replies_wait_for_control_buffers() {
    let mut c = active_console(2);
    driver_sends(&mut c, 9, 0x100, msg(0, VIRTIO_CONSOLE_DEVICE_READY, 1));
    c.process_queue_event(CONTROL_TXQ_INDEX);
    assert_eq!(c.cmd_queue, vec![msg(0, VIRTIO_CONSOLE_PORT_ADD, 0), msg(1, VIRTIO_CONSOLE_PORT_ADD, 0)]);
    driver_offers_control(&mut c, 1, 0x200);
    assert!(c.process_control_rx());
    assert_eq!(message_at(&c, 0x200), msg(0, VIRTIO_CONSOLE_PORT_ADD, 0));
    assert_eq!(c.cmd_queue, vec![msg(1, VIRTIO_CONSOLE_PORT_ADD, 0)]);
}

#[test]
fn control_buffer_outside_memory_is_skipped() {
    let mut c = active_console(1);
    c.cmd_queue.push(msg(0, VIRTIO_CONSOLE_PORT_ADD, 0));
    driver_offers_control(&mut c, 1, 0x10_0000);
    driver_offers_control(&mut c, 2, 0x200);
    assert!(c.process_control_rx());
    assert_eq!(
        c.queues[CONTROL_RXQ_INDEX].used,
        vec![UsedElem { index: 1, len: 0 }, UsedElem { index: 2, len: 8 }]
    );
    assert_eq!(message_at(&c, 0x200), msg(0, VIRTIO_CONSOLE_PORT_ADD, 0));
}

#[test]
fn invalid_control_values_are_ignored() {
    let mut c = active_console(1);
    driver_sends(&mut c, 1, 0x100, msg(0, VIRTIO_CONSOLE_PORT_READY, 0));
    driver_sends(&mut c, 2, 0x110, msg(0, VIRTIO_CONSOLE_PORT_OPEN, 2));
    driver_sends(&mut c, 3, 0x120, msg(5, VIRTIO_CONSOLE_PORT_OPEN, 1));
    driver_sends(&mut c, 4, 0x130, msg(0, 42, 1));
    c.process_queue_event(CONTROL_TXQ_INDEX);
    assert_eq!(c.ports[0].status, PortStatus::NotReady);
    assert!(c.cmd_queue.is_empty());
    assert_eq!(c.queues[CONTROL_TXQ_INDEX].used.len(), 4);
}

#[test]
fn input_waits_until_port_opens() {
    let mut c = active_console(1);
    c.ports[0].input = b"hello".to_vec();
    c.queues[0].add_chain(chain(4, 0x500, 64, true));
    let events = InputEvents { input: true, hang_up: false, read_hang_up: false };
    assert!(!c.handle_input(events, 0));
    assert!(c.ports[0].pending_rx);
    assert!(c.queues[0].used.is_empty());
    assert_eq!(c.mem.read_slice(0x500, 5).unwrap(), vec![0; 5]);

    driver_sends(&mut c, 1, 0x100, msg(0, VIRTIO_CONSOLE_PORT_OPEN, 1));
    c.process_queue_event(CONTROL_TXQ_INDEX);
    assert_eq!(c.ports[0].status, PortStatus::Ready { opened: true });
    assert_eq!(c.mem.read_slice(0x500, 5).unwrap(), b"hello".to_vec());
    assert_eq!(c.queues[0].used, vec![UsedElem { index: 4, len: 5 }]);
    assert!(c.ports[0].input.is_empty());
}

#[test]
fn closed_port_drops_input_event() {
    let mut c = active_console(1);
    c.ports[0].status = PortStatus::Ready { opened: false };
    c.ports[0].input = b"x".to_vec();
    c.queues[0].add_chain(chain(4, 0x500, 64, true));
    let events = InputEvents { input: true, hang_up: true, read_hang_up: false };
    assert!(!c.handle_input(events, 0));
    assert!(!c.ports[0].pending_rx);
    assert!(c.queues[0].used.is_empty());
    assert!(c.cmd_queue.is_empty());
}

#[test]
fn rx_splits_input_over_buffers() {
    let mut c = active_console(1);
    c.ports[0].status = PortStatus::Ready { opened: true };
    c.ports[0].input = b"abcdefg".to_vec();
    c.queues[0].add_chain(chain(1, 0x500, 4, true));
    c.queues[0].add_chain(chain(2, 0x600, 4, true));
    c.queues[0].add_chain(chain(3, 0x700, 4, true));
    assert!(c.process_rx(0));
    assert_eq!(c.mem.read_slice(0x500, 4).unwrap(), b"abcd".to_vec());
    assert_eq!(c.mem.read_slice(0x600, 3).unwrap(), b"efg".to_vec());
    assert_eq!(c.queues[0].used, vec![UsedElem { index: 1, len: 4 }, UsedElem { index: 2, len: 3 }]);
    // The third chain goes back to the queue: nothing was left to give.
    assert_eq!(c.queues[0].next_avail, 2);
    assert!(!c.ports[0].pending_rx);
    let total: u32 = c.queues[0].used.iter().map(|u| u.len).sum();
    assert_eq!(total, 7);
}

#[test]
fn rx_without_buffers_keeps_input_pending() {
    let mut c = active_console(1);
    c.ports[0].status = PortStatus::Ready { opened: true };
    c.ports[0].input = b"abc".to_vec();
    assert!(!c.process_rx(0));
    assert!(c.ports[0].pending_rx);
    assert_eq!(c.ports[0].input, b"abc".to_vec());
    c.queues[0].add_chain(chain(1, 0x500, 8, true));
    assert!(c.resume_rx(0));
    assert_eq!(c.mem.read_slice(0x500, 3).unwrap(), b"abc".to_vec());
}

#[test]
fn tx_copies_output_and_signals_config_once() {
    let mut c = active_console(1);
    c.mem.write_slice(b"hi there", 0x800).unwrap();
    c.queues[1].add_chain(chain(6, 0x800, 2, false));
    c.queues[1].add_chain(chain(7, 0x802, 6, false));
    assert!(c.process_tx(0));
    assert_eq!(c.ports[0].output, b"hi there".to_vec());
    assert_eq!(c.queues[1].used, vec![UsedElem { index: 6, len: 2 }, UsedElem { index: 7, len: 6 }]);
    assert_eq!(c.interrupt_status, VIRTIO_MMIO_INT_CONFIG);
    c.ack_interrupt(VIRTIO_MMIO_INT_CONFIG);
    assert!(!c.process_tx(0));
    assert_eq!(c.interrupt_status, 0);
}

#[test]
fn tx_on_second_port_uses_its_queue() {
    let mut c = active_console(2);
    c.mem.write_slice(b"zz", 0x800).unwrap();
    c.queues[5].add_chain(chain(1, 0x800, 2, false));
    c.process_queue_event(5);
    assert_eq!(c.ports[1].output, b"zz".to_vec());
    assert!(c.ports[0].output.is_empty());
    assert!(c.irq_pending);
}

#[test]
fn inactive_device_ignores_queue_events() {
    let mut c = Console::new(1, 80, 24);
    c.queues[1].add_chain(chain(1, 0, 2, false));
    c.process_queue_event(1);
    assert!(c.queues[1].used.is_empty());
    assert!(!c.irq_pending);
}

#[test]
fn used_interrupt_bit_is_sticky() {
    let mut c = Console::new(1, 80, 24);
    c.signal_used_queue();
    assert_eq!(c.interrupt_status, VIRTIO_MMIO_INT_VRING);
    c.signal_used_queue();
    assert_eq!(c.interrupt_status, VIRTIO_MMIO_INT_VRING);
    c.signal_config_update();
    assert_eq!(c.interrupt_status, VIRTIO_MMIO_INT_VRING | VIRTIO_MMIO_INT_CONFIG);
    c.signal_used_queue();
    assert_eq!(c.interrupt_status, VIRTIO_MMIO_INT_VRING | VIRTIO_MMIO_INT_CONFIG);
    c.ack_interrupt(VIRTIO_MMIO_INT_VRING);
    assert_eq!(c.interrupt_status, VIRTIO_MMIO_INT_CONFIG);
}

#[test]
fn resize_updates_config_and_signals() {
    let mut c = Console::new(1, 80, 24);
    c.update_console_size(100, 40);
    let mut b = [0u8; 4];
    c.read_config(0, &mut b);
    assert_eq!(b, [100, 0, 40, 0]);
    assert_eq!(c.interrupt_status, VIRTIO_MMIO_INT_CONFIG);
    assert!(c.take_irq());
    assert!(!c.take_irq());
}

#[test]
fn queue_event_raises_only_for_used_chains() {
    let mut c = active_console(1);
    c.process_queue_event(CONTROL_RXQ_INDEX);
    assert!(!c.irq_pending);
    c.ports[0].status = PortStatus::Ready { opened: true };
    c.process_queue_event(0);
    assert!(!c.irq_pending);
    c.ports[0].input = b"ab".to_vec();
    c.queues[0].add_chain(chain(1, 0x500, 8, true));
    c.process_queue_event(0);
    assert!(c.irq_pending);
    assert_eq!(c.interrupt_status, VIRTIO_MMIO_INT_VRING);
    assert_eq!(c.queues[0].used, vec![UsedElem { index: 1, len: 2 }]);
}
