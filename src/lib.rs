//! Verified cores of two paravirtualized devices: a multiport virtio console
//! and a virtio network device relaying frames over a length-prefixed stream.
pub mod console;
pub mod device;
pub mod framing;
pub mod memory;
pub mod net;
pub mod queue;
pub mod terminal;
