//! What both devices share: interrupt-status bits and the guest's view of a
//! configuration space.
use vstd::prelude::*;

verus! {

/// Interrupt-status bit: a queue has new used entries.
pub const VIRTIO_MMIO_INT_VRING: u32 = 0x01;
/// Interrupt-status bit: the configuration space changed.
pub const VIRTIO_MMIO_INT_CONFIG: u32 = 0x02;

/// What `dst` holds after the guest reads `image` from `offset` into it.
pub open spec fn config_read(image: Seq<u8>, offset: int, dst: Seq<u8>) -> Seq<u8> {
    if offset >= image.len() {
        dst
    } else {
        let n = if image.len() - offset < dst.len() { image.len() - offset } else { dst.len() as int };
        image.subrange(offset, offset + n) + dst.subrange(n, dst.len() as int)
    }
}

/// Copies the bytes of `image` from `offset` on into the front of `data`,
/// as many as both have; nothing when `offset` is past the image.
pub fn read_config_image(image: &[u8], offset: u64, data: &mut [u8])
    ensures
        final(data)@ == config_read(image@, offset as int, old(data)@),
{
    let config_len = image.len() as u64;
    if offset >= config_len {
        return;
    }
    let start = offset as usize;
    let avail = image.len() - start;
    let n = if avail < data.len() { avail } else { data.len() };
    let ghost before = data@;
    let mut i: usize = 0;
    while i < n
        invariant
            i <= n,
            n <= data@.len(),
            start + n <= image@.len(),
            image@.len() <= usize::MAX,
            data@.len() == before.len(),
            data@ == image@.subrange(start as int, start + i) + before.subrange(i as int, before.len() as int),
        decreases n - i,
    {
        data[i] = image[start + i];
        i += 1;
        assert(data@ =~= image@.subrange(start as int, start + i) + before.subrange(i as int, before.len() as int));
    }
}

/// A read past the end of the configuration space leaves the buffer as it
/// was; one that starts inside it fills exactly
/// `min(config_len - offset, dst.len())` bytes with the image, in order.
pub proof fn lemma_config_read_bounds(image: Seq<u8>, offset: int, dst: Seq<u8>)
    requires
        offset >= 0,
    ensures
        offset >= image.len() ==> config_read(image, offset, dst) == dst,
        offset < image.len() ==> {
            let n = if image.len() - offset < dst.len() { image.len() - offset } else { dst.len() as int };
            &&& config_read(image, offset, dst).len() == dst.len()
            &&& forall|i: int| 0 <= i < n ==> #[trigger] config_read(image, offset, dst)[i] == image[offset + i]
            &&& forall|i: int| n <= i < dst.len() ==> #[trigger] config_read(image, offset, dst)[i] == dst[i]
        },
{
}

/// The interrupt status after the device raises `bit`.
pub open spec fn raised(status: u32, bit: u32) -> u32 {
    status | bit
}

/// Raising a bit sets it and keeps every bit that was set; raising it again
/// changes nothing. Only clearing, which the driver does, takes it away.
pub proof fn lemma_raise_idempotent(status: u32, bit: u32)
    ensures
        raised(status, bit) & bit == bit,
        raised(status, bit) & status == status,
        raised(raised(status, bit), bit) == raised(status, bit),
{
    assert((status | bit) & bit == bit) by (bit_vector);
    assert((status | bit) & status == status) by (bit_vector);
    assert((status | bit) | bit == status | bit) by (bit_vector);
}

/// The interrupt status after the driver acknowledges `bits`.
pub open spec fn acknowledged(status: u32, bits: u32) -> u32 {
    status & !bits
}

} // verus!
