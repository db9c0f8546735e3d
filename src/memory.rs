//! Guest memory as the devices see it: a flat range of bytes starting at
//! guest-physical address zero, with bounded copies in and out.
use vstd::prelude::*;

verus! {

/// A copy touched bytes outside guest memory.
#[derive(Clone, Copy, Debug, PartialEq, Eq)]
pub enum MemoryError {
    OutOfBounds,
}

pub struct GuestMemory {
    bytes: Vec<u8>,
}

impl View for GuestMemory {
    type V = Seq<u8>;

    closed spec fn view(&self) -> Seq<u8> {
        self.bytes@
    }
}

/// `[addr, addr + len)` lies inside a memory of `size` bytes.
pub open spec fn range_fits(size: int, addr: int, len: int) -> bool {
    addr + len <= size
}

/// `m` with the bytes at `addr` replaced by `data`.
pub open spec fn overwrite(m: Seq<u8>, addr: int, data: Seq<u8>) -> Seq<u8> {
    m.subrange(0, addr) + data + m.subrange(addr + data.len(), m.len() as int)
}

impl GuestMemory {
    /// A zero-filled memory of `size` bytes.
    pub fn new(size: usize) -> (r: GuestMemory)
        ensures
            r@ == Seq::new(size as nat, |i: int| 0u8),
    {
        let mut bytes: Vec<u8> = Vec::new();
        let mut i: usize = 0;
        while i < size
            invariant
                i <= size,
                bytes@ == Seq::new(i as nat, |j: int| 0u8),
            decreases size - i,
        {
            bytes.push(0u8);
            i += 1;
            assert(bytes@ =~= Seq::new(i as nat, |j: int| 0u8));
        }
        GuestMemory { bytes }
    }

    pub fn len(&self) -> (r: usize)
        ensures
            r == self@.len(),
    {
        self.bytes.len()
    }

    /// Copies `data` into guest memory at `addr`.
    pub fn write_slice(&mut self, data: &[u8], addr: u64) -> (r: Result<(), MemoryError>)
        ensures
            r.is_ok() == range_fits(old(self)@.len() as int, addr as int, data@.len() as int),
            r.is_ok() ==> final(self)@ == overwrite(old(self)@, addr as int, data@),
            r.is_err() ==> final(self)@ == old(self)@,
    {
        let size = self.bytes.len();
        if addr > size as u64 || data.len() as u64 > size as u64 - addr {
            return Err(MemoryError::OutOfBounds);
        }
        let start = addr as usize;
        let ghost before = self.bytes@;
        let mut i: usize = 0;
        while i < data.len()
            invariant
                i <= data@.len(),
                start + data@.len() <= size,
                size == before.len(),
                self.bytes@ == overwrite(before, start as int, data@.subrange(0, i as int))
                    .subrange(0, start + i) + before.subrange(start + i, before.len() as int),
                self.bytes@.len() == before.len(),
            decreases data@.len() - i,
        {
            self.bytes.set(start + i, data[i]);
            i += 1;
            assert(self.bytes@ =~= overwrite(before, start as int, data@.subrange(0, i as int))
                .subrange(0, start + i) + before.subrange(start + i, before.len() as int));
        }
        assert(data@.subrange(0, i as int) =~= data@);
        assert(self.bytes@ =~= overwrite(before, start as int, data@));
        Ok(())
    }

    /// Copies `len` bytes of guest memory starting at `addr`.
    pub fn read_slice(&self, addr: u64, len: usize) -> (r: Result<Vec<u8>, MemoryError>)
        ensures
            r.is_ok() == range_fits(self@.len() as int, addr as int, len as int),
            r.is_ok() ==> r.unwrap()@ == self@.subrange(addr as int, addr + len),
    {
        let size = self.bytes.len();
        if addr > size as u64 || len as u64 > size as u64 - addr {
            return Err(MemoryError::OutOfBounds);
        }
        let start = addr as usize;
        let mut out: Vec<u8> = Vec::new();
        let mut i: usize = 0;
        while i < len
            invariant
                i <= len,
                start + len <= size,
                size == self@.len(),
                out@ == self@.subrange(start as int, start + i),
            decreases len - i,
        {
            out.push(self.bytes[start + i]);
            i += 1;
            assert(out@ =~= self@.subrange(start as int, start + i));
        }
        Ok(out)
    }
}

} // verus!
