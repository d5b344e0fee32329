//! The memory shim: a flat 65536-byte image with an address-range predicate
//! that separates plain memory from memory-mapped I/O.
//!
//! Accesses inside the I/O range touch no byte; they only raise the
//! side-effect mark that the reconciliation engine reads once per
//! instruction. Accesses outside it read or write the image little-endian;
//! one beyond the image's bound is an addressing fault.

use vstd::prelude::*;

verus! {

/// Size of the simulated address space covered by the image, in bytes.
pub const RAM_SIZE: usize = 65536;

/// An inclusive range of addresses treated as memory-mapped I/O.
#[derive(Debug, Copy, Clone, PartialEq, Eq, Structural)]
pub struct AddrRange {
    pub lo: u32,
    pub hi: u32,
}

impl AddrRange {
    pub open spec fn spec_contains(self, addr: u32) -> bool {
        self.lo <= addr <= self.hi
    }

    pub fn contains(&self, addr: u32) -> (r: bool)
        ensures
            r == self.spec_contains(addr),
    {
        self.lo <= addr && addr <= self.hi
    }
}

/// The value of `width` consecutive bytes starting at `addr`, read
/// little-endian.
pub open spec fn le_bytes(ram: Seq<u8>, addr: int, width: int) -> nat
    decreases width,
{
    if width <= 0 {
        0
    } else {
        (ram[addr] + 256 * le_bytes(ram, addr + 1, width - 1)) as nat
    }
}

/// Byte `k` of `val`, counting little-endian from the least significant.
pub open spec fn byte_of(val: u32, k: int) -> u8 {
    if k == 0 {
        (val % 256) as u8
    } else if k == 1 {
        ((val / 256) % 256) as u8
    } else if k == 2 {
        ((val / 65536) % 256) as u8
    } else {
        ((val / 16777216) % 256) as u8
    }
}

/// What a load produced.
#[derive(Debug, Copy, Clone, PartialEq, Eq, Structural)]
pub enum LoadResult {
    /// The address is memory-mapped I/O: no byte was read, the side-effect
    /// mark was raised, and the access counts as a success.
    Mmio,
    /// The little-endian value of the addressed bytes.
    Value(u32),
    /// The access runs past the image's bound.
    Fault,
}

/// What a store did.
#[derive(Debug, Copy, Clone, PartialEq, Eq, Structural)]
pub enum StoreResult {
    /// The address is memory-mapped I/O: no byte was written, the
    /// side-effect mark was raised, and the access counts as a success.
    Mmio,
    /// The bytes were written.
    Done,
    /// The access runs past the image's bound.
    Fault,
}

/// The memory shim: the firmware image, the configured memory-mapped I/O
/// range, and the per-instruction side-effect mark.
pub struct SimMemory {
    pub ram: Vec<u8>,
    pub mmio: AddrRange,
    pub mmio_mark: bool,
}

impl SimMemory {
    /// The image always covers the full simulated address space.
    pub open spec fn wf(self) -> bool {
        self.ram@.len() == RAM_SIZE
    }

    /// A shim over the given firmware image, truncated or zero-padded to
    /// [`RAM_SIZE`] bytes, with the given memory-mapped I/O range and the
    /// side-effect mark clear.
    pub fn with_mmio_range(image: &[u8], mmio: AddrRange) -> (r: SimMemory)
        ensures
            r.wf(),
            r.mmio == mmio,
            !r.mmio_mark,
            forall|i: int|
                0 <= i < RAM_SIZE ==> r.ram@[i] == (if i < image@.len() {
                    image@[i]
                } else {
                    0u8
                }),
    {
        let mut ram: Vec<u8> = Vec::new();
        let mut i: usize = 0;
        while i < RAM_SIZE
            invariant
                i <= RAM_SIZE,
                ram@.len() == i,
                forall|j: int|
                    0 <= j < i ==> ram@[j] == (if j < image@.len() {
                        image@[j]
                    } else {
                        0u8
                    }),
            decreases RAM_SIZE - i,
        {
            if i < image.len() {
                ram.push(image[i]);
            } else {
                ram.push(0);
            }
            i = i + 1;
        }
        SimMemory { ram, mmio, mmio_mark: false }
    }

    /// A shim with the default memory-mapped I/O range: every address whose
    /// top nibble is `0xf`.
    pub fn from_image(image: &[u8]) -> (r: SimMemory)
        ensures
            r.wf(),
            r.mmio == (AddrRange { lo: 0xf0000000u32, hi: 0xffffffffu32 }),
            !r.mmio_mark,
            forall|i: int|
                0 <= i < RAM_SIZE ==> r.ram@[i] == (if i < image@.len() {
                    image@[i]
                } else {
                    0u8
                }),
    {
        SimMemory::with_mmio_range(image, AddrRange { lo: 0xf0000000, hi: 0xffffffff })
    }

    /// Load `width` bytes at `addr`, little-endian. Inside the I/O range no
    /// byte is read and the side-effect mark is raised; loads never lower
    /// the mark.
    pub fn load(&mut self, addr: u32, width: u8) -> (r: LoadResult)
        requires
            old(self).wf(),
            width == 1 || width == 2 || width == 4,
        ensures
            final(self).wf(),
            final(self).ram@ == old(self).ram@,
            final(self).mmio == old(self).mmio,
            old(self).mmio.spec_contains(addr) ==> r == LoadResult::Mmio
                && final(self).mmio_mark,
            !old(self).mmio.spec_contains(addr) ==> final(self).mmio_mark == old(
                self,
            ).mmio_mark && (if addr + width <= RAM_SIZE {
                r == LoadResult::Value(
                    le_bytes(old(self).ram@, addr as int, width as int) as u32,
                )
            } else {
                r == LoadResult::Fault
            }),
    {
        if self.mmio.contains(addr) {
            self.mmio_mark = true;
            return LoadResult::Mmio;
        }
        if !(addr as u64 + width as u64 <= RAM_SIZE as u64) {
            return LoadResult::Fault;
        }
        let a = addr as usize;
        proof {
            reveal_with_fuel(le_bytes, 5);
        }
        let v: u32 = if width == 1 {
            self.ram[a] as u32
        } else if width == 2 {
            self.ram[a] as u32 + self.ram[a + 1] as u32 * 256
        } else {
            self.ram[a] as u32 + self.ram[a + 1] as u32 * 256 + self.ram[a + 2] as u32 * 65536
                + self.ram[a + 3] as u32 * 16777216
        };
        LoadResult::Value(v)
    }

    /// Store the low `width` bytes of `val` at `addr`, little-endian. Inside
    /// the I/O range no byte is written and the side-effect mark is raised;
    /// stores never lower the mark.
    pub fn store(&mut self, addr: u32, width: u8, val: u32) -> (r: StoreResult)
        requires
            old(self).wf(),
            width == 1 || width == 2 || width == 4,
        ensures
            final(self).wf(),
            final(self).mmio == old(self).mmio,
            old(self).mmio.spec_contains(addr) ==> r == StoreResult::Mmio
                && final(self).mmio_mark && final(self).ram@ == old(self).ram@,
            !old(self).mmio.spec_contains(addr) ==> final(self).mmio_mark == old(
                self,
            ).mmio_mark && (if addr + width <= RAM_SIZE {
                r == StoreResult::Done && forall|j: int|
                    0 <= j < RAM_SIZE ==> final(self).ram@[j] == (if addr <= j < addr + width {
                        byte_of(val, j - addr)
                    } else {
                        old(self).ram@[j]
                    })
            } else {
                r == StoreResult::Fault && final(self).ram@ == old(self).ram@
            }),
    {
        if self.mmio.contains(addr) {
            self.mmio_mark = true;
            return StoreResult::Mmio;
        }
        if !(addr as u64 + width as u64 <= RAM_SIZE as u64) {
            return StoreResult::Fault;
        }
        let a = addr as usize;
        self.ram[a] = (val % 256) as u8;
        if width >= 2 {
            self.ram[a + 1] = ((val / 256) % 256) as u8;
        }
        if width == 4 {
            self.ram[a + 2] = ((val / 65536) % 256) as u8;
            self.ram[a + 3] = ((val / 16777216) % 256) as u8;
        }
        StoreResult::Done
    }

    /// Read the side-effect mark and clear it: done once per instruction, by
    /// the engine's owner, at reconciliation time.
    pub fn take_mmio_mark(&mut self) -> (r: bool)
        ensures
            r == old(self).mmio_mark,
            !final(self).mmio_mark,
            final(self).ram@ == old(self).ram@,
            final(self).mmio == old(self).mmio,
    {
        let r = self.mmio_mark;
        self.mmio_mark = false;
        r
    }
}

} // verus!
