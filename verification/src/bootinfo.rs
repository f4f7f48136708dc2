//! BootInfo v2: the frozen seam between any bootloader and this kernel.
//!
//! Flat and self-contained: nothing here refers to a particular bootloader's
//! types, so any loader that can fill these fields can start the kernel.
use vstd::prelude::*;

verus! {

/// "SB" + boot + version 2. The kernel refuses to run on a mismatch rather
/// than trust a record nobody vouched for.
pub const BOOT_MAGIC: u64 = 0x5B00_7B00_7000_0002;

/// Capacity of the memory map carried in a `BootInfo`.
pub const MEMMAP_MAX: usize = 128;

/// The framebuffer the bootloader set up.
#[derive(Clone, Copy, Debug, PartialEq, Eq)]
pub struct FramebufferInfo {
    /// Virtual address, already mapped and writable when the kernel starts.
    pub addr: u64,
    pub width: u64,
    pub height: u64,
    /// Bytes per row: never assume width * 4.
    pub pitch: u64,
    pub bpp: u16,
    pub _pad: [u8; 6],
}

/// One physical memory range reported by the bootloader.
#[derive(Clone, Copy, Debug, PartialEq, Eq)]
pub struct MemRegion {
    pub base: u64,
    pub len: u64,
    /// Memory map type values (0 = usable); the numbering is part of the
    /// BootInfo contract, whatever bootloader fills it in.
    pub kind: u32,
    pub _pad: u32,
}

/// Everything the kernel is told at entry.
#[derive(Clone, Copy)]
pub struct BootInfo {
    pub magic: u64,
    /// Higher-half direct-map offset: phys + hhdm_offset = virt.
    pub hhdm_offset: u64,
    pub fb: FramebufferInfo,
    /// Number of leading entries of `memmap` that are filled in.
    pub memmap_len: u64,
    pub memmap: [MemRegion; 128],
}

/// The all-zero memory region that fills unused map slots.
pub open spec fn empty_region() -> MemRegion {
    MemRegion { base: 0, len: 0, kind: 0, _pad: 0 }
}

} // verus!
