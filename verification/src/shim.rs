//! The boot shim's decision: from the responses a Limine bootloader left in
//! memory, build the `BootInfo` the kernel starts from, or refuse to boot.
//!
//! The responses arrive here as plain values; reading them out of the
//! bootloader's memory is the caller's job.
use vstd::prelude::*;
use crate::bootinfo::{BootInfo, FramebufferInfo, MemRegion, BOOT_MAGIC, MEMMAP_MAX, empty_region};

verus! {

/// One framebuffer as Limine describes it (the fields the shim reads).
#[derive(Clone, Copy, Debug, PartialEq, Eq)]
pub struct LimineFramebuffer {
    pub address: u64,
    pub width: u64,
    pub height: u64,
    pub pitch: u64,
    pub bpp: u16,
}

/// The framebuffer response: how many framebuffers the loader reports, and
/// the first of them, read only when there is one.
pub struct FbResponse {
    pub framebuffer_count: u64,
    pub first: Option<LimineFramebuffer>,
}

/// The higher-half direct map response.
#[derive(Clone, Copy, Debug, PartialEq, Eq)]
pub struct HhdmResponse {
    pub offset: u64,
}

/// One memory map entry as Limine describes it.
#[derive(Clone, Copy, Debug, PartialEq, Eq)]
pub struct MemmapEntry {
    pub base: u64,
    pub length: u64,
    pub kind: u64,
}

/// The memory map response: how many entries the loader reports, and the
/// leading entries, in order, as many as `memmap_entries_to_read` says.
pub struct MemmapResponse {
    pub entry_count: u64,
    pub entries: Vec<MemmapEntry>,
}

/// What the bootloader left behind: the base-revision request after the
/// loader has seen it, and each response, absent where the loader gave none.
pub struct LimineHandoff {
    /// The loader zeroes the last word when it supports the requested revision.
    pub base_revision: [u64; 3],
    pub framebuffer: Option<FbResponse>,
    pub hhdm: Option<HhdmResponse>,
    pub memmap: Option<MemmapResponse>,
}

/// The loader supports the requested base revision: it zeroed the last word.
pub fn base_revision_supported(base_revision: &[u64; 3]) -> (b: bool)
    ensures
        b == (base_revision[2] == 0),
{
    base_revision[2] == 0
}

/// The handoff gives the kernel something to stand on: the base revision is
/// supported, all three responses are present and there is a framebuffer.
pub open spec fn handoff_usable(h: &LimineHandoff) -> bool {
    &&& h.base_revision[2] == 0
    &&& h.framebuffer is Some
    &&& h.hhdm is Some
    &&& h.memmap is Some
    &&& h.framebuffer->0.framebuffer_count > 0
    &&& h.framebuffer->0.first is Some
}

/// The kernel's view of a Limine framebuffer.
pub open spec fn framebuffer_info(f: LimineFramebuffer) -> FramebufferInfo {
    FramebufferInfo {
        addr: f.address,
        width: f.width,
        height: f.height,
        pitch: f.pitch,
        bpp: f.bpp,
        _pad: vstd::array::spec_array_fill_for_copy_type::<u8, 6>(0),
    }
}

/// The kernel's view of a Limine memory map entry; the type is narrowed to
/// its low 32 bits.
pub open spec fn mem_region(e: MemmapEntry) -> MemRegion {
    MemRegion { base: e.base, len: e.length, kind: e.kind as u32, _pad: 0 }
}

/// How many of the loader's `entry_count` memory map entries a `BootInfo` carries.
pub open spec fn memmap_count(entry_count: u64) -> int {
    if (entry_count as usize) < MEMMAP_MAX {
        (entry_count as usize) as int
    } else {
        MEMMAP_MAX as int
    }
}

/// How many leading memory map entries to read out of a response that
/// reports `entry_count` of them.
pub fn memmap_entries_to_read(entry_count: u64) -> (n: usize)
    ensures
        n == memmap_count(entry_count),
{
    let count = entry_count as usize;
    if count < MEMMAP_MAX {
        count
    } else {
        MEMMAP_MAX
    }
}

/// The `BootInfo` a usable handoff produces.
pub open spec fn boot_info_of(h: &LimineHandoff, bi: BootInfo) -> bool {
    let entries = h.memmap->0.entries@;
    let n = memmap_count(h.memmap->0.entry_count);
    &&& bi.magic == BOOT_MAGIC
    &&& bi.hhdm_offset == h.hhdm->0.offset
    &&& bi.fb == framebuffer_info(h.framebuffer->0.first->0)
    &&& bi.memmap_len == n
    &&& forall|i: int| 0 <= i < n ==> #[trigger] bi.memmap@[i] == mem_region(entries[i])
    &&& forall|i: int| n <= i < MEMMAP_MAX ==> #[trigger] bi.memmap@[i] == empty_region()
}

/// Validate the Limine handoff and build the BootInfo: `None` where the
/// bootloader gave us nothing to stand on (the caller halts then).
pub fn boot_info(h: &LimineHandoff) -> (r: Option<BootInfo>)
    requires
        h.memmap matches Some(m) ==> m.entries@.len() >= memmap_count(m.entry_count),
    ensures
        r is Some <==> handoff_usable(h),
        r matches Some(bi) ==> boot_info_of(h, bi),
        h.base_revision[2] != 0 ==> r is None,
        h.framebuffer is None || h.hhdm is None || h.memmap is None ==> r is None,
        h.framebuffer matches Some(f) && f.framebuffer_count == 0 ==> r is None,
        (h.base_revision[2] == 0 && h.hhdm is Some && h.memmap is Some && h.framebuffer is Some
            && h.framebuffer->0.framebuffer_count > 0 && h.framebuffer->0.first is Some) ==> r is Some,
        r matches Some(bi) ==> {
            let f = h.framebuffer->0.first->0;
            &&& bi.fb.addr == f.address
            &&& bi.fb.width == f.width
            &&& bi.fb.height == f.height
            &&& bi.fb.pitch == f.pitch
            &&& bi.fb.bpp == f.bpp
            &&& bi.hhdm_offset == h.hhdm->0.offset
        },
{
    if !base_revision_supported(&h.base_revision) {
        return None;
    }
    let (fbr, hhdm, mm) = match (&h.framebuffer, &h.hhdm, &h.memmap) {
        (Some(f), Some(d), Some(m)) => (f, d, m),
        _ => {
            return None;
        },
    };
    if fbr.framebuffer_count == 0 {
        return None;
    }
    let f = match fbr.first {
        Some(f) => f,
        None => {
            return None;
        },
    };
    let fb = FramebufferInfo {
        addr: f.address,
        width: f.width,
        height: f.height,
        pitch: f.pitch,
        bpp: f.bpp,
        _pad: [0u8; 6],
    };
    let n = memmap_entries_to_read(mm.entry_count);
    let mut memmap = [MemRegion { base: 0, len: 0, kind: 0, _pad: 0 }; 128];
    let mut i: usize = 0;
    while i < n
        invariant
            n == memmap_count(mm.entry_count),
            n <= mm.entries@.len(),
            n <= MEMMAP_MAX,
            i <= n,
            forall|j: int| 0 <= j < i ==> #[trigger] memmap@[j] == mem_region(mm.entries@[j]),
            forall|j: int| i <= j < MEMMAP_MAX ==> #[trigger] memmap@[j] == empty_region(),
        decreases n - i,
    {
        let e = mm.entries[i];
        memmap[i] = MemRegion { base: e.base, len: e.length, kind: e.kind as u32, _pad: 0 };
        i = i + 1;
    }
    Some(
        BootInfo {
            magic: BOOT_MAGIC,
            hhdm_offset: hhdm.offset,
            fb,
            memmap_len: n as u64,
            memmap,
        },
    )
}

/// What the shim builds, field by field: the magic; the loader's HHDM offset;
/// the loader's first framebuffer with every field as the loader gave it
/// (the pitch included, never recomputed from the width); and the memory map
/// entries in order, base and length as given and the type cut to its low
/// 32 bits, at most 128 of them, the rest of the map zero.
pub proof fn lemma_boot_info_fields(h: &LimineHandoff, bi: BootInfo)
    requires
        boot_info_of(h, bi),
    ensures
        bi.magic == BOOT_MAGIC,
        bi.hhdm_offset == h.hhdm->0.offset,
        bi.fb.addr == h.framebuffer->0.first->0.address,
        bi.fb.width == h.framebuffer->0.first->0.width,
        bi.fb.height == h.framebuffer->0.first->0.height,
        bi.fb.pitch == h.framebuffer->0.first->0.pitch,
        bi.fb.bpp == h.framebuffer->0.first->0.bpp,
        forall|k: int| 0 <= k < 6 ==> bi.fb._pad@[k] == 0,
        bi.memmap_len <= 128,
        h.memmap->0.entry_count < 128 ==> bi.memmap_len == h.memmap->0.entry_count,
        128 <= h.memmap->0.entry_count <= usize::MAX ==> bi.memmap_len == 128,
        forall|i: int|
            0 <= i < bi.memmap_len ==> {
                let e = #[trigger] h.memmap->0.entries@[i];
                &&& bi.memmap@[i].base == e.base
                &&& bi.memmap@[i].len == e.length
                &&& bi.memmap@[i].kind as int == e.kind as int % 0x1_0000_0000
                &&& bi.memmap@[i]._pad == 0
            },
        forall|i: int|
            bi.memmap_len <= i < 128 ==> {
                &&& (#[trigger] bi.memmap@[i]).base == 0
                &&& bi.memmap@[i].len == 0
                &&& bi.memmap@[i].kind == 0
                &&& bi.memmap@[i]._pad == 0
            },
{
    assert(forall|k: u64| #[trigger] (k as u32) as int == k as int % 0x1_0000_0000) by {
        assert forall|k: u64| #[trigger] (k as u32) as int == k as int % 0x1_0000_0000 by {
            assert((k as u32) == k % 0x1_0000_0000) by (bit_vector);
        }
    }
    assert forall|i: int| 0 <= i < bi.memmap_len implies {
        let e = #[trigger] h.memmap->0.entries@[i];
        &&& bi.memmap@[i].base == e.base
        &&& bi.memmap@[i].len == e.length
        &&& bi.memmap@[i].kind as int == e.kind as int % 0x1_0000_0000
        &&& bi.memmap@[i]._pad == 0
    } by {
        assert(bi.memmap@[i] == mem_region(h.memmap->0.entries@[i]));
    }
    assert forall|i: int| bi.memmap_len <= i < 128 implies {
        &&& (#[trigger] bi.memmap@[i]).base == 0
        &&& bi.memmap@[i].len == 0
        &&& bi.memmap@[i].kind == 0
        &&& bi.memmap@[i]._pad == 0
    } by {
        assert(bi.memmap@[i] == empty_region());
    }
}

/// The memory map read is capped at 128 entries and never exceeds what the
/// loader reports.
pub proof fn lemma_memmap_count(entry_count: u64)
    ensures
        0 <= memmap_count(entry_count) <= 128,
        entry_count < 128 ==> memmap_count(entry_count) == entry_count,
        128 <= entry_count <= usize::MAX ==> memmap_count(entry_count) == 128,
{
}

} // verus!
