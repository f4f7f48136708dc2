//! The platform-independent core of a small x86-64 teaching kernel: the
//! bootloader-to-kernel handoff record, framebuffer addressing, the 16550
//! serial protocol, the boot handshake and the KTAP test cockpit.
//!
//! Everything here computes; the port and memory accesses that act on the
//! results are performed by the caller.
pub mod exit;
pub mod serial;
pub mod bootinfo;
pub mod shim;
pub mod fb;
pub mod handshake;
pub mod ktap;

use vstd::prelude::*;
use crate::bootinfo::{BootInfo, BOOT_MAGIC, MEMMAP_MAX};
use vstd::string::StringSliceAdditionalSpecFns;
use crate::fb::{Fb, usable_framebuffer};
use crate::handshake::line;
use crate::shim::{LimineHandoff, boot_info_of, framebuffer_info};

verus! {

/// How the kernel proceeds from the handoff it was entered with.
pub enum KernelStart {
    /// The handoff carries no valid magic: halt without trusting it.
    Halt,
    /// The handoff is trusted: send the handshake bytes on COM1, then, with a
    /// framebuffer, hand it to the drawing code.
    Run { handshake: Vec<u8>, fb: Option<Fb> },
}

/// The handshake line that proves the kernel came up at all.
pub open spec fn reached_line() -> Seq<u8> {
    "[scaffold] boot: kernel_main reached".spec_bytes() + seq![13u8, 10u8]
}

/// The handshake line that proves the framebuffer handoff checked out.
pub open spec fn framebuffer_line() -> Seq<u8> {
    "[scaffold] boot: framebuffer handed over".spec_bytes() + seq![13u8, 10u8]
}

/// The boot handshake: the first line always, the second only when the
/// framebuffer handoff checks out.
pub open spec fn boot_handshake(fb_usable: bool) -> Seq<u8> {
    if fb_usable {
        reached_line() + framebuffer_line()
    } else {
        reached_line()
    }
}

/// The kernel trusts a handoff record only when it carries the magic.
pub open spec fn kernel_accepts(bi: &BootInfo) -> bool {
    bi.magic == BOOT_MAGIC
}

/// The kernel's entry decision for the BootInfo `bi` it was entered with.
pub fn kernel_main(bi: &BootInfo) -> (start: KernelStart)
    ensures
        start is Halt <==> !kernel_accepts(bi),
        start is Halt <==> bi.magic != BOOT_MAGIC,
        start matches KernelStart::Run { handshake, fb } ==> {
            &&& handshake@ == boot_handshake(usable_framebuffer(&bi.fb))
            &&& (fb is Some <==> usable_framebuffer(&bi.fb))
            &&& fb matches Some(f) ==> f.describes(&bi.fb)
        },
{
    if bi.magic != BOOT_MAGIC {
        return KernelStart::Halt;
    }
    let mut handshake = line("[scaffold] boot: kernel_main reached");
    let fb = Fb::new(&bi.fb);
    if fb.is_some() {
        let mut second = line("[scaffold] boot: framebuffer handed over");
        handshake.append(&mut second);
    }
    KernelStart::Run { handshake, fb }
}

/// Whatever the shim builds from a usable Limine handoff, the kernel accepts:
/// it carries the magic, a memory map count within capacity, and a
/// framebuffer exactly when the loader's first framebuffer is a usable one.
pub proof fn lemma_shim_output_accepted(h: &LimineHandoff, bi: BootInfo)
    requires
        boot_info_of(h, bi),
    ensures
        kernel_accepts(&bi),
        bi.memmap_len <= MEMMAP_MAX,
        usable_framebuffer(&bi.fb) <==> usable_framebuffer(
            &framebuffer_info(h.framebuffer->0.first->0),
        ),
{
}

/// The kernel trusts exactly one magic value, "SB" + boot + version 2:
/// every other value, other versions of the same record included, is refused.
pub proof fn lemma_accepts_only_boot_magic(bi: &BootInfo)
    ensures
        kernel_accepts(bi) <==> bi.magic == 0x5B00_7B00_7000_0002u64,
        bi.magic == 0x5B00_7B00_7000_0001u64 ==> !kernel_accepts(bi),
{
}

} // verus!
