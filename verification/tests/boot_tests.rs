use kernel::bootinfo::{BootInfo, FramebufferInfo, MemRegion, BOOT_MAGIC, MEMMAP_MAX};
use kernel::fb::{Fb, PixelWrite};
use kernel::shim::{
    boot_info, memmap_entries_to_read, FbResponse, HhdmResponse, LimineFramebuffer, LimineHandoff, MemmapEntry,
    MemmapResponse,
};
use kernel::{kernel_main, KernelStart};

fn qemu_fb() -> LimineFramebuffer {
    LimineFramebuffer { address: 0xffff_8000_fd00_0000, width: 1280, height: 800, pitch: 5120, bpp: 32 }
}

fn handoff(all_entries: Vec<MemmapEntry>) -> LimineHandoff {
    let entry_count = all_entries.len() as u64;
    let entries = all_entries[..memmap_entries_to_read(entry_count)].to_vec();
    LimineHandoff {
        base_revision: [0xf9562b2d5c95a6c8, 0x6a7b384944536bdc, 0],
        framebuffer: Some(FbResponse { framebuffer_count: 1, first: Some(qemu_fb()) }),
        hhdm: Some(HhdmResponse { offset: 0xffff_8000_0000_0000 }),
        memmap: Some(MemmapResponse { entry_count, entries }),
    }
}

#[test]
fn memmap_read_is_capped() {
    assert_eq!(memmap_entries_to_read(0), 0);
    assert_eq!(memmap_entries_to_read(5), 5);
    assert_eq!(memmap_entries_to_read(128), 128);
    assert_eq!(memmap_entries_to_read(1000), MEMMAP_MAX);
}

fn zero_region() -> MemRegion {
    MemRegion { base: 0, len: 0, kind: 0, _pad: 0 }
}

#[test]
fn boot_info_fills_record() {
    let entries = vec![
        MemmapEntry { base: 0, length: 0x9f000, kind: 0 },
        MemmapEntry { base: 0x100000, length: 0x7ee0000, kind: 0x1_0000_0005 },
    ];
    let bi = boot_info(&handoff(entries)).expect("usable handoff");
    assert_eq!(bi.magic, BOOT_MAGIC);
    assert_eq!(bi.hhdm_offset, 0xffff_8000_0000_0000);
    assert_eq!(
        bi.fb,
        FramebufferInfo { addr: 0xffff_8000_fd00_0000, width: 1280, height: 800, pitch: 5120, bpp: 32, _pad: [0; 6] }
    );
    assert_eq!(bi.memmap_len, 2);
    assert_eq!(bi.memmap[0], MemRegion { base: 0, len: 0x9f000, kind: 0, _pad: 0 });
    assert_eq!(bi.memmap[1], MemRegion { base: 0x100000, len: 0x7ee0000, kind: 5, _pad: 0 });
    for i in 2..MEMMAP_MAX {
        assert_eq!(bi.memmap[i], zero_region());
    }
}

#[test]
fn boot_info_truncates_memory_map() {
    let entries: Vec<MemmapEntry> =
        (0..200u64).map(|i| MemmapEntry { base: i * 0x1000, length: 0x1000, kind: 1 }).collect();
    let bi = boot_info(&handoff(entries)).expect("usable handoff");
    assert_eq!(bi.memmap_len, MEMMAP_MAX as u64);
    assert_eq!(bi.memmap[127], MemRegion { base: 127 * 0x1000, len: 0x1000, kind: 1, _pad: 0 });
}

#[test]
fn boot_info_empty_memory_map() {
    let bi = boot_info(&handoff(vec![])).expect("usable handoff");
    assert_eq!(bi.memmap_len, 0);
    assert_eq!(bi.memmap[0], zero_region());
}

#[test]
fn boot_info_refuses_unsupported_revision() {
    let mut h = handoff(vec![]);
    h.base_revision[2] = 3;
    assert!(boot_info(&h).is_none());
}

#[test]
fn boot_info_refuses_missing_responses() {
    let mut h = handoff(vec![]);
    h.framebuffer = None;
    assert!(boot_info(&h).is_none());
    let mut h = handoff(vec![]);
    h.hhdm = None;
    assert!(boot_info(&h).is_none());
    let mut h = handoff(vec![]);
    h.memmap = None;
    assert!(boot_info(&h).is_none());
}

#[test]
fn boot_info_refuses_no_framebuffer() {
    let mut h = handoff(vec![]);
    h.framebuffer = Some(FbResponse { framebuffer_count: 0, first: None });
    assert!(boot_info(&h).is_none());
}

#[test]
fn kernel_accepts_what_the_shim_builds() {
    let bi = boot_info(&handoff(vec![])).expect("usable handoff");
    match kernel_main(&bi) {
        KernelStart::Run { handshake, fb: Some(fb) } => {
            assert_eq!(
                handshake,
                b"[scaffold] boot: kernel_main reached\r\n[scaffold] boot: framebuffer handed over\r\n"
                    .to_vec()
            );
            assert_eq!(fb.width, 1280);
            assert_eq!(fb.height, 800);
        }
        _ => panic!("kernel refused the shim's record"),
    }
}

fn record(magic: u64, bpp: u16) -> BootInfo {
    BootInfo {
        magic,
        hhdm_offset: 0,
        fb: FramebufferInfo { addr: 0x1000, width: 4, height: 2, pitch: 16, bpp, _pad: [0; 6] },
        memmap_len: 0,
        memmap: [zero_region(); 128],
    }
}

#[test]
fn kernel_halts_on_bad_magic() {
    assert!(matches!(kernel_main(&record(0, 32)), KernelStart::Halt));
    assert!(matches!(kernel_main(&record(BOOT_MAGIC ^ 1, 32)), KernelStart::Halt));
}

#[test]
fn kernel_runs_without_usable_framebuffer() {
    match kernel_main(&record(BOOT_MAGIC, 24)) {
        KernelStart::Run { handshake, fb: None } => {
            assert_eq!(handshake, b"[scaffold] boot: kernel_main reached\r\n".to_vec());
        }
        _ => panic!("expected a run without framebuffer"),
    }
}

fn info(addr: u64, bpp: u16) -> FramebufferInfo {
    FramebufferInfo { addr, width: 640, height: 480, pitch: 2560 + 64, bpp, _pad: [0; 6] }
}

#[test]
fn fb_new_requires_32bpp_nonnull() {
    assert!(Fb::new(&info(0x1000, 24)).is_none());
    assert!(Fb::new(&info(0, 32)).is_none());
    let fb = Fb::new(&info(0x1000, 32)).expect("32bpp");
    assert_eq!(fb.width, 640);
    assert_eq!(fb.height, 480);
    assert_eq!(fb.width(), 640);
    assert_eq!(fb.height(), 480);
}

#[test]
fn plot_off_screen_on_unaddressable_framebuffer() {
    let huge = FramebufferInfo { addr: u64::MAX - 16, width: 64, height: 64, pitch: 256, bpp: 32, _pad: [0; 6] };
    let fb = Fb::new(&huge).expect("32bpp");
    assert!(!fb.cells_fit());
    assert_eq!(fb.plot(64, 0, 1), None);
    assert_eq!(fb.plot(0, 64, 1), None);
}

#[test]
fn plot_uses_pitch_not_width() {
    let fb = Fb::new(&info(0x1000, 32)).expect("32bpp");
    assert_eq!(fb.plot(0, 0, 0x00ff0000), Some(PixelWrite { addr: 0x1000, color: 0x00ff0000 }));
    assert_eq!(
        fb.plot(3, 2, 0x0000ff00),
        Some(PixelWrite { addr: 0x1000 + 2 * 2624 + 12, color: 0x0000ff00 })
    );
    assert_eq!(
        fb.plot(639, 479, 1),
        Some(PixelWrite { addr: 0x1000 + 479 * 2624 + 639 * 4, color: 1 })
    );
}

#[test]
fn plot_ignores_off_screen() {
    let fb = Fb::new(&info(0x1000, 32)).expect("32bpp");
    assert_eq!(fb.plot(640, 0, 1), None);
    assert_eq!(fb.plot(0, 480, 1), None);
    assert_eq!(fb.plot(usize::MAX, usize::MAX, 1), None);
}

#[test]
fn plot_cells_inside_and_disjoint() {
    let fb = Fb::new(&info(0x1000, 32)).expect("32bpp");
    let mut cells = Vec::new();
    for (x, y) in [(0usize, 0usize), (639, 0), (0, 1), (639, 479), (1, 0)] {
        let w = fb.plot(x, y, 0).unwrap();
        assert!(w.addr >= 0x1000 && w.addr + 4 <= 0x1000 + 480 * 2624);
        cells.push(w.addr);
    }
    for i in 0..cells.len() {
        for j in 0..cells.len() {
            if i != j {
                assert!(cells[i] + 4 <= cells[j] || cells[j] + 4 <= cells[i]);
            }
        }
    }
}
