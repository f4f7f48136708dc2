//! Minimal framebuffer access: which memory cell a pixel lives in.
use vstd::prelude::*;
use crate::bootinfo::FramebufferInfo;

verus! {

/// Byte offset of pixel (x, y) from the framebuffer base: rows may carry
/// padding, so the row stride is `pitch` bytes, and each pixel is 4 bytes.
pub open spec fn pixel_offset(x: int, y: int, pitch: int) -> int {
    y * pitch + x * 4
}

/// Every pixel cell of a `width` x `height` framebuffer at `addr` with row
/// stride `pitch` has an address that fits the machine.
pub open spec fn cells_addressable(addr: int, width: int, height: int, pitch: int) -> bool {
    width == 0 || height == 0 || {
        let last = pixel_offset(width - 1, height - 1, pitch) + 3;
        &&& last <= usize::MAX
        &&& addr + last <= u64::MAX
    }
}

/// The scaffold drives only 32bpp modes at a non-null address.
pub open spec fn usable_framebuffer(info: &FramebufferInfo) -> bool {
    info.bpp == 32 && info.addr != 0
}

/// One 32-bit pixel store to perform.
#[derive(Clone, Copy, Debug, PartialEq, Eq)]
pub struct PixelWrite {
    /// Address of the 4-byte cell.
    pub addr: u64,
    /// 0x00RRGGBB.
    pub color: u32,
}

/// A 32bpp framebuffer handed over by the bootloader.
pub struct Fb {
    addr: u64,
    pub width: usize,
    pub height: usize,
    pitch: usize,
}

impl Fb {
    /// Address of the first byte of the framebuffer.
    pub closed spec fn base(&self) -> u64 {
        self.addr
    }

    /// Bytes per row.
    pub closed spec fn row_bytes(&self) -> usize {
        self.pitch
    }

    /// Pixels per row.
    pub closed spec fn cols(&self) -> usize {
        self.width
    }

    /// Number of rows.
    pub closed spec fn rows(&self) -> usize {
        self.height
    }

    /// This framebuffer is the one `info` describes.
    pub open spec fn describes(&self, info: &FramebufferInfo) -> bool {
        &&& self.base() == info.addr
        &&& self.cols() == info.width as usize
        &&& self.rows() == info.height as usize
        &&& self.row_bytes() == info.pitch as usize
    }

    /// Every pixel cell of this framebuffer has a representable address.
    pub open spec fn addressable(&self) -> bool {
        cells_addressable(
            self.base() as int,
            self.cols() as int,
            self.rows() as int,
            self.row_bytes() as int,
        )
    }

    /// The framebuffer described by `info`, or `None` unless it is a 32bpp
    /// mode at a non-null address.
    pub fn new(info: &FramebufferInfo) -> (r: Option<Fb>)
        ensures
            r is Some <==> usable_framebuffer(info),
            r is Some <==> (info.bpp == 32 && info.addr != 0),
            r matches Some(fb) ==> fb.describes(info),
            r matches Some(fb) ==> {
                &&& fb.base() == info.addr
                &&& fb.cols() == info.width as usize
                &&& fb.rows() == info.height as usize
                &&& fb.row_bytes() == info.pitch as usize
            },
    {
        if info.bpp != 32 || info.addr == 0 {
            return None;
        }
        Some(
            Fb {
                addr: info.addr,
                width: info.width as usize,
                height: info.height as usize,
                pitch: info.pitch as usize,
            },
        )
    }

    /// Pixels per row.
    pub fn width(&self) -> (w: usize)
        ensures
            w == self.cols(),
    {
        self.width
    }

    /// Number of rows.
    pub fn height(&self) -> (h: usize)
        ensures
            h == self.rows(),
    {
        self.height
    }

    /// Whether every pixel cell of this framebuffer has a representable
    /// address, which `plot` needs.
    pub fn cells_fit(&self) -> (b: bool)
        ensures
            b == self.addressable(),
            b <==> (self.cols() == 0 || self.rows() == 0 || {
                let last = (self.rows() - 1) * self.row_bytes() + (self.cols() - 1) * 4 + 3;
                &&& last <= usize::MAX
                &&& self.base() + last <= u64::MAX
            }),
    {
        if self.width == 0 || self.height == 0 {
            return true;
        }
        let rows_before = match (self.height - 1).checked_mul(self.pitch) {
            Some(v) => v,
            None => return false,
        };
        let cols_before = match (self.width - 1).checked_mul(4) {
            Some(v) => v,
            None => return false,
        };
        let last = match rows_before.checked_add(cols_before) {
            Some(v) => v,
            None => return false,
        };
        let last = match last.checked_add(3) {
            Some(v) => v,
            None => return false,
        };
        (last as u64).checked_add(self.addr).is_some()
    }

    /// Write one pixel, 0x00RRGGBB: the store to perform, or `None` when
    /// (x, y) lies outside the screen.
    pub fn plot(&self, x: usize, y: usize, color: u32) -> (w: Option<PixelWrite>)
        requires
            x < self.cols() && y < self.rows() ==> self.addressable(),
        ensures
            w is Some <==> (x < self.cols() && y < self.rows()),
            w matches Some(p) ==> {
                &&& p.addr == self.base() + pixel_offset(x as int, y as int, self.row_bytes() as int)
                &&& p.addr == self.base() + y * self.row_bytes() + x * 4
                &&& p.color == color
            },
    {
        if x >= self.width || y >= self.height {
            return None;
        }
        let ghost w = self.width as int;
        let ghost h = self.height as int;
        let ghost p = self.pitch as int;
        assert(0 <= y * p <= (h - 1) * p) by (nonlinear_arith)
            requires
                0 <= y < h,
                0 <= p,
        ;
        assert(x * 4 <= (w - 1) * 4);
        let offset = y * self.pitch + x * 4;
        Some(PixelWrite { addr: self.addr + offset as u64, color })
    }
}

/// On a framebuffer whose rows hold at least `width` pixels, every on-screen
/// pixel's cell lies inside the `height * pitch` bytes of the framebuffer.
pub proof fn lemma_pixel_inside(x: int, y: int, width: int, height: int, pitch: int)
    requires
        0 <= x < width,
        0 <= y < height,
        width * 4 <= pitch,
    ensures
        0 <= pixel_offset(x, y, pitch),
        pixel_offset(x, y, pitch) + 4 <= height * pitch,
{
    assert(0 <= y * pitch) by (nonlinear_arith)
        requires
            0 <= y,
            0 <= width * 4 <= pitch,
            0 <= x,
    ;
    assert((y + 1) * pitch <= height * pitch) by (nonlinear_arith)
        requires
            y + 1 <= height,
            0 <= pitch,
    ;
    assert((y + 1) * pitch == y * pitch + pitch) by (nonlinear_arith);
}

/// On such a framebuffer, two different on-screen pixels never share a byte.
pub proof fn lemma_pixels_disjoint(
    x1: int,
    y1: int,
    x2: int,
    y2: int,
    width: int,
    height: int,
    pitch: int,
)
    requires
        0 <= x1 < width,
        0 <= y1 < height,
        0 <= x2 < width,
        0 <= y2 < height,
        width * 4 <= pitch,
        x1 != x2 || y1 != y2,
    ensures
        pixel_offset(x1, y1, pitch) + 4 <= pixel_offset(x2, y2, pitch) || pixel_offset(
            x2,
            y2,
            pitch,
        ) + 4 <= pixel_offset(x1, y1, pitch),
{
    if y1 == y2 {
    } else if y1 < y2 {
        assert(y1 * pitch + pitch <= y2 * pitch) by (nonlinear_arith)
            requires
                y1 + 1 <= y2,
                0 <= pitch,
        ;
    } else {
        assert(y2 * pitch + pitch <= y1 * pitch) by (nonlinear_arith)
            requires
                y2 + 1 <= y1,
                0 <= pitch,
        ;
    }
}

/// Pixel addressing: pixel (0, 0) is at the base, the next pixel in a row is
/// 4 bytes on, and the same pixel one row down is `pitch` bytes on.
pub proof fn lemma_pixel_steps(x: int, y: int, pitch: int)
    ensures
        pixel_offset(0, 0, pitch) == 0,
        pixel_offset(x + 1, y, pitch) == pixel_offset(x, y, pitch) + 4,
        pixel_offset(x, y + 1, pitch) == pixel_offset(x, y, pitch) + pitch,
{
    assert((y + 1) * pitch == y * pitch + pitch) by (nonlinear_arith);
}

/// A framebuffer is addressable exactly when its last pixel cell ends within
/// the machine's address range (and its offset within `usize`): every mapped
/// framebuffer, higher-half ones included, qualifies.
pub proof fn lemma_addressable_exact(addr: int, width: int, height: int, pitch: int)
    requires
        0 <= addr,
        0 <= width,
        0 <= height,
        0 <= pitch,
    ensures
        cells_addressable(addr, width, height, pitch) <==> (width == 0 || height == 0 || {
            let last = (height - 1) * pitch + (width - 1) * 4 + 3;
            &&& last <= usize::MAX
            &&& addr + last <= 0xffff_ffff_ffff_ffff
        }),
        cells_addressable(addr, width, height, pitch) ==> forall|x: int, y: int|
            0 <= x < width && 0 <= y < height ==> {
                &&& #[trigger] pixel_offset(x, y, pitch) + 3 <= usize::MAX
                &&& addr + pixel_offset(x, y, pitch) + 3 <= 0xffff_ffff_ffff_ffff
            },
{
    assert forall|x: int, y: int| 0 <= x < width && 0 <= y < height implies (#[trigger] pixel_offset(
        x,
        y,
        pitch,
    )) + 3 <= (height - 1) * pitch + (width - 1) * 4 + 3 by {
        assert(y * pitch <= (height - 1) * pitch) by (nonlinear_arith)
            requires
                0 <= y <= height - 1,
                0 <= pitch,
        ;
    }
}

} // verus!
