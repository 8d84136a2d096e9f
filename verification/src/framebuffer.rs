//! Pixel surface: framebuffer descriptors and verified pixel writes.
//!
//! A framebuffer is described by its base address, its dimensions in
//! pixels, and its pitch (bytes per row, at least four bytes per pixel
//! since every pixel is a packed 32-bit color). The surface models the
//! mapped memory region as a byte buffer and proves exactly which bytes
//! each drawing call touches.

use vstd::prelude::*;
use vstd::pervasive::VecAdditionalExecFns;

verus! {

/// A 32-bit packed pixel value. The byte order within the framebuffer
/// is the little-endian order of this value, a boundary contract with
/// the assumed 4-byte-per-pixel framebuffer format.
pub type Color = u32;

/// Description of a framebuffer offered by the boot loader: base address
/// of the mapped region, dimensions in pixels, and row pitch in bytes.
/// The pitch may exceed `width * 4` because rows may carry padding.
#[derive(Clone, Copy, PartialEq, Eq, Structural)]
pub struct FramebufferDescriptor {
    pub base: usize,
    pub width: usize,
    pub height: usize,
    pub pitch: usize,
}

impl FramebufferDescriptor {
    /// Validity of a descriptor: each row holds all of its pixels, and the
    /// whole region fits in the address space.
    pub open spec fn wf(self) -> bool {
        &&& self.pitch >= self.width * 4
        &&& self.height * self.pitch <= usize::MAX
    }
}

/// Byte offset of pixel (x, y) from the framebuffer base.
pub open spec fn pixel_offset(fb: FramebufferDescriptor, x: int, y: int) -> int {
    y * fb.pitch + x * 4
}

/// Byte `k` (little-endian) of a packed 32-bit color value.
pub open spec fn color_byte(color: Color, k: int) -> u8 {
    if k == 0 {
        (color & 0xff) as u8
    } else if k == 1 {
        ((color >> 8) & 0xff) as u8
    } else if k == 2 {
        ((color >> 16) & 0xff) as u8
    } else {
        ((color >> 24) & 0xff) as u8
    }
}

/// The four bytes of a pixel lie inside the framebuffer region.
pub proof fn lemma_offset_in_bounds(fb: FramebufferDescriptor, x: int, y: int)
    requires
        fb.wf(),
        0 <= x < fb.width,
        0 <= y < fb.height,
    ensures
        0 <= pixel_offset(fb, x, y),
        pixel_offset(fb, x, y) + 4 <= fb.height * fb.pitch,
{
    assert(x * 4 + 4 <= fb.width * 4) by (nonlinear_arith)
        requires 0 <= x && x < fb.width;
    assert(0 <= y * fb.pitch && y * fb.pitch + fb.pitch <= fb.height * fb.pitch) by (nonlinear_arith)
        requires 0 <= y && y < fb.height && fb.pitch >= 0;
}

/// Distinct pixels occupy disjoint four-byte ranges.
pub proof fn lemma_offsets_disjoint(fb: FramebufferDescriptor, x1: int, y1: int, x2: int, y2: int)
    requires
        fb.wf(),
        0 <= x1 < fb.width,
        0 <= y1 < fb.height,
        0 <= x2 < fb.width,
        0 <= y2 < fb.height,
        x1 != x2 || y1 != y2,
    ensures
        pixel_offset(fb, x1, y1) + 4 <= pixel_offset(fb, x2, y2)
            || pixel_offset(fb, x2, y2) + 4 <= pixel_offset(fb, x1, y1),
{
    if y1 == y2 {
        assert(x1 * 4 + 4 <= x2 * 4 || x2 * 4 + 4 <= x1 * 4) by (nonlinear_arith)
            requires x1 != x2;
    } else if y1 < y2 {
        assert(x1 * 4 + 4 <= fb.width * 4) by (nonlinear_arith)
            requires 0 <= x1 && x1 < fb.width;
        assert(y1 * fb.pitch + fb.pitch <= y2 * fb.pitch) by (nonlinear_arith)
            requires y1 < y2 && fb.pitch >= 0;
        assert(0 <= x2 * 4) by (nonlinear_arith)
            requires 0 <= x2;
    } else {
        assert(x2 * 4 + 4 <= fb.width * 4) by (nonlinear_arith)
            requires 0 <= x2 && x2 < fb.width;
        assert(y2 * fb.pitch + fb.pitch <= y1 * fb.pitch) by (nonlinear_arith)
            requires y2 < y1 && fb.pitch >= 0;
        assert(0 <= x1 * 4) by (nonlinear_arith)
            requires 0 <= x1;
    }
}

/// Does byte offset `i` fall on one of the pixels of the axis-aligned
/// rectangle with corner (x0, y0), width `w` and height `h`?
pub open spec fn rect_covers(
    fb: FramebufferDescriptor,
    x0: int,
    y0: int,
    w: int,
    h: int,
    i: int,
) -> bool {
    exists|x: int, y: int|
        x0 <= x < x0 + w && y0 <= y < y0 + h && #[trigger] pixel_offset(fb, x, y) <= i
            < pixel_offset(fb, x, y) + 4
}

/// The display surface: a framebuffer descriptor together with a model of
/// the bytes of the mapped region. Drawing calls say exactly which bytes
/// they write; the offsets are the ones a memory-mapped write would use.
pub struct Surface {
    pub desc: FramebufferDescriptor,
    pub bytes: Vec<u8>,
}

impl Surface {
    /// A surface is well formed when its descriptor is and its byte model
    /// spans the whole region.
    pub open spec fn wf(self) -> bool {
        &&& self.desc.wf()
        &&& self.bytes@.len() == self.desc.height * self.desc.pitch
    }

    /// Fresh surface over a valid descriptor, with every byte zero.
    pub fn new(desc: FramebufferDescriptor) -> (s: Surface)
        requires
            desc.wf(),
        ensures
            s.wf(),
            s.desc == desc,
            s.bytes@ =~= Seq::new((desc.height * desc.pitch) as nat, |i: int| 0u8),
    {
        proof {
            assert(desc.height * desc.pitch >= 0) by (nonlinear_arith);
        }
        let len = desc.height * desc.pitch;
        let mut bytes: Vec<u8> = Vec::new();
        let mut i: usize = 0;
        while i < len
            invariant
                i <= len,
                bytes@.len() == i,
                forall|j: int| 0 <= j < i ==> bytes@[j] == 0u8,
            decreases len - i,
        {
            bytes.push(0u8);
            i = i + 1;
        }
        Surface { desc, bytes }
    }

    /// Write the 32-bit color of pixel (x, y): exactly the four bytes at
    /// offset `y * pitch + x * 4` change, and they take the little-endian
    /// bytes of `color`; every other byte of the region is untouched.
    pub fn draw_pixel(&mut self, x: usize, y: usize, color: Color)
        requires
            old(self).wf(),
            x < old(self).desc.width,
            y < old(self).desc.height,
        ensures
            final(self).wf(),
            final(self).desc == old(self).desc,
            final(self).bytes@.len() == old(self).bytes@.len(),
            forall|k: int|
                0 <= k < 4 ==> final(self).bytes@[pixel_offset(old(self).desc, x as int, y as int)
                    + k] == color_byte(color, k),
            forall|i: int|
                0 <= i < old(self).bytes@.len() && !(pixel_offset(
                    old(self).desc,
                    x as int,
                    y as int,
                ) <= i < pixel_offset(old(self).desc, x as int, y as int) + 4)
                    ==> final(self).bytes@[i] == old(self).bytes@[i],
    {
        proof {
            lemma_offset_in_bounds(self.desc, x as int, y as int);
            assert(y * self.desc.pitch == (y as int) * (self.desc.pitch as int))
                by (nonlinear_arith);
        }
        let off = y * self.desc.pitch + x * 4;
        self.bytes.set(off, (color & 0xff) as u8);
        self.bytes.set(off + 1, ((color >> 8) & 0xff) as u8);
        self.bytes.set(off + 2, ((color >> 16) & 0xff) as u8);
        self.bytes.set(off + 3, ((color >> 24) & 0xff) as u8);
    }

    /// Fill an axis-aligned rectangle: every pixel inside it takes `color`,
    /// and no byte outside the rectangle's pixel ranges changes.
    pub fn draw_rect(&mut self, x0: usize, y0: usize, w: usize, h: usize, color: Color)
        requires
            old(self).wf(),
            x0 + w <= old(self).desc.width,
            y0 + h <= old(self).desc.height,
        ensures
            final(self).wf(),
            final(self).desc == old(self).desc,
            final(self).bytes@.len() == old(self).bytes@.len(),
            forall|x: int, y: int, k: int|
                x0 <= x < x0 + w && y0 <= y < y0 + h && 0 <= k < 4
                    ==> final(self).bytes@[pixel_offset(old(self).desc, x, y) + k] == color_byte(
                    color,
                    k,
                ),
            forall|i: int|
                0 <= i < old(self).bytes@.len() && !rect_covers(
                    old(self).desc,
                    x0 as int,
                    y0 as int,
                    w as int,
                    h as int,
                    i,
                ) ==> final(self).bytes@[i] == old(self).bytes@[i],
    {
        let ghost orig = *self;
        let mut y: usize = y0;
        while y < y0 + h
            invariant
                orig.wf(),
                self.wf(),
                self.desc == orig.desc,
                self.bytes@.len() == orig.bytes@.len(),
                y0 <= y <= y0 + h,
                x0 + w <= orig.desc.width,
                y0 + h <= orig.desc.height,
                forall|px: int, py: int, k: int|
                    x0 <= px < x0 + w && y0 <= py < y && 0 <= k < 4 ==> self.bytes@[pixel_offset(
                        orig.desc,
                        px,
                        py,
                    ) + k] == color_byte(color, k),
                forall|i: int|
                    0 <= i < orig.bytes@.len() && !rect_covers(
                        orig.desc,
                        x0 as int,
                        y0 as int,
                        w as int,
                        h as int,
                        i,
                    ) ==> self.bytes@[i] == orig.bytes@[i],
            decreases y0 + h - y,
        {
            let mut x: usize = x0;
            while x < x0 + w
                invariant
                    orig.wf(),
                    self.wf(),
                    self.desc == orig.desc,
                    self.bytes@.len() == orig.bytes@.len(),
                    x0 <= x <= x0 + w,
                    y0 <= y < y0 + h,
                    x0 + w <= orig.desc.width,
                    y0 + h <= orig.desc.height,
                    forall|px: int, py: int, k: int|
                        x0 <= px < x0 + w && y0 <= py < y && 0 <= k < 4 ==> self.bytes@[pixel_offset(
                            orig.desc,
                            px,
                            py,
                        ) + k] == color_byte(color, k),
                    forall|px: int, k: int|
                        x0 <= px < x && 0 <= k < 4 ==> self.bytes@[pixel_offset(
                            orig.desc,
                            px,
                            y as int,
                        ) + k] == color_byte(color, k),
                    forall|i: int|
                        0 <= i < orig.bytes@.len() && !rect_covers(
                            orig.desc,
                            x0 as int,
                            y0 as int,
                            w as int,
                            h as int,
                            i,
                        ) ==> self.bytes@[i] == orig.bytes@[i],
                decreases x0 + w - x,
            {
                let ghost before = *self;
                self.draw_pixel(x, y, color);
                proof {
                    assert forall|px: int, py: int, k: int|
                        x0 <= px < x0 + w && y0 <= py < y && 0 <= k < 4 implies self.bytes@[pixel_offset(
                        orig.desc,
                        px,
                        py,
                    ) + k] == color_byte(color, k) by {
                        lemma_offsets_disjoint(orig.desc, px, py, x as int, y as int);
                        lemma_offset_in_bounds(orig.desc, px, py);
                    }
                    assert forall|px: int, k: int|
                        x0 <= px < x && 0 <= k < 4 implies self.bytes@[pixel_offset(
                        orig.desc,
                        px,
                        y as int,
                    ) + k] == color_byte(color, k) by {
                        lemma_offsets_disjoint(orig.desc, px, y as int, x as int, y as int);
                        lemma_offset_in_bounds(orig.desc, px, y as int);
                    }
                    assert forall|i: int|
                        0 <= i < orig.bytes@.len() && !rect_covers(
                            orig.desc,
                            x0 as int,
                            y0 as int,
                            w as int,
                            h as int,
                            i,
                        ) implies self.bytes@[i] == orig.bytes@[i] by {
                        if pixel_offset(orig.desc, x as int, y as int) <= i < pixel_offset(
                            orig.desc,
                            x as int,
                            y as int,
                        ) + 4 {
                            assert(rect_covers(
                                orig.desc,
                                x0 as int,
                                y0 as int,
                                w as int,
                                h as int,
                                i,
                            ));
                        }
                    }
                }
                x = x + 1;
            }
            y = y + 1;
        }
    }
}

} // verus!
