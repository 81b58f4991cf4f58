//! The rasterizer: clears a row-major packed-RGB pixel buffer, paints each
//! particle as a filled axis-aligned square at its truncated pixel
//! position, and overlays grayscale glyph coverage. Writes that would fall
//! outside the buffer are silently skipped.

use vstd::prelude::*;
use crate::fixedmath::SCALE;
use crate::particle::Particle;
use crate::config::MAX_PARTICLE_SIZE;

verus! {

/// Upper bound accepted for either buffer dimension, in pixels.
pub const MAX_BUFFER_DIM: usize = 100_000;

/// The pixel of the row-major buffer `buf` at column `x`, row `y`.
pub open spec fn cell(buf: Seq<u32>, w: int, x: int, y: int) -> u32 {
    buf[y * w + x]
}

/// The pixel column (or row) of a milli-pixel coordinate: truncated
/// toward zero, with negative coordinates saturating to zero.
pub open spec fn pixel_coord(c: int) -> int {
    if c <= 0 {
        0
    } else {
        c / (SCALE as int)
    }
}

/// The square of side `size` with top-left corner at `p`'s truncated
/// pixel position covers the pixel `(x, y)`.
pub open spec fn covers(p: Particle, size: int, x: int, y: int) -> bool {
    let px = pixel_coord(p.x as int);
    let py = pixel_coord(p.y as int);
    &&& px <= x < px + size
    &&& py <= y < py + size
}

/// The part of `p`'s square already painted after `rows` full rows and
/// `cols` cells of the next row.
pub open spec fn part_covered(p: Particle, size: int, x: int, y: int, rows: int, cols: int) -> bool {
    let px = pixel_coord(p.x as int);
    let py = pixel_coord(p.y as int);
    ||| (px <= x < px + size && py <= y < py + rows)
    ||| (px <= x < px + cols && y == py + rows)
}

/// The color the rasterizer leaves at `(x, y)` after painting `ps` in
/// order over a buffer whose pixel there held `base`: the color of the
/// last particle covering `(x, y)`, or `base` if none does.
pub open spec fn raster_color(ps: Seq<Particle>, size: int, x: int, y: int, base: u32) -> u32
    decreases ps.len(),
{
    if ps.len() == 0 {
        base
    } else if covers(ps.last(), size, x, y) {
        ps.last().color
    } else {
        raster_color(ps.drop_last(), size, x, y, base)
    }
}

pub proof fn lemma_cell_index_bound(w: int, h: int, x: int, y: int)
    requires
        0 <= x < w,
        0 <= y < h,
    ensures
        0 <= y * w + x < w * h,
{
    assert(0 <= y * w + x < w * h) by (nonlinear_arith)
        requires
            0 <= x < w,
            0 <= y < h,
    ;
}

pub proof fn lemma_cell_index_injective(w: int, x1: int, y1: int, x2: int, y2: int)
    requires
        0 <= x1 < w,
        0 <= x2 < w,
        0 <= y1,
        0 <= y2,
        y1 * w + x1 == y2 * w + x2,
    ensures
        x1 == x2,
        y1 == y2,
{
    assert(x1 == x2 && y1 == y2) by (nonlinear_arith)
        requires
            0 <= x1 < w,
            0 <= x2 < w,
            0 <= y1,
            0 <= y2,
            y1 * w + x1 == y2 * w + x2,
    ;
}

/// One glyph coverage sample: a pixel position and a grayscale intensity
/// in `0..=255`.
#[derive(Clone, Copy, PartialEq, Eq, Structural)]
pub struct GlyphPixel {
    pub x: usize,
    pub y: usize,
    pub intensity: u32,
}

/// The packed RGB gray of intensity `i`: the same value in all three
/// channels.
pub open spec fn gray(i: u32) -> u32 {
    (i << 16u32) | (i << 8u32) | i
}

/// The color left at `(x, y)` after composing the glyph samples `pts` in
/// order over a pixel holding `base`: the gray of the last sample landing
/// there, or `base` if none does.
pub open spec fn overlay_color(pts: Seq<GlyphPixel>, x: int, y: int, base: u32) -> u32
    decreases pts.len(),
{
    if pts.len() == 0 {
        base
    } else if pts.last().x == x && pts.last().y == y {
        gray(pts.last().intensity)
    } else {
        overlay_color(pts.drop_last(), x, y, base)
    }
}

/// A row-major buffer of packed 24-bit RGB pixels.
pub struct FrameBuffer {
    pub pixels: Vec<u32>,
    pub width: usize,
    pub height: usize,
}

impl FrameBuffer {
    /// The buffer holds exactly one pixel per cell of a bounded grid.
    pub open spec fn wf(self) -> bool {
        &&& self.pixels@.len() == self.width * self.height
        &&& 1 <= self.width <= MAX_BUFFER_DIM
        &&& 1 <= self.height <= MAX_BUFFER_DIM
    }

    /// A buffer of the given dimensions, all pixels black.
    pub fn new(width: usize, height: usize) -> (b: FrameBuffer)
        requires
            1 <= width <= MAX_BUFFER_DIM,
            1 <= height <= MAX_BUFFER_DIM,
            width * height <= usize::MAX,
        ensures
            b.wf(),
            b.width == width,
            b.height == height,
            forall|i: int| 0 <= i < b.pixels@.len() ==> b.pixels@[i] == 0u32,
    {
        let n: usize = width * height;
        let mut pixels: Vec<u32> = Vec::new();
        let mut k: usize = 0;
        while k < n
            invariant
                k <= n,
                pixels@.len() == k,
                forall|i: int| 0 <= i < k ==> pixels@[i] == 0u32,
            decreases n - k,
        {
            pixels.push(0u32);
            k += 1;
        }
        FrameBuffer { pixels, width, height }
    }

    /// The pixel at column `x`, row `y`.
    pub fn pixel_at(&self, x: usize, y: usize) -> (c: u32)
        requires
            self.wf(),
            x < self.width,
            y < self.height,
        ensures
            c == cell(self.pixels@, self.width as int, x as int, y as int),
    {
        let n: usize = self.pixels.len();
        proof {
            lemma_cell_index_bound(self.width as int, self.height as int, x as int, y as int);
        }
        self.pixels[y * self.width + x]
    }

    /// Overwrite every pixel with `color`.
    pub fn clear(&mut self, color: u32)
        requires
            old(self).wf(),
        ensures
            final(self).wf(),
            final(self).width == old(self).width,
            final(self).height == old(self).height,
            final(self).pixels@.len() == old(self).pixels@.len(),
            forall|i: int| 0 <= i < final(self).pixels@.len()
                ==> final(self).pixels@[i] == color,
    {
        let n: usize = self.pixels.len();
        let mut k: usize = 0;
        while k < n
            invariant
                k <= n,
                n == self.pixels@.len(),
                self.width == old(self).width,
                self.height == old(self).height,
                forall|i: int| 0 <= i < k ==> self.pixels@[i] == color,
            decreases n - k,
        {
            self.pixels[k] = color;
            k += 1;
        }
    }

    /// Paint `p`'s square with its color; pixels outside the buffer are
    /// skipped.
    pub fn draw_particle(&mut self, p: &Particle, size: usize)
        requires
            old(self).wf(),
            p.wf(),
            1 <= size <= MAX_PARTICLE_SIZE,
        ensures
            final(self).wf(),
            final(self).width == old(self).width,
            final(self).height == old(self).height,
            final(self).pixels@.len() == old(self).pixels@.len(),
            forall|x: int, y: int|
                0 <= x < old(self).width && 0 <= y < old(self).height ==> #[trigger] cell(
                    final(self).pixels@, old(self).width as int, x, y)
                    == if covers(*p, size as int, x, y) {
                        p.color
                    } else {
                        cell(old(self).pixels@, old(self).width as int, x, y)
                    },
    {
        let w: usize = self.width;
        let h: usize = self.height;
        let px: usize = if p.x <= 0 {
            0
        } else {
            ((p.x as u64) / (SCALE as u64)) as usize
        };
        let py: usize = if p.y <= 0 {
            0
        } else {
            ((p.y as u64) / (SCALE as u64)) as usize
        };
        proof {
            if p.x > 0 {
                vstd::arithmetic::div_mod::lemma_div_is_ordered(p.x as int, 1_000_000_000, 1000);
            }
            if p.y > 0 {
                vstd::arithmetic::div_mod::lemma_div_is_ordered(p.y as int, 1_000_000_000, 1000);
            }
            assert(px as int == pixel_coord(p.x as int));
            assert(py as int == pixel_coord(p.y as int));
            assert(px <= 1_000_000 && py <= 1_000_000);
        }
        let ghost base = self.pixels@;
        let mut dy: usize = 0;
        while dy < size
            invariant
                dy <= size,
                1 <= size <= MAX_PARTICLE_SIZE,
                self.wf(),
                self.width == w,
                self.height == h,
                self.pixels@.len() == base.len(),
                px as int == pixel_coord(p.x as int),
                py as int == pixel_coord(p.y as int),
                px <= 1_000_000,
                py <= 1_000_000,
                forall|x: int, y: int|
                    0 <= x < w && 0 <= y < h ==> #[trigger] cell(self.pixels@, w as int, x, y)
                        == if part_covered(*p, size as int, x, y, dy as int, 0) {
                            p.color
                        } else {
                            cell(base, w as int, x, y)
                        },
            decreases size - dy,
        {
            let mut dx: usize = 0;
            while dx < size
                invariant
                    dx <= size,
                    dy < size,
                    1 <= size <= MAX_PARTICLE_SIZE,
                    self.wf(),
                    self.width == w,
                    self.height == h,
                    self.pixels@.len() == base.len(),
                    px as int == pixel_coord(p.x as int),
                    py as int == pixel_coord(p.y as int),
                    px <= 1_000_000,
                    py <= 1_000_000,
                    forall|x: int, y: int|
                        0 <= x < w && 0 <= y < h ==> #[trigger] cell(self.pixels@, w as int, x, y)
                            == if part_covered(*p, size as int, x, y, dy as int, dx as int) {
                                p.color
                            } else {
                                cell(base, w as int, x, y)
                            },
                decreases size - dx,
            {
                let x0: usize = px + dx;
                let y0: usize = py + dy;
                if x0 < w && y0 < h {
                    let n: usize = self.pixels.len();
                    proof {
                        lemma_cell_index_bound(w as int, h as int, x0 as int, y0 as int);
                    }
                    let ghost before = self.pixels@;
                    let idx: usize = y0 * w + x0;
                    self.pixels[idx] = p.color;
                    proof {
                        assert forall|x: int, y: int| 0 <= x < w && 0 <= y < h implies
                            #[trigger] cell(self.pixels@, w as int, x, y)
                                == if part_covered(*p, size as int, x, y, dy as int, dx as int + 1) {
                                    p.color
                                } else {
                                    cell(base, w as int, x, y)
                                } by {
                            lemma_cell_index_bound(w as int, h as int, x, y);
                            assert(cell(before, w as int, x, y) == (if part_covered(
                                *p, size as int, x, y, dy as int, dx as int) {
                                p.color
                            } else {
                                cell(base, w as int, x, y)
                            }));
                            if y * (w as int) + x == idx as int {
                                lemma_cell_index_injective(w as int, x, y, x0 as int, y0 as int);
                            } else {
                                assert(cell(self.pixels@, w as int, x, y)
                                    == cell(before, w as int, x, y));
                            }
                        }
                    }
                } else {
                    proof {
                        assert forall|x: int, y: int| 0 <= x < w && 0 <= y < h implies
                            #[trigger] cell(self.pixels@, w as int, x, y)
                                == if part_covered(*p, size as int, x, y, dy as int, dx as int + 1) {
                                    p.color
                                } else {
                                    cell(base, w as int, x, y)
                                } by {
                            lemma_cell_index_bound(w as int, h as int, x, y);
                        }
                    }
                }
                dx += 1;
            }
            dy += 1;
        }
    }

    /// Paint every particle of `ps`, in index order, each as a filled
    /// square of side `size`.
    pub fn draw_all(&mut self, ps: &Vec<Particle>, size: usize)
        requires
            old(self).wf(),
            forall|k: int| 0 <= k < ps@.len() ==> (#[trigger] ps@[k]).wf(),
            1 <= size <= MAX_PARTICLE_SIZE,
        ensures
            final(self).wf(),
            final(self).width == old(self).width,
            final(self).height == old(self).height,
            final(self).pixels@.len() == old(self).pixels@.len(),
            forall|x: int, y: int|
                0 <= x < old(self).width && 0 <= y < old(self).height ==> #[trigger] cell(
                    final(self).pixels@, old(self).width as int, x, y)
                    == raster_color(ps@, size as int, x, y,
                        cell(old(self).pixels@, old(self).width as int, x, y)),
    {
        let w: usize = self.width;
        let h: usize = self.height;
        let ghost base = self.pixels@;
        let n: usize = ps.len();
        let mut k: usize = 0;
        while k < n
            invariant
                k <= n,
                n == ps@.len(),
                forall|m: int| 0 <= m < ps@.len() ==> (#[trigger] ps@[m]).wf(),
                1 <= size <= MAX_PARTICLE_SIZE,
                self.wf(),
                self.width == w,
                self.height == h,
                self.pixels@.len() == base.len(),
                forall|x: int, y: int|
                    0 <= x < w && 0 <= y < h ==> #[trigger] cell(self.pixels@, w as int, x, y)
                        == raster_color(ps@.take(k as int), size as int, x, y,
                            cell(base, w as int, x, y)),
            decreases n - k,
        {
            let ghost prev = self.pixels@;
            let pk: Particle = ps[k];
            self.draw_particle(&pk, size);
            proof {
                assert(ps@.take(k as int + 1).drop_last() =~= ps@.take(k as int));
                assert(ps@.take(k as int + 1).last() == ps@[k as int]);
            }
            k += 1;
        }
        proof {
            assert(ps@.take(n as int) =~= ps@);
        }
    }

    /// Compose glyph coverage samples into the buffer as gray pixels, in
    /// order; samples outside the buffer are skipped.
    pub fn overlay_glyph_pixels(&mut self, pts: &Vec<GlyphPixel>)
        requires
            old(self).wf(),
        ensures
            final(self).wf(),
            final(self).width == old(self).width,
            final(self).height == old(self).height,
            final(self).pixels@.len() == old(self).pixels@.len(),
            forall|x: int, y: int|
                0 <= x < old(self).width && 0 <= y < old(self).height ==> #[trigger] cell(
                    final(self).pixels@, old(self).width as int, x, y)
                    == overlay_color(pts@, x, y,
                        cell(old(self).pixels@, old(self).width as int, x, y)),
    {
        let w: usize = self.width;
        let h: usize = self.height;
        let ghost base = self.pixels@;
        let n: usize = pts.len();
        let mut k: usize = 0;
        while k < n
            invariant
                k <= n,
                n == pts@.len(),
                self.wf(),
                self.width == w,
                self.height == h,
                self.pixels@.len() == base.len(),
                forall|x: int, y: int|
                    0 <= x < w && 0 <= y < h ==> #[trigger] cell(self.pixels@, w as int, x, y)
                        == overlay_color(pts@.take(k as int), x, y, cell(base, w as int, x, y)),
            decreases n - k,
        {
            let pt: GlyphPixel = pts[k];
            let ghost before = self.pixels@;
            proof {
                assert(pts@.take(k as int + 1).drop_last() =~= pts@.take(k as int));
                assert(pts@.take(k as int + 1).last() == pts@[k as int]);
            }
            if pt.x < w && pt.y < h {
                let len: usize = self.pixels.len();
                proof {
                    lemma_cell_index_bound(w as int, h as int, pt.x as int, pt.y as int);
                }
                let idx: usize = pt.y * w + pt.x;
                let i: u32 = pt.intensity;
                self.pixels[idx] = (i << 16u32) | (i << 8u32) | i;
                proof {
                    assert forall|x: int, y: int| 0 <= x < w && 0 <= y < h implies
                        #[trigger] cell(self.pixels@, w as int, x, y)
                            == overlay_color(pts@.take(k as int + 1), x, y,
                                cell(base, w as int, x, y)) by {
                        lemma_cell_index_bound(w as int, h as int, x, y);
                        assert(cell(before, w as int, x, y)
                            == overlay_color(pts@.take(k as int), x, y,
                                cell(base, w as int, x, y)));
                        if y * (w as int) + x == idx as int {
                            lemma_cell_index_injective(w as int, x, y, pt.x as int, pt.y as int);
                        } else {
                            assert(cell(self.pixels@, w as int, x, y)
                                == cell(before, w as int, x, y));
                        }
                    }
                }
            } else {
                proof {
                    assert forall|x: int, y: int| 0 <= x < w && 0 <= y < h implies
                        #[trigger] cell(self.pixels@, w as int, x, y)
                            == overlay_color(pts@.take(k as int + 1), x, y,
                                cell(base, w as int, x, y)) by {
                        lemma_cell_index_bound(w as int, h as int, x, y);
                        assert(cell(before, w as int, x, y)
                            == overlay_color(pts@.take(k as int), x, y,
                                cell(base, w as int, x, y)));
                    }
                }
            }
            k += 1;
        }
        proof {
            assert(pts@.take(n as int) =~= pts@);
        }
    }
}

} // verus!
