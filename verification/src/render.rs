//! A drawing surface over an ARGB pixel buffer: rectangles, copies of
//! other ARGB images, premultiplied RGBA images laid over the buffer, and
//! text from rasterized glyphs.

use vstd::prelude::*;
use crate::arith;
use crate::pixels::{
    blend_pixel, blend_pixel_premul, buffer_ok, fill_rect, in_box, in_rect, lemma_index, spec_blend_pixel,
    spec_blend_pixel_premul, spec_fill,
};

verus! {

/// Index in an image `sw` pixels wide, placed at `(x, y)`, of the pixel
/// under buffer pixel `i` of a buffer `bw` wide.
pub open spec fn source_index(bw: int, sw: int, x: int, y: int, i: int) -> int {
    (i / bw - y) * sw + (i % bw - x)
}

/// Buffer pixel `i` after the ARGB image `src` is copied over it: the
/// image's pixel where the image has one.
pub open spec fn copied_px(dst: Seq<u32>, bw: int, src: Seq<u32>, sw: int, x: int, y: int, i: int) -> u32 {
    let k = source_index(bw, sw, x, y, i);
    if 0 <= k < src.len() {
        src[k]
    } else {
        dst[i]
    }
}

/// The buffer after the ARGB image `src` (`sw` by `sh`) is copied to
/// `(x, y)`, clipped to the buffer.
pub open spec fn spec_blit_argb(dst: Seq<u32>, bw: int, bh: int, src: Seq<u32>, sw: int, sh: int, x: int, y: int) -> Seq<u32> {
    Seq::new(dst.len(), |i: int| if in_rect(bw, bh, x, y, sw, sh, i) { copied_px(dst, bw, src, sw, x, y, i) } else { dst[i] })
}

/// Buffer pixel `i` after the premultiplied RGBA image `data` is laid over
/// it: blended where the image has an opaque-enough pixel.
pub open spec fn laid_px(dst: Seq<u32>, bw: int, data: Seq<u8>, sw: int, x: int, y: int, i: int) -> u32 {
    let k = source_index(bw, sw, x, y, i);
    if 0 <= k && 4 * k + 4 <= data.len() && data[4 * k + 3] != 0 {
        spec_blend_pixel_premul(dst[i], data[4 * k], data[4 * k + 1], data[4 * k + 2], data[4 * k + 3])
    } else {
        dst[i]
    }
}

/// The buffer after the premultiplied RGBA image `data` (`sw` by `sh`) is
/// laid over it at `(x, y)`, clipped to the buffer.
pub open spec fn spec_blit_premul(dst: Seq<u32>, bw: int, bh: int, data: Seq<u8>, sw: int, sh: int, x: int, y: int) -> Seq<u32> {
    Seq::new(dst.len(), |i: int| if in_rect(bw, bh, x, y, sw, sh, i) { laid_px(dst, bw, data, sw, x, y, i) } else { dst[i] })
}

/// Copy the ARGB image `src` (`src_width` by `src_height`, row-major) to
/// `(x, y)` of the buffer, clipped to the buffer.
pub fn blit_argb_into(
    dst: &mut Vec<u32>,
    dst_width: i32,
    dst_height: i32,
    src: &Vec<u32>,
    src_width: i32,
    src_height: i32,
    x: i32,
    y: i32,
)
    requires
        arith::fits_i32(x + src_width),
        arith::fits_i32(y + src_height),
        buffer_ok(dst_width as int, dst_height as int),
        buffer_ok(src_width as int, src_height as int),
    ensures
        final(dst)@ == spec_blit_argb(
            old(dst)@,
            dst_width as int,
            dst_height as int,
            src@,
            src_width as int,
            src_height as int,
            x as int,
            y as int,
        ),
{
    let ghost old_px = old(dst)@;
    let ghost goal = spec_blit_argb(
        old_px,
        dst_width as int,
        dst_height as int,
        src@,
        src_width as int,
        src_height as int,
        x as int,
        y as int,
    );
    if src_width <= 0 || src_height <= 0 {
        assert(dst@ == goal);
        return;
    }
    let x0 = if x > 0 { x } else { 0 };
    let y0 = if y > 0 { y } else { 0 };
    let x1 = if x + src_width < dst_width { x + src_width } else { dst_width };
    let y1 = if y + src_height < dst_height { y + src_height } else { dst_height };
    if x1 <= x0 || y1 <= y0 {
        assert(dst@ == goal);
        return;
    }
    let bw = dst_width;
    let sw = src_width;
    let len = dst.len();
    let mut row = y0;
    while row < y1
        invariant
            0 <= y0 <= row <= y1 <= dst_height,
            0 <= x0 < x1 <= bw,
            x0 == arith::max_int(x as int, 0),
            x1 == arith::min_int(x + sw, bw as int),
            y0 == arith::max_int(y as int, 0),
            y1 == arith::min_int(y + src_height, dst_height as int),
            bw == dst_width,
            sw == src_width,
            sw > 0,
            buffer_ok(bw as int, dst_height as int),
            buffer_ok(sw as int, src_height as int),
            len == dst@.len(),
            len == old_px.len(),
            dst@ == Seq::new(
                old_px.len(),
                |i: int|
                    if in_box(bw as int, x0 as int, x1 as int, y0 as int, row as int, i) {
                        copied_px(old_px, bw as int, src@, sw as int, x as int, y as int, i)
                    } else {
                        old_px[i]
                    },
            ),
        decreases y1 - row,
    {
        let mut col = x0;
        while col < x1
            invariant
                0 <= y0 <= row < y1 <= dst_height,
                0 <= x0 <= col <= x1 <= bw,
                x0 == arith::max_int(x as int, 0),
                x1 == arith::min_int(x + sw, bw as int),
                y0 == arith::max_int(y as int, 0),
                y1 == arith::min_int(y + src_height, dst_height as int),
                bw == dst_width,
                sw == src_width,
                sw > 0,
                buffer_ok(bw as int, dst_height as int),
                buffer_ok(sw as int, src_height as int),
                len == dst@.len(),
                len == old_px.len(),
                dst@ == Seq::new(
                    old_px.len(),
                    |i: int|
                        if in_box(bw as int, x0 as int, x1 as int, y0 as int, row as int, i) || in_box(
                            bw as int,
                            x0 as int,
                            col as int,
                            row as int,
                            row + 1,
                            i,
                        ) {
                            copied_px(old_px, bw as int, src@, sw as int, x as int, y as int, i)
                        } else {
                            old_px[i]
                        },
                ),
            decreases x1 - col,
        {
            assert(row * bw + col < 4 * bw * dst_height) by (nonlinear_arith)
                requires
                    0 <= row < dst_height,
                    0 <= col < bw,
            ;
            let src_y = row - y;
            let src_x = col - x;
            assert(0 <= src_y < src_height && 0 <= src_x < sw);
            assert(src_y * sw + src_x < 4 * sw * src_height) by (nonlinear_arith)
                requires
                    0 <= src_y < src_height,
                    0 <= src_x < sw,
            ;
            assert(0 <= src_y * sw) by (nonlinear_arith)
                requires
                    0 <= src_y,
                    0 <= sw,
            ;
            let k = src_y * sw + src_x;
            let offset = row * bw + col;
            let idx = offset as usize;
            let ghost i0 = offset as int;
            proof {
                lemma_index(i0, bw as int, row as int, col as int);
            }
            if idx < len && (k as usize) < src.len() {
                let v = src[k as usize];
                dst.set(idx, v);
            }
            let ghost next = Seq::new(
                old_px.len(),
                |i: int|
                    if in_box(bw as int, x0 as int, x1 as int, y0 as int, row as int, i) || in_box(
                        bw as int,
                        x0 as int,
                        col + 1,
                        row as int,
                        row + 1,
                        i,
                    ) {
                        copied_px(old_px, bw as int, src@, sw as int, x as int, y as int, i)
                    } else {
                        old_px[i]
                    },
            );
            assert forall|i: int| 0 <= i < len implies dst@[i] == next[i] by {
                lemma_index(i, bw as int, row as int, col as int);
            }
            assert(dst@ == next);
            col = col + 1;
        }
        let ghost next_rows = Seq::new(
            old_px.len(),
            |i: int|
                if in_box(bw as int, x0 as int, x1 as int, y0 as int, row + 1, i) {
                    copied_px(old_px, bw as int, src@, sw as int, x as int, y as int, i)
                } else {
                    old_px[i]
                },
        );
        assert(dst@ == next_rows);
        row = row + 1;
    }
    assert(dst@ == goal);
}

/// Lay the premultiplied RGBA image `src` (`src_width` by `src_height`,
/// four bytes a pixel, row-major) over the buffer at `(x, y)`, clipped to
/// the buffer; fully transparent pixels leave the buffer as it is.
pub fn blit_premul_into(
    dst: &mut Vec<u32>,
    dst_width: i32,
    dst_height: i32,
    src: &Vec<u8>,
    src_width: i32,
    src_height: i32,
    x: i32,
    y: i32,
)
    requires
        arith::fits_i32(x + src_width),
        arith::fits_i32(y + src_height),
        buffer_ok(dst_width as int, dst_height as int),
        buffer_ok(src_width as int, src_height as int),
    ensures
        final(dst)@ == spec_blit_premul(
            old(dst)@,
            dst_width as int,
            dst_height as int,
            src@,
            src_width as int,
            src_height as int,
            x as int,
            y as int,
        ),
{
    let ghost old_px = old(dst)@;
    let ghost goal = spec_blit_premul(
        old_px,
        dst_width as int,
        dst_height as int,
        src@,
        src_width as int,
        src_height as int,
        x as int,
        y as int,
    );
    if src_width <= 0 || src_height <= 0 {
        assert(dst@ == goal);
        return;
    }
    let x0 = if x > 0 { x } else { 0 };
    let y0 = if y > 0 { y } else { 0 };
    let x1 = if x + src_width < dst_width { x + src_width } else { dst_width };
    let y1 = if y + src_height < dst_height { y + src_height } else { dst_height };
    if x1 <= x0 || y1 <= y0 {
        assert(dst@ == goal);
        return;
    }
    let bw = dst_width;
    let sw = src_width;
    let len = dst.len();
    let mut row = y0;
    while row < y1
        invariant
            0 <= y0 <= row <= y1 <= dst_height,
            0 <= x0 < x1 <= bw,
            x0 == arith::max_int(x as int, 0),
            x1 == arith::min_int(x + sw, bw as int),
            y0 == arith::max_int(y as int, 0),
            y1 == arith::min_int(y + src_height, dst_height as int),
            bw == dst_width,
            sw == src_width,
            sw > 0,
            buffer_ok(bw as int, dst_height as int),
            buffer_ok(sw as int, src_height as int),
            len == dst@.len(),
            len == old_px.len(),
            dst@ == Seq::new(
                old_px.len(),
                |i: int|
                    if in_box(bw as int, x0 as int, x1 as int, y0 as int, row as int, i) {
                        laid_px(old_px, bw as int, src@, sw as int, x as int, y as int, i)
                    } else {
                        old_px[i]
                    },
            ),
        decreases y1 - row,
    {
        let mut col = x0;
        while col < x1
            invariant
                0 <= y0 <= row < y1 <= dst_height,
                0 <= x0 <= col <= x1 <= bw,
                x0 == arith::max_int(x as int, 0),
                x1 == arith::min_int(x + sw, bw as int),
                y0 == arith::max_int(y as int, 0),
                y1 == arith::min_int(y + src_height, dst_height as int),
                bw == dst_width,
                sw == src_width,
                sw > 0,
                buffer_ok(bw as int, dst_height as int),
                buffer_ok(sw as int, src_height as int),
                len == dst@.len(),
                len == old_px.len(),
                dst@ == Seq::new(
                    old_px.len(),
                    |i: int|
                        if in_box(bw as int, x0 as int, x1 as int, y0 as int, row as int, i) || in_box(
                            bw as int,
                            x0 as int,
                            col as int,
                            row as int,
                            row + 1,
                            i,
                        ) {
                            laid_px(old_px, bw as int, src@, sw as int, x as int, y as int, i)
                        } else {
                            old_px[i]
                        },
                ),
            decreases x1 - col,
        {
            assert(row * bw + col < 4 * bw * dst_height) by (nonlinear_arith)
                requires
                    0 <= row < dst_height,
                    0 <= col < bw,
            ;
            let src_y = row - y;
            let src_x = col - x;
            assert(0 <= src_y < src_height && 0 <= src_x < sw);
            assert(src_y * sw + src_x < 4 * sw * src_height) by (nonlinear_arith)
                requires
                    0 <= src_y < src_height,
                    0 <= src_x < sw,
            ;
            assert(0 <= src_y * sw) by (nonlinear_arith)
                requires
                    0 <= src_y,
                    0 <= sw,
            ;
            let k = src_y * sw + src_x;
            let offset = row * bw + col;
            let idx = offset as usize;
            let ghost i0 = offset as int;
            proof {
                lemma_index(i0, bw as int, row as int, col as int);
            }
            let ku = k as usize;
            if idx < len && ku < src.len() / 4 {
                assert(4 * ku + 4 <= src@.len());
                let a = src[4 * ku + 3];
                if a != 0 {
                    let v = blend_pixel_premul(dst[idx], src[4 * ku], src[4 * ku + 1], src[4 * ku + 2], a);
                    dst.set(idx, v);
                }
            }
            let ghost next = Seq::new(
                old_px.len(),
                |i: int|
                    if in_box(bw as int, x0 as int, x1 as int, y0 as int, row as int, i) || in_box(
                        bw as int,
                        x0 as int,
                        col + 1,
                        row as int,
                        row + 1,
                        i,
                    ) {
                        laid_px(old_px, bw as int, src@, sw as int, x as int, y as int, i)
                    } else {
                        old_px[i]
                    },
            );
            assert forall|i: int| 0 <= i < len implies dst@[i] == next[i] by {
                lemma_index(i, bw as int, row as int, col as int);
            }
            assert(dst@ == next);
            col = col + 1;
        }
        let ghost next_rows = Seq::new(
            old_px.len(),
            |i: int|
                if in_box(bw as int, x0 as int, x1 as int, y0 as int, row + 1, i) {
                    laid_px(old_px, bw as int, src@, sw as int, x as int, y as int, i)
                } else {
                    old_px[i]
                },
        );
        assert(dst@ == next_rows);
        row = row + 1;
    }
    assert(dst@ == goal);
}

/// How a rasterized glyph stores its pixels.
#[derive(Debug, Clone, Copy, PartialEq, Eq, Structural)]
pub enum GlyphMode {
    /// One coverage byte a pixel, drawn in the text colour
    Gray,
    /// Four bytes a pixel, premultiplied blue, green, red and alpha
    Bgra,
}

/// A rasterized glyph: `width` by `rows` pixels, each row `pitch` bytes
/// after the one before; a negative pitch stores the rows bottom up.
#[derive(Debug, Clone)]
pub struct GlyphImage {
    pub width: i32,
    pub rows: i32,
    pub pitch: i32,
    pub mode: GlyphMode,
    pub buffer: Vec<u8>,
}

/// Where and how a glyph is drawn: the buffer's size, the area that clips
/// it, the glyph's top left corner, its pixels, the text colour and
/// whether a second, shifted copy thickens it.
pub struct GlyphDraw {
    pub bw: int,
    pub bh: int,
    pub ax: int,
    pub ay: int,
    pub aw: int,
    pub ah: int,
    pub gx: int,
    pub gy: int,
    pub width: int,
    pub rows: int,
    pub pitch: int,
    pub gray: bool,
    pub buf: Seq<u8>,
    pub argb: u32,
    pub bold: bool,
}

/// The drawing of `glyph` at `(gx, gy)`, clipped to `area` and the buffer.
pub open spec fn glyph_draw(
    bw: i32,
    bh: i32,
    area: (i32, i32, i32, i32),
    glyph: GlyphImage,
    gx: i32,
    gy: i32,
    argb: u32,
    bold: bool,
) -> GlyphDraw {
    GlyphDraw {
        bw: bw as int,
        bh: bh as int,
        ax: area.0 as int,
        ay: area.1 as int,
        aw: area.2 as int,
        ah: area.3 as int,
        gx: gx as int,
        gy: gy as int,
        width: glyph.width as int,
        rows: glyph.rows as int,
        pitch: glyph.pitch as int,
        gray: glyph.mode == GlyphMode::Gray,
        buf: glyph.buffer@,
        argb,
        bold,
    }
}

/// The buffer point `(px, py)` lies in the clipping area and the buffer.
pub open spec fn glyph_inside(d: GlyphDraw, px: int, py: int) -> bool {
    &&& d.ax <= px < d.ax + d.aw
    &&& d.ay <= py < d.ay + d.ah
    &&& 0 <= px < d.bw
    &&& 0 <= py < d.bh
}

/// Offset in the glyph's bytes of the start of row `row`.
pub open spec fn row_offset(d: GlyphDraw, row: int) -> int {
    if d.pitch < 0 {
        (d.rows - 1 - row) * (-d.pitch)
    } else {
        row * d.pitch
    }
}

/// The buffer after pixel `(row, col)` of the glyph is drawn: a coverage
/// pixel blends the text colour in (and, thickened, once more one pixel to
/// the right), a colour pixel is laid over; pixels outside the clip, past
/// the glyph's bytes or fully transparent change nothing.
pub open spec fn glyph_px(p: Seq<u32>, d: GlyphDraw, row: int, col: int) -> Seq<u32> {
    let px = d.gx + col;
    let py = d.gy + row;
    let off = py * d.bw + px;
    if !glyph_inside(d, px, py) || off >= p.len() {
        p
    } else if d.gray {
        let idx = row_offset(d, row) + col;
        if idx >= d.buf.len() || d.buf[idx] == 0 {
            p
        } else {
            let a = d.buf[idx];
            let p1 = p.update(off, spec_blend_pixel(p[off], d.argb, a));
            if d.bold && px + 1 < d.ax + d.aw && px + 1 < d.bw && off + 1 < p.len() {
                p1.update(off + 1, spec_blend_pixel(p1[off + 1], d.argb, a))
            } else {
                p1
            }
        }
    } else {
        let idx = row_offset(d, row) + 4 * col;
        if idx + 4 > d.buf.len() || d.buf[idx + 3] == 0 {
            p
        } else {
            p.update(off, spec_blend_pixel_premul(p[off], d.buf[idx + 2], d.buf[idx + 1], d.buf[idx], d.buf[idx + 3]))
        }
    }
}

/// The buffer after the first `c` pixels of row `row` are drawn.
pub open spec fn glyph_cols(p: Seq<u32>, d: GlyphDraw, row: int, c: nat) -> Seq<u32>
    decreases c,
{
    if c == 0 {
        p
    } else {
        glyph_px(glyph_cols(p, d, row, (c - 1) as nat), d, row, c - 1)
    }
}

/// The buffer after the first `r` rows of the glyph are drawn.
pub open spec fn glyph_rows(p: Seq<u32>, d: GlyphDraw, r: nat) -> Seq<u32>
    decreases r,
{
    if r == 0 {
        p
    } else {
        glyph_cols(glyph_rows(p, d, (r - 1) as nat), d, r - 1, d.width as nat)
    }
}

/// The buffer after the whole glyph is drawn, row by row, left to right.
pub open spec fn spec_draw_glyph(p: Seq<u32>, d: GlyphDraw) -> Seq<u32> {
    if d.width <= 0 || d.rows <= 0 {
        p
    } else {
        glyph_rows(p, d, d.rows as nat)
    }
}

/// The glyph can be drawn at `(gx, gy)` within `i32` arithmetic.
pub open spec fn glyph_fits(area: (i32, i32, i32, i32), glyph: GlyphImage, gx: i32, gy: i32) -> bool {
    &&& arith::fits_i32(area.0 + area.2)
    &&& arith::fits_i32(area.1 + area.3)
    &&& arith::fits_i32(gx + glyph.width)
    &&& arith::fits_i32(gy + glyph.rows)
    &&& arith::fits_i32(-glyph.pitch)
    &&& arith::fits_i32(glyph.rows * glyph.pitch)
}

/// Draw one pixel of a glyph.
fn draw_glyph_px(
    pixels: &mut Vec<u32>,
    bw: i32,
    bh: i32,
    area: (i32, i32, i32, i32),
    glyph: &GlyphImage,
    gx: i32,
    gy: i32,
    argb: u32,
    bold: bool,
    row: i32,
    col: i32,
)
    requires
        buffer_ok(bw as int, bh as int),
        glyph_fits(area, *glyph, gx, gy),
        0 <= row < glyph.rows,
        0 <= col < glyph.width,
    ensures
        final(pixels)@ == glyph_px(old(pixels)@, glyph_draw(bw, bh, area, *glyph, gx, gy, argb, bold), row as int, col as int),
        final(pixels)@.len() == old(pixels)@.len(),
{
    let ghost d = glyph_draw(bw, bh, area, *glyph, gx, gy, argb, bold);
    let (ax, ay, aw, ah) = area;
    let px = gx + col;
    let py = gy + row;
    if !(px >= ax && px < ax + aw && py >= ay && py < ay + ah && px >= 0 && px < bw && py >= 0 && py < bh) {
        return;
    }
    assert(py * bw + px < 4 * bw * bh) by (nonlinear_arith)
        requires
            0 <= py < bh,
            0 <= px < bw,
    ;
    let off = (py * bw + px) as usize;
    if off >= pixels.len() {
        return;
    }
    let pitch = glyph.pitch as i64;
    let rows = glyph.rows as i64;
    let r = row as i64;
    assert(rows * (-pitch) == -(rows * pitch)) by (nonlinear_arith);
    let ro: i64 = if pitch < 0 {
        assert(0 <= (rows - 1 - r) * (-pitch) <= rows * (-pitch)) by (nonlinear_arith)
            requires
                0 <= r < rows,
                pitch < 0,
        ;
        (rows - 1 - r) * (-pitch)
    } else {
        assert(0 <= r * pitch <= rows * pitch) by (nonlinear_arith)
            requires
                0 <= r < rows,
                pitch >= 0,
        ;
        r * pitch
    };
    assert(ro == row_offset(d, row as int));
    let len = glyph.buffer.len();
    match glyph.mode {
        GlyphMode::Gray => {
            let idx = ro + col as i64;
            if idx as u64 >= len as u64 {
                return;
            }
            let a = glyph.buffer[idx as usize];
            if a == 0 {
                return;
            }
            let v = blend_pixel(pixels[off], argb, a);
            pixels.set(off, v);
            if bold && px + 1 < ax + aw && px + 1 < bw && off + 1 < pixels.len() {
                let vb = blend_pixel(pixels[off + 1], argb, a);
                pixels.set(off + 1, vb);
            }
        },
        GlyphMode::Bgra => {
            let idx = ro + 4 * (col as i64);
            if (idx as u64) + 4 > len as u64 {
                return;
            }
            let iu = idx as usize;
            let a = glyph.buffer[iu + 3];
            if a == 0 {
                return;
            }
            let v = blend_pixel_premul(pixels[off], glyph.buffer[iu + 2], glyph.buffer[iu + 1], glyph.buffer[iu], a);
            pixels.set(off, v);
        },
    }
}

/// Draw `glyph` with its top left corner at `(gx, gy)`, clipped to `area`
/// `(x, y, width, height)` and to the buffer, in the colour `argb`;
/// `bold` draws coverage glyphs a second time one pixel to the right.
pub fn draw_glyph(
    pixels: &mut Vec<u32>,
    bw: i32,
    bh: i32,
    area: (i32, i32, i32, i32),
    glyph: &GlyphImage,
    gx: i32,
    gy: i32,
    argb: u32,
    bold: bool,
)
    requires
        buffer_ok(bw as int, bh as int),
        glyph_fits(area, *glyph, gx, gy),
    ensures
        final(pixels)@ == spec_draw_glyph(old(pixels)@, glyph_draw(bw, bh, area, *glyph, gx, gy, argb, bold)),
        final(pixels)@.len() == old(pixels)@.len(),
{
    let ghost d = glyph_draw(bw, bh, area, *glyph, gx, gy, argb, bold);
    let ghost p0 = old(pixels)@;
    if glyph.width <= 0 || glyph.rows <= 0 {
        return;
    }
    let mut row: i32 = 0;
    while row < glyph.rows
        invariant
            0 <= row <= glyph.rows,
            glyph.width > 0,
            buffer_ok(bw as int, bh as int),
            glyph_fits(area, *glyph, gx, gy),
            d == glyph_draw(bw, bh, area, *glyph, gx, gy, argb, bold),
            pixels@ == glyph_rows(p0, d, row as nat),
            pixels@.len() == p0.len(),
        decreases glyph.rows - row,
    {
        let mut col: i32 = 0;
        while col < glyph.width
            invariant
                0 <= row < glyph.rows,
                0 <= col <= glyph.width,
                buffer_ok(bw as int, bh as int),
                glyph_fits(area, *glyph, gx, gy),
                d == glyph_draw(bw, bh, area, *glyph, gx, gy, argb, bold),
                pixels@ == glyph_cols(glyph_rows(p0, d, row as nat), d, row as int, col as nat),
                pixels@.len() == p0.len(),
            decreases glyph.width - col,
        {
            draw_glyph_px(pixels, bw, bh, area, glyph, gx, gy, argb, bold, row, col);
            col = col + 1;
        }
        row = row + 1;
    }
}

/// A glyph of a text with its placement: how far the pen moves after it,
/// and where its image sits relative to the pen and the baseline.
#[derive(Debug, Clone)]
pub struct TextGlyph {
    pub advance: i32,
    pub left: i32,
    pub top: i32,
    pub image: GlyphImage,
}

/// A premultiplied RGBA image, four bytes a pixel, row-major.
#[derive(Debug, Clone)]
pub struct PremulImage {
    pub width: i32,
    pub height: i32,
    pub data: Vec<u8>,
}

/// Where a line of text goes: the buffer's size, the clipping area, the
/// baseline, where the pen starts, how far it may go, and the colour.
pub struct TextDraw {
    pub bw: i32,
    pub bh: i32,
    pub area: (i32, i32, i32, i32),
    pub baseline: int,
    pub start_x: int,
    pub max_x: int,
    pub argb: u32,
}

/// One glyph of a line of text: from `(pixels, pen, stopped)`, a glyph
/// that would pass `max_x` stops the line; a missing glyph is skipped.
pub open spec fn text_step(st: (Seq<u32>, int, bool), g: Option<TextGlyph>, t: TextDraw) -> (Seq<u32>, int, bool) {
    if st.2 {
        st
    } else {
        match g {
            None => st,
            Some(g) => if st.1 + g.advance > t.max_x {
                (st.0, st.1, true)
            } else {
                (
                    spec_draw_glyph(
                        st.0,
                        glyph_draw(t.bw, t.bh, t.area, g.image, (st.1 + g.left) as i32, (t.baseline - g.top) as i32, t.argb, false),
                    ),
                    st.1 + g.advance,
                    false,
                )
            },
        }
    }
}

/// The state after the first `n` glyphs of the line.
pub open spec fn text_fold(p: Seq<u32>, gs: Seq<Option<TextGlyph>>, t: TextDraw, n: nat) -> (Seq<u32>, int, bool)
    decreases n,
{
    if n == 0 {
        (p, t.start_x, false)
    } else {
        text_step(text_fold(p, gs, t, (n - 1) as nat), gs[n - 1], t)
    }
}

/// The line of text drawn in the area `(origin_x, origin_y + 1,
/// area_width, area_height)` of a buffer `bw` by `bh`, centred on the
/// font's `(asc, desc)`, from `padding_x` inside either edge.
pub open spec fn line_of(
    bw: i32,
    bh: i32,
    origin_x: i32,
    origin_y: i32,
    area_width: i32,
    area_height: i32,
    argb: u32,
    asc: i32,
    desc: i32,
    padding_x: i32,
) -> TextDraw {
    let oy = origin_y + 1;
    let line_height = arith::max_int(asc - desc, 1);
    let pad = arith::max_int(padding_x as int, 0);
    TextDraw {
        bw,
        bh,
        area: (origin_x, oy as i32, area_width, area_height),
        baseline: oy + arith::tdiv(area_height - line_height, 2) + asc,
        start_x: origin_x + pad,
        max_x: origin_x + area_width - pad,
        argb,
    }
}

/// Every value that setting up the line computes fits in `i32`.
pub open spec fn line_fits(origin_x: i32, origin_y: i32, area_width: i32, area_height: i32, asc: i32, desc: i32, padding_x: i32) -> bool {
    let oy = origin_y + 1;
    let line_height = arith::max_int(asc - desc, 1);
    let pad = arith::max_int(padding_x as int, 0);
    &&& arith::fits_i32(oy)
    &&& arith::fits_i32(asc - desc)
    &&& arith::fits_i32(area_height - line_height)
    &&& arith::fits_i32(oy + arith::tdiv(area_height - line_height, 2))
    &&& arith::fits_i32(oy + arith::tdiv(area_height - line_height, 2) + asc)
    &&& arith::fits_i32(origin_x + pad)
    &&& arith::fits_i32(origin_x + area_width)
    &&& arith::fits_i32(origin_x + area_width - pad)
}

/// Where the pen is after the first `n` glyphs of the line, and whether the
/// line has stopped.
pub open spec fn pen_at(gs: Seq<Option<TextGlyph>>, t: TextDraw, n: nat) -> (int, bool)
    decreases n,
{
    if n == 0 {
        (t.start_x, false)
    } else {
        let st = pen_at(gs, t, (n - 1) as nat);
        if st.1 {
            st
        } else {
            match gs[n - 1] {
                None => st,
                Some(g) => if st.0 + g.advance > t.max_x {
                    (st.0, true)
                } else {
                    (st.0 + g.advance, false)
                },
            }
        }
    }
}

/// Every value that placing and drawing glyph `k` computes fits in `i32`:
/// the pen after it, and, when it is drawn, its corner and its pixels.
pub open spec fn glyph_step_fits(gs: Seq<Option<TextGlyph>>, t: TextDraw, k: int) -> bool {
    let st = pen_at(gs, t, k as nat);
    (!st.1 && gs[k] is Some) ==> {
        let g = gs[k]->0;
        &&& arith::fits_i32(st.0 + g.advance)
        &&& (st.0 + g.advance <= t.max_x ==> {
            &&& arith::fits_i32(st.0 + g.left)
            &&& arith::fits_i32(t.baseline - g.top)
            &&& glyph_fits(t.area, g.image, (st.0 + g.left) as i32, (t.baseline - g.top) as i32)
        })
    }
}

/// The pen of the drawing fold is the pen of `pen_at`.
proof fn lemma_pen(p: Seq<u32>, gs: Seq<Option<TextGlyph>>, t: TextDraw, n: nat)
    requires
        n <= gs.len(),
    ensures
        text_fold(p, gs, t, n).1 == pen_at(gs, t, n).0,
        text_fold(p, gs, t, n).2 == pen_at(gs, t, n).1,
    decreases n,
{
    if n > 0 {
        lemma_pen(p, gs, t, (n - 1) as nat);
    }
}

/// A drawing surface: `width` by `height` ARGB pixels, row-major.
pub struct Renderer {
    pub pixels: Vec<u32>,
    pub width: i32,
    pub height: i32,
}

impl Renderer {
    /// The buffer has a positive size and exactly its pixels.
    pub open spec fn wf(&self) -> bool {
        &&& self.width > 0
        &&& self.height > 0
        &&& self.pixels@.len() == self.width * self.height
    }

    /// A surface over `pixels`, when the size is positive and the buffer
    /// holds exactly that many pixels.
    pub fn new(pixels: Vec<u32>, width: i32, height: i32) -> (r: Option<Self>)
        ensures
            r.is_some() == (width > 0 && height > 0 && pixels@.len() == width * height),
            r matches Some(s) ==> s.wf() && s.pixels@ == pixels@ && s.width == width && s.height == height,
    {
        if width <= 0 || height <= 0 {
            return None;
        }
        let w = width as usize;
        let h = height as usize;
        if h > 0 && pixels.len() / h == w && pixels.len() % h == 0 {
            proof {
                vstd::arithmetic::div_mod::lemma_fundamental_div_mod(pixels@.len() as int, h as int);
                assert(h * w == w * h) by (nonlinear_arith);
            }
            Some(Renderer { pixels, width, height })
        } else {
            proof {
                if pixels@.len() == width * height {
                    vstd::arithmetic::div_mod::lemma_fundamental_div_mod_converse(pixels@.len() as int, h as int, w as int, 0);
                    assert(w * h == h * w) by (nonlinear_arith);
                }
            }
            None
        }
    }

    pub fn width(&self) -> (r: i32)
        ensures
            r == self.width,
    {
        self.width
    }

    pub fn height(&self) -> (r: i32)
        ensures
            r == self.height,
    {
        self.height
    }

    /// The pixels, row-major.
    pub fn data(&self) -> (r: &Vec<u32>)
        ensures
            r@ == self.pixels@,
    {
        &self.pixels
    }

    /// Fill the rectangle, clipped to the buffer, with `color_argb`.
    pub fn fill_rect(&mut self, x: i32, y: i32, width: i32, height: i32, color_argb: u32)
        requires
            old(self).wf(),
            buffer_ok(old(self).width as int, old(self).height as int),
            arith::fits_i32(x + width),
            arith::fits_i32(y + height),
        ensures
            final(self).wf(),
            final(self).width == old(self).width && final(self).height == old(self).height,
            final(self).pixels@ == spec_fill(
                old(self).pixels@,
                old(self).width as int,
                old(self).height as int,
                x as int,
                y as int,
                width as int,
                height as int,
                color_argb,
            ),
    {
        fill_rect(&mut self.pixels, self.width, self.height, x, y, width, height, color_argb);
    }

    /// Lay the premultiplied image `icon` over the buffer at `(x, y)`.
    pub fn blit_pixmap(&mut self, icon: &PremulImage, x: i32, y: i32)
        requires
            old(self).wf(),
            buffer_ok(old(self).width as int, old(self).height as int),
            buffer_ok(icon.width as int, icon.height as int),
            arith::fits_i32(x + icon.width),
            arith::fits_i32(y + icon.height),
        ensures
            final(self).wf(),
            final(self).width == old(self).width && final(self).height == old(self).height,
            final(self).pixels@ == spec_blit_premul(
                old(self).pixels@,
                old(self).width as int,
                old(self).height as int,
                icon.data@,
                icon.width as int,
                icon.height as int,
                x as int,
                y as int,
            ),
    {
        blit_premul_into(&mut self.pixels, self.width, self.height, &icon.data, icon.width, icon.height, x, y);
    }

    /// Copy the ARGB image `src` (`src_width` by `src_height`) to `(x, y)`.
    pub fn blit_argb(&mut self, src: &Vec<u32>, src_width: i32, src_height: i32, x: i32, y: i32)
        requires
            old(self).wf(),
            buffer_ok(old(self).width as int, old(self).height as int),
            buffer_ok(src_width as int, src_height as int),
            arith::fits_i32(x + src_width),
            arith::fits_i32(y + src_height),
        ensures
            final(self).wf(),
            final(self).width == old(self).width && final(self).height == old(self).height,
            final(self).pixels@ == spec_blit_argb(
                old(self).pixels@,
                old(self).width as int,
                old(self).height as int,
                src@,
                src_width as int,
                src_height as int,
                x as int,
                y as int,
            ),
    {
        blit_argb_into(&mut self.pixels, self.width, self.height, src, src_width, src_height, x, y);
    }

    /// Draw a line of text, one rasterized glyph (or none, for a character
    /// the font lacks) per character, vertically centred in the area
    /// `(origin_x, origin_y + 1, area_width, area_height)` by the font's
    /// `(ascender, descender)`, from `padding_x` inside its left edge; the
    /// line stops at the first glyph that would pass `padding_x` inside its
    /// right edge.
    pub fn render_text(
        &mut self,
        glyphs: &Vec<Option<TextGlyph>>,
        origin_x: i32,
        origin_y: i32,
        area_width: i32,
        area_height: i32,
        text_argb: u32,
        metrics: Option<(i32, i32)>,
        padding_x: i32,
    )
        requires
            old(self).wf(),
            buffer_ok(old(self).width as int, old(self).height as int),
            glyphs@.len() > 0 && area_width > 0 && area_height > 0 && metrics is Some ==> {
                let (asc, desc) = metrics->0;
                let t = line_of(old(self).width, old(self).height, origin_x, origin_y, area_width, area_height, text_argb, asc, desc, padding_x);
                &&& line_fits(origin_x, origin_y, area_width, area_height, asc, desc, padding_x)
                &&& forall|k: int| 0 <= k < glyphs@.len() ==> #[trigger] glyph_step_fits(glyphs@, t, k)
            },
        ensures
            final(self).wf(),
            final(self).width == old(self).width && final(self).height == old(self).height,
            final(self).pixels@ == if glyphs@.len() == 0 || area_width <= 0 || area_height <= 0 || metrics is None {
                old(self).pixels@
            } else {
                let (asc, desc) = metrics->0;
                text_fold(
                    old(self).pixels@,
                    glyphs@,
                    line_of(old(self).width, old(self).height, origin_x, origin_y, area_width, area_height, text_argb, asc, desc, padding_x),
                    glyphs@.len(),
                ).0
            },
    {
        if glyphs.len() == 0 || area_width <= 0 || area_height <= 0 {
            return;
        }
        let (asc, desc) = match metrics {
            Some(m) => m,
            None => return,
        };
        let ghost t = line_of(self.width, self.height, origin_x, origin_y, area_width, area_height, text_argb, asc, desc, padding_x);
        let oy = origin_y + 1;
        let padding = if padding_x > 0 { padding_x } else { 0 };
        let line_height = if asc - desc > 1 { asc - desc } else { 1 };
        let baseline = oy + (area_height - line_height) / 2 + asc;
        let max_x = origin_x + area_width - padding;
        let ghost p0 = self.pixels@;
        let mut x_pos = origin_x + padding;
        let mut stopped = false;
        let mut k: usize = 0;
        while k < glyphs.len()
            invariant
                self.wf(),
                buffer_ok(self.width as int, self.height as int),
                t.bw == self.width && t.bh == self.height,
                t.area == (origin_x, oy, area_width, area_height),
                t.baseline == baseline,
                t.max_x == max_x,
                t.argb == text_argb,
                forall|j: int| 0 <= j < glyphs@.len() ==> #[trigger] glyph_step_fits(glyphs@, t, j),
                0 <= k <= glyphs@.len(),
                pen_at(glyphs@, t, k as nat) == (x_pos as int, stopped),
                text_fold(p0, glyphs@, t, k as nat) == (self.pixels@, x_pos as int, stopped),
            decreases glyphs@.len() - k,
        {
            assert(glyph_step_fits(glyphs@, t, k as int));
            if !stopped {
                match &glyphs[k] {
                    Some(g) => {
                        if x_pos as i64 + g.advance as i64 > max_x as i64 {
                            stopped = true;
                        } else {
                            draw_glyph(
                                &mut self.pixels,
                                self.width,
                                self.height,
                                (origin_x, oy, area_width, area_height),
                                &g.image,
                                x_pos + g.left,
                                baseline - g.top,
                                text_argb,
                                false,
                            );
                            x_pos = x_pos + g.advance;
                        }
                    },
                    None => {},
                }
            }
            k = k + 1;
        }
        proof {
            lemma_pen(p0, glyphs@, t, glyphs@.len());
        }
    }
}

} // verus!
