//! Software drawing into ARGB pixel buffers: colour conversion, blending,
//! and filling rectangles, clipped to the buffer.
//!
//! A buffer is a row-major sequence of 32-bit pixels `0xAARRGGBB`,
//! `buffer_width` pixels per row.

use vstd::prelude::*;
use crate::arith;

verus! {

/// Convert RGBA (0xRRGGBBAA) to ARGB (0xAARRGGBB)
pub open spec fn spec_rgba_to_argb(rgba: u32) -> u32 {
    ((rgba & 0xff) << 24) | (((rgba >> 24) & 0xff) << 16) | (((rgba >> 16) & 0xff) << 8) | ((rgba >> 8) & 0xff)
}

/// Convert RGBA (0xRRGGBBAA) to ARGB (0xAARRGGBB) for wl_shm format
pub fn rgba_to_argb(rgba: u32) -> (r: u32)
    ensures
        r == spec_rgba_to_argb(rgba),
        r >> 24 == rgba & 0xff,
        (r >> 16) & 0xff == rgba >> 24,
        (r >> 8) & 0xff == (rgba >> 16) & 0xff,
        r & 0xff == (rgba >> 8) & 0xff,
{
    let red = (rgba >> 24) & 0xff;
    let green = (rgba >> 16) & 0xff;
    let blue = (rgba >> 8) & 0xff;
    let alpha = rgba & 0xff;
    let r = (alpha << 24) | (red << 16) | (green << 8) | blue;
    assert(r >> 24 == rgba & 0xff && (r >> 16) & 0xff == rgba >> 24 && (r >> 8) & 0xff == (rgba >> 16) & 0xff
        && r & 0xff == (rgba >> 8) & 0xff) by (bit_vector)
        requires
            r == ((rgba & 0xff) << 24) | (((rgba >> 24) & 0xff) << 16) | (((rgba >> 16) & 0xff) << 8) | ((rgba
                >> 8) & 0xff),
    ;
    r
}

/// An opaque pixel with the given channels.
pub open spec fn opaque_rgb(r: u32, g: u32, b: u32) -> u32 {
    0xFF000000u32 | (r << 16) | (g << 8) | b
}

pub open spec fn channel(c: u32, shift: u32) -> int {
    ((c >> shift) & 0xff) as int
}

/// One channel of `fg` laid over `bg` with coverage `a` out of 255.
pub open spec fn mix(fg: int, bg: int, a: int) -> int {
    (fg * a + bg * (255 - a)) / 255
}

/// Coverage of a text pixel: the glyph's alpha scaled by the colour's alpha.
pub open spec fn coverage(fg_argb: u32, alpha: u8) -> int {
    (alpha as int * channel(fg_argb, 24)) / 255
}

/// Alpha blend of a text colour onto a background pixel; the result is opaque.
pub open spec fn spec_blend_pixel(bg: u32, fg_argb: u32, alpha: u8) -> u32 {
    let a = coverage(fg_argb, alpha);
    opaque_rgb(
        mix(channel(fg_argb, 16), channel(bg, 16), a) as u32,
        mix(channel(fg_argb, 8), channel(bg, 8), a) as u32,
        mix(channel(fg_argb, 0), channel(bg, 0), a) as u32,
    )
}

proof fn lemma_mix_bounds(fg: int, bg: int, a: int)
    requires
        0 <= fg <= 255,
        0 <= bg <= 255,
        0 <= a <= 255,
    ensures
        0 <= fg * a + bg * (255 - a) <= 65025,
        0 <= mix(fg, bg, a) <= 255,
{
    assert(0 <= fg * a + bg * (255 - a) <= 65025) by (nonlinear_arith)
        requires
            0 <= fg <= 255,
            0 <= bg <= 255,
            0 <= a <= 255,
    ;
}

fn channel_of(c: u32, shift: u32) -> (r: u32)
    requires
        shift <= 24,
    ensures
        r == channel(c, shift),
        r <= 255,
{
    let r = (c >> shift) & 0xff;
    assert(((c >> shift) & 0xff) <= 255) by (bit_vector);
    r
}

fn mix_channel(fg: u32, bg: u32, a: u32) -> (r: u32)
    requires
        fg <= 255,
        bg <= 255,
        a <= 255,
    ensures
        r == mix(fg as int, bg as int, a as int),
        r <= 255,
{
    proof {
        lemma_mix_bounds(fg as int, bg as int, a as int);
    }
    (fg * a + bg * (255 - a)) / 255
}

fn opaque_of(r: u32, g: u32, b: u32) -> (p: u32)
    requires
        r <= 255,
        g <= 255,
        b <= 255,
    ensures
        p == opaque_rgb(r, g, b),
{
    0xFF000000u32 | (r << 16) | (g << 8) | b
}

/// Alpha blend a text pixel onto a background pixel
pub fn blend_pixel(bg: u32, fg_argb: u32, alpha: u8) -> (r: u32)
    ensures
        r == spec_blend_pixel(bg, fg_argb, alpha),
{
    let fg_a = channel_of(fg_argb, 24);
    let fg_r = channel_of(fg_argb, 16);
    let fg_g = channel_of(fg_argb, 8);
    let fg_b = channel_of(fg_argb, 0);
    let al = alpha as u32;
    assert(al * fg_a <= 65025) by (nonlinear_arith)
        requires
            al <= 255,
            fg_a <= 255,
    ;
    let a = (al * fg_a) / 255;
    assert(a <= 255);
    let bg_r = channel_of(bg, 16);
    let bg_g = channel_of(bg, 8);
    let bg_b = channel_of(bg, 0);
    let out_r = mix_channel(fg_r, bg_r, a);
    let out_g = mix_channel(fg_g, bg_g, a);
    let out_b = mix_channel(fg_b, bg_b, a);
    opaque_of(out_r, out_g, out_b)
}

/// One channel of a premultiplied source laid over a background, wrapping
/// at 256 when the source is brighter than its alpha allows.
pub open spec fn premul_mix(src: int, bg: int, a: int) -> int {
    (src + (bg * (255 - a)) / 255) % 256
}

/// Alpha blend of a premultiplied RGBA source over a background pixel.
pub open spec fn spec_blend_pixel_premul(bg: u32, src_r: u8, src_g: u8, src_b: u8, src_a: u8) -> u32 {
    opaque_rgb(
        premul_mix(src_r as int, channel(bg, 16), src_a as int) as u32,
        premul_mix(src_g as int, channel(bg, 8), src_a as int) as u32,
        premul_mix(src_b as int, channel(bg, 0), src_a as int) as u32,
    )
}

fn premul_channel(src: u8, bg: u32, a: u8) -> (r: u32)
    requires
        bg <= 255,
    ensures
        r == premul_mix(src as int, bg as int, a as int),
        r <= 255,
{
    let inv = 255 - (a as u32);
    assert(bg * inv <= 65025) by (nonlinear_arith)
        requires
            bg <= 255,
            inv <= 255,
    ;
    ((src as u32) + (bg * inv) / 255) % 256
}

/// Alpha blend a premultiplied RGBA source over an ARGB destination.
pub fn blend_pixel_premul(bg: u32, src_r: u8, src_g: u8, src_b: u8, src_a: u8) -> (r: u32)
    ensures
        r == spec_blend_pixel_premul(bg, src_r, src_g, src_b, src_a),
{
    let bg_r = channel_of(bg, 16);
    let bg_g = channel_of(bg, 8);
    let bg_b = channel_of(bg, 0);
    let out_r = premul_channel(src_r, bg_r, src_a);
    let out_g = premul_channel(src_g, bg_g, src_a);
    let out_b = premul_channel(src_b, bg_b, src_a);
    opaque_of(out_r, out_g, out_b)
}

/// Set every pixel to transparent black.
pub fn clear_buffer(pixels: &mut Vec<u32>)
    ensures
        final(pixels)@ == Seq::new(old(pixels)@.len(), |i: int| 0u32),
{
    let n = pixels.len();
    let mut i: usize = 0;
    while i < n
        invariant
            n == pixels@.len(),
            n == old(pixels)@.len(),
            0 <= i <= n,
            forall|j: int| 0 <= j < i ==> pixels@[j] == 0u32,
        decreases n - i,
    {
        pixels.set(i, 0);
        i = i + 1;
    }
    assert(pixels@ == Seq::new(old(pixels)@.len(), |i: int| 0u32));
}

/// Buffers of this size have a byte size that fits in `i32`, as shared
/// memory buffers must.
pub open spec fn buffer_ok(buffer_width: int, buffer_height: int) -> bool {
    buffer_width <= 0 || buffer_height <= 0 || 4 * buffer_width * buffer_height <= i32::MAX
}

/// Pixel `i` of a buffer `bw` wide lies in the rectangle `[x0, x1) x [y0, y1)`.
pub open spec fn in_box(bw: int, x0: int, x1: int, y0: int, y1: int, i: int) -> bool {
    bw > 0 && i >= 0 && y0 <= i / bw < y1 && x0 <= i % bw < x1
}

/// Pixel `i` is covered by the rectangle `(x, y, w, h)` clipped to the buffer.
pub open spec fn in_rect(bw: int, bh: int, x: int, y: int, w: int, h: int, i: int) -> bool {
    w > 0 && h > 0 && in_box(
        bw,
        arith::max_int(x, 0),
        arith::min_int(x + w, bw),
        arith::max_int(y, 0),
        arith::min_int(y + h, bh),
        i,
    )
}

/// The buffer after filling the clipped rectangle with `color`.
pub open spec fn spec_fill(pixels: Seq<u32>, bw: int, bh: int, x: int, y: int, w: int, h: int, color: u32) -> Seq<u32> {
    Seq::new(pixels.len(), |i: int| if in_rect(bw, bh, x, y, w, h, i) { color } else { pixels[i] })
}

/// A rectangle with its fill colour.
pub struct Paint {
    pub x: int,
    pub y: int,
    pub w: int,
    pub h: int,
    pub color: u32,
}

/// The buffer after filling each rectangle in turn.
pub open spec fn spec_paint(pixels: Seq<u32>, bw: int, bh: int, rects: Seq<Paint>) -> Seq<u32>
    decreases rects.len(),
{
    if rects.len() == 0 {
        pixels
    } else {
        let r = rects.last();
        spec_fill(spec_paint(pixels, bw, bh, rects.drop_last()), bw, bh, r.x, r.y, r.w, r.h, r.color)
    }
}

/// Painting one more rectangle fills it over what was painted before.
pub proof fn lemma_paint_push(pixels: Seq<u32>, bw: int, bh: int, rects: Seq<Paint>, r: Paint)
    ensures
        spec_paint(pixels, bw, bh, rects.push(r)) == spec_fill(
            spec_paint(pixels, bw, bh, rects),
            bw,
            bh,
            r.x,
            r.y,
            r.w,
            r.h,
            r.color,
        ),
{
    assert(rects.push(r).drop_last() == rects);
}

pub(crate) proof fn lemma_index(i: int, bw: int, r: int, c: int)
    requires
        bw > 0,
        0 <= c < bw,
        r >= 0,
        i >= 0,
    ensures
        (i == r * bw + c) <==> (i / bw == r && i % bw == c),
{
    if i == r * bw + c {
        vstd::arithmetic::div_mod::lemma_fundamental_div_mod_converse(i, bw, r, c);
    }
    if i / bw == r && i % bw == c {
        vstd::arithmetic::div_mod::lemma_fundamental_div_mod(i, bw);
        assert(bw * r == r * bw) by (nonlinear_arith);
    }
}

/// Fill the part of the rectangle `(x, y, width, height)` that lies in the
/// buffer with `color_argb`; every other pixel keeps its value.
pub fn fill_rect(
    pixels: &mut Vec<u32>,
    buffer_width: i32,
    buffer_height: i32,
    x: i32,
    y: i32,
    width: i32,
    height: i32,
    color_argb: u32,
)
    requires
        arith::fits_i32(x + width),
        arith::fits_i32(y + height),
        buffer_ok(buffer_width as int, buffer_height as int),
    ensures
        final(pixels)@ == spec_fill(
            old(pixels)@,
            buffer_width as int,
            buffer_height as int,
            x as int,
            y as int,
            width as int,
            height as int,
            color_argb,
        ),
{
    let ghost goal = spec_fill(
        old(pixels)@,
        buffer_width as int,
        buffer_height as int,
        x as int,
        y as int,
        width as int,
        height as int,
        color_argb,
    );
    if width <= 0 || height <= 0 {
        assert(pixels@ == goal);
        return;
    }
    let x0 = if x > 0 { x } else { 0 };
    let y0 = if y > 0 { y } else { 0 };
    let x1 = if x + width < buffer_width { x + width } else { buffer_width };
    let y1 = if y + height < buffer_height { y + height } else { buffer_height };
    if x1 <= x0 || y1 <= y0 {
        assert(pixels@ == goal);
        return;
    }
    let bw = buffer_width;
    let len = pixels.len();
    let ghost old_px = old(pixels)@;
    let mut row = y0;
    while row < y1
        invariant
            0 <= y0 <= row <= y1 <= buffer_height,
            0 <= x0 < x1 <= bw,
            bw == buffer_width,
            buffer_ok(bw as int, buffer_height as int),
            len == pixels@.len(),
            len == old_px.len(),
            pixels@ == Seq::new(
                old_px.len(),
                |i: int| if in_box(bw as int, x0 as int, x1 as int, y0 as int, row as int, i) { color_argb } else { old_px[i] },
            ),
        decreases y1 - row,
    {
        let mut col = x0;
        while col < x1
            invariant
                0 <= y0 <= row < y1 <= buffer_height,
                0 <= x0 <= col <= x1 <= bw,
                bw == buffer_width,
                buffer_ok(bw as int, buffer_height as int),
                len == pixels@.len(),
                len == old_px.len(),
                pixels@ == Seq::new(
                    old_px.len(),
                    |i: int|
                        if in_box(bw as int, x0 as int, x1 as int, y0 as int, row as int, i) || in_box(
                            bw as int,
                            x0 as int,
                            col as int,
                            row as int,
                            row + 1,
                            i,
                        ) {
                            color_argb
                        } else {
                            old_px[i]
                        },
                ),
            decreases x1 - col,
        {
            assert(row * bw + col < 4 * bw * buffer_height) by (nonlinear_arith)
                requires
                    0 <= row < buffer_height,
                    0 <= col < bw,
            ;
            let offset = row * bw + col;
            let ghost before = pixels@;
            let idx = offset as usize;
            if idx < len {
                pixels.set(idx, color_argb);
            }
            let ghost next = Seq::new(
                old_px.len(),
                |i: int|
                    if in_box(bw as int, x0 as int, x1 as int, y0 as int, row as int, i) || in_box(
                        bw as int,
                        x0 as int,
                        col + 1,
                        row as int,
                        row + 1,
                        i,
                    ) {
                        color_argb
                    } else {
                        old_px[i]
                    },
            );
            assert forall|i: int| 0 <= i < len implies pixels@[i] == next[i] by {
                lemma_index(i, bw as int, row as int, col as int);
            }
            assert(pixels@ == next);
            col = col + 1;
        }
        let ghost next_rows = Seq::new(
            old_px.len(),
            |i: int| if in_box(bw as int, x0 as int, x1 as int, y0 as int, row + 1, i) { color_argb } else { old_px[i] },
        );
        assert(pixels@ == next_rows);
        row = row + 1;
    }
    assert(pixels@ == goal);
}

} // verus!
