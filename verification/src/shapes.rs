//! Shapes drawn from filled rectangles: borders, bevels, glyphs, shadows.
//!
//! Each shape is stated as the list of rectangles it fills, in order.

use vstd::prelude::*;
use crate::arith;
use crate::pixels;
use crate::pixels::Paint;

verus! {

pub open spec fn paint(x: int, y: int, w: int, h: int, color: u32) -> Paint {
    Paint { x, y, w, h, color }
}

/// The rectangle can be filled within `i32` arithmetic.
pub open spec fn rect_fits(x: int, y: int, w: int, h: int) -> bool {
    arith::fits_i32(x) && arith::fits_i32(y) && arith::fits_i32(w) && arith::fits_i32(h) && arith::fits_i32(x + w)
        && arith::fits_i32(y + h)
}

/// Fill one more rectangle on top of the rectangles painted so far.
pub fn fill_more(
    pixels: &mut Vec<u32>,
    bw: i32,
    bh: i32,
    x: i32,
    y: i32,
    w: i32,
    h: i32,
    color: u32,
    Ghost(base): Ghost<Seq<u32>>,
    Ghost(done): Ghost<Seq<Paint>>,
)
    requires
        old(pixels)@ == pixels::spec_paint(base, bw as int, bh as int, done),
        arith::fits_i32(x + w),
        arith::fits_i32(y + h),
        pixels::buffer_ok(bw as int, bh as int),
    ensures
        final(pixels)@ == pixels::spec_paint(base, bw as int, bh as int, done.push(paint(x as int, y as int, w as int, h as int, color))),
{
    pixels::fill_rect(pixels, bw, bh, x, y, w, h, color);
    proof {
        pixels::lemma_paint_push(base, bw as int, bh as int, done, paint(x as int, y as int, w as int, h as int, color));
    }
}

/// Size of one glyph unit: the button size over the titlebar height, at least 1.
pub open spec fn unit_of(size: int, titlebar_height: int) -> int {
    arith::max_int(arith::tdiv(size, arith::max_int(titlebar_height, 1)), 1)
}

fn unit(size: i32, titlebar_height: i32) -> (u: i32)
    ensures
        u == unit_of(size as int, titlebar_height as int),
        1 <= u,
        u <= arith::max_int(size as int, 1),
        size >= 0 ==> u <= arith::max_int(size as int, 1),
{
    let t = if titlebar_height > 1 { titlebar_height } else { 1 };
    proof {
        arith::lemma_tdiv_bounds(size as int, t as int);
    }
    let q = size / t;
    if q > 1 { q } else { 1 }
}

/// Rectangles of one layer of a frame border, `offset` in from the buffer
/// edge and `thickness` wide.
pub open spec fn border_layer_rects(bw: int, bh: int, offset: int, t: int, color: u32) -> Seq<Paint> {
    let lw = bw - offset * 2;
    let lh = bh - offset * 2;
    if t <= 0 || lw <= 0 || lh <= 0 {
        seq![]
    } else {
        let c = pixels::spec_rgba_to_argb(color);
        seq![
            paint(offset, offset, lw, t, c),
            paint(offset, offset + lh - t, lw, t, c),
            paint(offset, offset + t, t, lh - t * 2, c),
            paint(offset + lw - t, offset + t, t, lh - t * 2, c),
        ]
    }
}

pub open spec fn border_layer_fits(bw: int, bh: int, offset: int, t: int) -> bool {
    let lw = bw - offset * 2;
    let lh = bh - offset * 2;
    &&& arith::fits_i32(offset * 2)
    &&& arith::fits_i32(lw)
    &&& arith::fits_i32(lh)
    &&& (t > 0 && lw > 0 && lh > 0) ==> {
        &&& arith::fits_i32(offset + lh)
        &&& arith::fits_i32(offset + lh - t)
        &&& arith::fits_i32(offset + t)
        &&& arith::fits_i32(t * 2)
        &&& arith::fits_i32(lh - t * 2)
        &&& arith::fits_i32(offset + lw)
        &&& arith::fits_i32(offset + lw - t)
        &&& rect_fits(offset, offset, lw, t)
        &&& rect_fits(offset, offset + lh - t, lw, t)
        &&& rect_fits(offset, offset + t, t, lh - t * 2)
        &&& rect_fits(offset + lw - t, offset + t, t, lh - t * 2)
    }
}

/// Draw one layer of a frame border in the RGBA colour `color`.
pub fn draw_border_layer(
    pixels: &mut Vec<u32>,
    buffer_width: i32,
    buffer_height: i32,
    offset: i32,
    thickness: i32,
    color: u32,
)
    requires
        pixels::buffer_ok(buffer_width as int, buffer_height as int),
        border_layer_fits(buffer_width as int, buffer_height as int, offset as int, thickness as int),
    ensures
        final(pixels)@ == pixels::spec_paint(
            old(pixels)@,
            buffer_width as int,
            buffer_height as int,
            border_layer_rects(buffer_width as int, buffer_height as int, offset as int, thickness as int, color),
        ),
{
    let ghost base = pixels@;
    if thickness <= 0 {
        return;
    }
    let layer_width = buffer_width - offset * 2;
    let layer_height = buffer_height - offset * 2;
    if layer_width <= 0 || layer_height <= 0 {
        return;
    }
    let argb = pixels::rgba_to_argb(color);
    let (bw, bh) = (buffer_width, buffer_height);
    let ghost mut done: Seq<Paint> = Seq::empty();
    let (o, t, lw, lh) = (offset, thickness, layer_width, layer_height);
    fill_more(pixels, bw, bh, o, o, lw, t, argb, Ghost(base), Ghost(done));
    proof { done = done.push(paint(o as int, o as int, lw as int, t as int, argb)); }
    fill_more(pixels, bw, bh, o, o + lh - t, lw, t, argb, Ghost(base), Ghost(done));
    proof { done = done.push(paint(o as int, o + lh - t, lw as int, t as int, argb)); }
    fill_more(pixels, bw, bh, o, o + t, t, lh - t * 2, argb, Ghost(base), Ghost(done));
    proof { done = done.push(paint(o as int, o + t, t as int, lh - t * 2, argb)); }
    fill_more(pixels, bw, bh, o + lw - t, o + t, t, lh - t * 2, argb, Ghost(base), Ghost(done));
    proof { done = done.push(paint(o + lw - t, o + t, t as int, lh - t * 2, argb)); }
    assert(done == border_layer_rects(buffer_width as int, buffer_height as int, offset as int, thickness as int, color));
}

/// A vertical line one unit wide at `x`, as tall as `height`; nothing
/// when `x` is negative.
pub open spec fn left_border_rects(x: int, y: int, height: int, color: u32, titlebar_height: int) -> Seq<Paint> {
    if x < 0 {
        seq![]
    } else {
        seq![paint(x, y, unit_of(height, titlebar_height), height, color)]
    }
}

pub fn draw_left_border(
    pixels: &mut Vec<u32>,
    buffer_width: i32,
    buffer_height: i32,
    x: i32,
    y: i32,
    height: i32,
    color_argb: u32,
    titlebar_height: i32,
)
    requires
        pixels::buffer_ok(buffer_width as int, buffer_height as int),
        x >= 0 ==> rect_fits(x as int, y as int, unit_of(height as int, titlebar_height as int), height as int),
    ensures
        final(pixels)@ == pixels::spec_paint(
            old(pixels)@,
            buffer_width as int,
            buffer_height as int,
            left_border_rects(x as int, y as int, height as int, color_argb, titlebar_height as int),
        ),
{
    let ghost base = pixels@;
    if x < 0 {
        return;
    }
    let u = unit(height, titlebar_height);
    fill_more(pixels, buffer_width, buffer_height, x, y, u, height, color_argb, Ghost(base), Ghost(Seq::empty()));
    assert(Seq::<Paint>::empty().push(paint(x as int, y as int, u as int, height as int, color_argb))
        == left_border_rects(x as int, y as int, height as int, color_argb, titlebar_height as int));
}

/// The close glyph: a horizontal bar across the middle of the button,
/// six units in from either side.
pub open spec fn glyph_close_rects(x: int, y: int, size: int, color: u32, titlebar_height: int) -> Seq<Paint> {
    let u = unit_of(size, titlebar_height);
    let inner = arith::max_int(size - 2 * u, 1);
    let line_y = y + u + arith::tdiv(inner - u, 2);
    let line_w = size - 12 * u;
    if line_w > 0 {
        seq![paint(x + 6 * u, line_y, line_w, u, color)]
    } else {
        seq![]
    }
}

pub open spec fn glyph_close_fits(x: int, y: int, size: int, titlebar_height: int) -> bool {
    let u = unit_of(size, titlebar_height);
    let inner = arith::max_int(size - 2 * u, 1);
    let line_y = y + u + arith::tdiv(inner - u, 2);
    &&& arith::fits_i32(2 * u)
    &&& arith::fits_i32(size - 2 * u)
    &&& arith::fits_i32(y + u)
    &&& arith::fits_i32(inner - u)
    &&& arith::fits_i32(line_y)
    &&& arith::fits_i32(6 * u)
    &&& arith::fits_i32(x + 6 * u)
    &&& arith::fits_i32(12 * u)
    &&& arith::fits_i32(size - 12 * u)
    &&& (size - 12 * u > 0 ==> rect_fits(x + 6 * u, line_y, size - 12 * u, u))
}

pub fn draw_glyph_close(
    pixels: &mut Vec<u32>,
    buffer_width: i32,
    buffer_height: i32,
    x: i32,
    y: i32,
    size: i32,
    color_argb: u32,
    titlebar_height: i32,
)
    requires
        pixels::buffer_ok(buffer_width as int, buffer_height as int),
        glyph_close_fits(x as int, y as int, size as int, titlebar_height as int),
    ensures
        final(pixels)@ == pixels::spec_paint(
            old(pixels)@,
            buffer_width as int,
            buffer_height as int,
            glyph_close_rects(x as int, y as int, size as int, color_argb, titlebar_height as int),
        ),
{
    let ghost base = pixels@;
    let u = unit(size, titlebar_height);
    let inner_size = if size - 2 * u > 1 { size - 2 * u } else { 1 };
    let line_y = y + u + (inner_size - u) / 2;
    let line_x = x + 6 * u;
    let line_w = size - 12 * u;
    if line_w > 0 {
        fill_more(pixels, buffer_width, buffer_height, line_x, line_y, line_w, u, color_argb, Ghost(base), Ghost(Seq::empty()));
        assert(Seq::<Paint>::empty().push(paint(line_x as int, line_y as int, line_w as int, u as int, color_argb))
            == glyph_close_rects(x as int, y as int, size as int, color_argb, titlebar_height as int));
    }
}

/// A raised (or, when pressed, sunken) square button: background, light
/// top and left edges, dark bottom and right edges.
pub open spec fn bevel_rects(x: int, y: int, size: int, bg: u32, shadow: u32, pressed: bool, titlebar_height: int) -> Seq<Paint> {
    let u = unit_of(size, titlebar_height);
    let white = 0xFFFFFFFFu32;
    let light = if pressed { shadow } else { white };
    let dark = if pressed { white } else { shadow };
    let first = seq![paint(x, y, size, size, bg), paint(x, y, size, u, light), paint(x, y, u, size, light)];
    let inner = if size >= 3 * u {
        seq![paint(x, y + size - 2 * u, size - u, u, dark), paint(x + size - 2 * u, y + u, u, size - 2 * u, dark)]
    } else {
        seq![]
    };
    let last = seq![paint(x, y + size - u, size - u, u, dark), paint(x + size - u, y + u, u, size - 2 * u, dark)];
    first + inner + last
}

pub open spec fn bevel_fits(x: int, y: int, size: int, titlebar_height: int) -> bool {
    let u = unit_of(size, titlebar_height);
    &&& arith::fits_i32(3 * u)
    &&& arith::fits_i32(2 * u)
    &&& arith::fits_i32(y + size)
    &&& arith::fits_i32(y + size - 2 * u)
    &&& arith::fits_i32(y + size - u)
    &&& arith::fits_i32(size - u)
    &&& arith::fits_i32(x + size)
    &&& arith::fits_i32(x + size - 2 * u)
    &&& arith::fits_i32(x + size - u)
    &&& arith::fits_i32(y + u)
    &&& arith::fits_i32(size - 2 * u)
    &&& rect_fits(x, y, size, size)
    &&& rect_fits(x, y, size, u)
    &&& rect_fits(x, y, u, size)
    &&& (size >= 3 * u ==> rect_fits(x, y + size - 2 * u, size - u, u) && rect_fits(x + size - 2 * u, y + u, u, size - 2 * u))
    &&& rect_fits(x, y + size - u, size - u, u)
    &&& rect_fits(x + size - u, y + u, u, size - 2 * u)
}

pub fn draw_button_bevel(
    pixels: &mut Vec<u32>,
    buffer_width: i32,
    buffer_height: i32,
    x: i32,
    y: i32,
    size: i32,
    bg_argb: u32,
    shadow_argb: u32,
    pressed: bool,
    titlebar_height: i32,
)
    requires
        pixels::buffer_ok(buffer_width as int, buffer_height as int),
        bevel_fits(x as int, y as int, size as int, titlebar_height as int),
    ensures
        final(pixels)@ == pixels::spec_paint(
            old(pixels)@,
            buffer_width as int,
            buffer_height as int,
            bevel_rects(x as int, y as int, size as int, bg_argb, shadow_argb, pressed, titlebar_height as int),
        ),
{
    let ghost base = pixels@;
    let (bw, bh) = (buffer_width, buffer_height);
    let u = unit(size, titlebar_height);
    let white = pixels::rgba_to_argb(0xFFFFFFFF);
    assert(pixels::spec_rgba_to_argb(0xFFFFFFFFu32) == 0xFFFFFFFFu32) by (bit_vector);
    let (light, dark) = if pressed { (shadow_argb, white) } else { (white, shadow_argb) };
    let ghost mut done: Seq<Paint> = Seq::empty();
    fill_more(pixels, bw, bh, x, y, size, size, bg_argb, Ghost(base), Ghost(done));
    proof { done = done.push(paint(x as int, y as int, size as int, size as int, bg_argb)); }
    fill_more(pixels, bw, bh, x, y, size, u, light, Ghost(base), Ghost(done));
    proof { done = done.push(paint(x as int, y as int, size as int, u as int, light)); }
    fill_more(pixels, bw, bh, x, y, u, size, light, Ghost(base), Ghost(done));
    proof { done = done.push(paint(x as int, y as int, u as int, size as int, light)); }
    let ghost first = done;
    if size >= 3 * u {
        fill_more(pixels, bw, bh, x, y + size - 2 * u, size - u, u, dark, Ghost(base), Ghost(done));
        proof { done = done.push(paint(x as int, y + size - 2 * u, size - u, u as int, dark)); }
        fill_more(pixels, bw, bh, x + size - 2 * u, y + u, u, size - 2 * u, dark, Ghost(base), Ghost(done));
        proof { done = done.push(paint(x + size - 2 * u, y + u, u as int, size - 2 * u, dark)); }
    }
    let ghost middle = done;
    fill_more(pixels, bw, bh, x, y + size - u, size - u, u, dark, Ghost(base), Ghost(done));
    proof { done = done.push(paint(x as int, y + size - u, size - u, u as int, dark)); }
    fill_more(pixels, bw, bh, x + size - u, y + u, u, size - 2 * u, dark, Ghost(base), Ghost(done));
    proof { done = done.push(paint(x + size - u, y + u, u as int, size - 2 * u, dark)); }
    assert(done == bevel_rects(x as int, y as int, size as int, bg_argb, shadow_argb, pressed, titlebar_height as int));
}

/// Geometry shared by the caret glyphs.
pub open spec fn caret_span(titlebar_height: int) -> int {
    arith::max_int(arith::tdiv(titlebar_height, 4), 2)
}

/// Row `i` of a caret: a run centred on `mid_x`, growing by one unit on
/// each side per row (upwards caret) or shrinking (downwards caret).
pub open spec fn caret_row(mid_x: int, top_y: int, u: int, span: int, down: bool, i: int, color: u32) -> Paint {
    let k = if down { span - i } else { i };
    paint(mid_x - k * u, top_y + i * u, u + k * 2 * u, u, color)
}

pub open spec fn caret_rows(mid_x: int, top_y: int, u: int, span: int, down: bool, color: u32) -> Seq<Paint> {
    Seq::new((span + 1) as nat, |i: int| caret_row(mid_x, top_y, u, span, down, i, color))
}

pub open spec fn caret_top(y: int, size: int, u: int, span: int, extra: int) -> int {
    let glyph_px = (span * 2 + 1) * u;
    let inner = arith::max_int(size - 2 * u, 1);
    y + u + arith::tdiv(inner - glyph_px, 2) + extra * u
}

pub open spec fn glyph_caret_rects(x: int, y: int, size: int, color: u32, down: bool, titlebar_height: int) -> Seq<Paint> {
    let u = unit_of(size, titlebar_height);
    let span = caret_span(titlebar_height);
    caret_rows(x + arith::tdiv(size, 2), caret_top(y, size, u, span, 4), u, span, down, color)
}

/// All values computed while drawing the rows of a caret fit in `i32`.
pub open spec fn caret_row_fits(mid_x: int, top_y: int, u: int, span: int, down: bool, i: int) -> bool {
    let k = if down { span - i } else { i };
    &&& arith::fits_i32(i * u)
    &&& arith::fits_i32(top_y + i * u)
    &&& arith::fits_i32(span - i)
    &&& arith::fits_i32(i * 2)
    &&& arith::fits_i32(k * 2)
    &&& arith::fits_i32(k * 2 * u)
    &&& arith::fits_i32(u + k * 2 * u)
    &&& arith::fits_i32(k * u)
    &&& arith::fits_i32(mid_x - k * u)
    &&& rect_fits(mid_x - k * u, top_y + i * u, u + k * 2 * u, u)
}

/// All values computed while drawing the rows of a caret fit in `i32`.
pub open spec fn caret_rows_fit(mid_x: int, top_y: int, u: int, span: int, down: bool) -> bool {
    forall|i: int| 0 <= i <= span ==> #[trigger] caret_row_fits(mid_x, top_y, u, span, down, i)
}

pub open spec fn caret_setup_fits(x: int, y: int, size: int, u: int, span: int, extra: int) -> bool {
    let glyph_px = (span * 2 + 1) * u;
    let inner = arith::max_int(size - 2 * u, 1);
    &&& arith::fits_i32(span * 2 + 1)
    &&& arith::fits_i32(glyph_px)
    &&& arith::fits_i32(2 * u)
    &&& arith::fits_i32(size - 2 * u)
    &&& arith::fits_i32(y + u)
    &&& arith::fits_i32(inner - glyph_px)
    &&& arith::fits_i32(y + u + arith::tdiv(inner - glyph_px, 2))
    &&& arith::fits_i32(extra * u)
    &&& arith::fits_i32(caret_top(y, size, u, span, extra))
    &&& arith::fits_i32(x + arith::tdiv(size, 2))
}

pub open spec fn glyph_caret_fits(x: int, y: int, size: int, down: bool, titlebar_height: int) -> bool {
    let u = unit_of(size, titlebar_height);
    let span = caret_span(titlebar_height);
    &&& caret_setup_fits(x, y, size, u, span, 4)
    &&& caret_rows_fit(x + arith::tdiv(size, 2), caret_top(y, size, u, span, 4), u, span, down)
}

fn caret_span_of(titlebar_height: i32) -> (s: i32)
    ensures
        s == caret_span(titlebar_height as int),
        2 <= s <= 0x2000_0000,
{
    let q = titlebar_height / 4;
    if q > 2 { q } else { 2 }
}

/// Draw the rows of a caret on top of what is painted so far.
fn draw_caret_rows(
    pixels: &mut Vec<u32>,
    bw: i32,
    bh: i32,
    mid_x: i32,
    top_y: i32,
    u: i32,
    span: i32,
    down: bool,
    color: u32,
    Ghost(base): Ghost<Seq<u32>>,
    Ghost(done): Ghost<Seq<Paint>>,
)
    requires
        old(pixels)@ == pixels::spec_paint(base, bw as int, bh as int, done),
        pixels::buffer_ok(bw as int, bh as int),
        0 <= span <= 0x2000_0000,
        caret_rows_fit(mid_x as int, top_y as int, u as int, span as int, down),
    ensures
        final(pixels)@ == pixels::spec_paint(
            base,
            bw as int,
            bh as int,
            done + caret_rows(mid_x as int, top_y as int, u as int, span as int, down, color),
        ),
{
    let ghost rows = caret_rows(mid_x as int, top_y as int, u as int, span as int, down, color);
    let mut i: i32 = 0;
    while i <= span
        invariant
            0 <= i <= span + 1,
            0 <= span <= 0x2000_0000,
            caret_rows_fit(mid_x as int, top_y as int, u as int, span as int, down),
            pixels::buffer_ok(bw as int, bh as int),
            rows == caret_rows(mid_x as int, top_y as int, u as int, span as int, down, color),
            pixels@ == pixels::spec_paint(base, bw as int, bh as int, done + rows.subrange(0, i as int)),
        decreases span + 1 - i,
    {
        assert(caret_row_fits(mid_x as int, top_y as int, u as int, span as int, down, i as int));
        let row = top_y + i * u;
        let (start, width) = if down {
            let w = u + (span - i) * 2 * u;
            (mid_x - (span - i) * u, w)
        } else {
            let w = u + i * 2 * u;
            (mid_x - i * u, w)
        };
        fill_more(pixels, bw, bh, start, row, width, u, color, Ghost(base), Ghost(done + rows.subrange(0, i as int)));
        assert(done + rows.subrange(0, i + 1) == (done + rows.subrange(0, i as int)).push(rows[i as int]));
        i = i + 1;
    }
    assert(rows.subrange(0, span + 1) == rows);
}

pub fn draw_glyph_caret(
    pixels: &mut Vec<u32>,
    buffer_width: i32,
    buffer_height: i32,
    x: i32,
    y: i32,
    size: i32,
    color_argb: u32,
    down: bool,
    titlebar_height: i32,
)
    requires
        pixels::buffer_ok(buffer_width as int, buffer_height as int),
        glyph_caret_fits(x as int, y as int, size as int, down, titlebar_height as int),
    ensures
        final(pixels)@ == pixels::spec_paint(
            old(pixels)@,
            buffer_width as int,
            buffer_height as int,
            glyph_caret_rects(x as int, y as int, size as int, color_argb, down, titlebar_height as int),
        ),
{
    let ghost base = pixels@;
    let u = unit(size, titlebar_height);
    let span = caret_span_of(titlebar_height);
    let glyph_height = span * 2 + 1;
    let glyph_height_px = glyph_height * u;
    let inner_size = if size - 2 * u > 1 { size - 2 * u } else { 1 };
    let top_y = y + u + (inner_size - glyph_height_px) / 2 + 4 * u;
    let mid_x = x + size / 2;
    draw_caret_rows(pixels, buffer_width, buffer_height, mid_x, top_y, u, span, down, color_argb, Ghost(base), Ghost(Seq::empty()));
    assert(Seq::<Paint>::empty() + glyph_caret_rects(x as int, y as int, size as int, color_argb, down, titlebar_height as int)
        == glyph_caret_rects(x as int, y as int, size as int, color_argb, down, titlebar_height as int));
}

/// The restore glyph: an upwards caret above a downwards one.
pub open spec fn glyph_caret_pair_rects(x: int, y: int, size: int, color: u32, titlebar_height: int) -> Seq<Paint> {
    let u = unit_of(size, titlebar_height);
    let span = caret_span(titlebar_height);
    let glyph_px = (span * 2 + 1) * u;
    let inner = arith::max_int(size - 2 * u, 1);
    let total = glyph_px * 2 + u;
    let top_y = y + u + arith::tdiv(inner - total, 2) + 5 * u;
    let down_top = top_y + glyph_px + u - 5 * u;
    let mid_x = x + arith::tdiv(size, 2);
    caret_rows(mid_x, top_y, u, span, false, color) + caret_rows(mid_x, down_top, u, span, true, color)
}

pub open spec fn glyph_caret_pair_fits(x: int, y: int, size: int, titlebar_height: int) -> bool {
    let u = unit_of(size, titlebar_height);
    let span = caret_span(titlebar_height);
    let glyph_px = (span * 2 + 1) * u;
    let inner = arith::max_int(size - 2 * u, 1);
    let total = glyph_px * 2 + u;
    let top_y = y + u + arith::tdiv(inner - total, 2) + 5 * u;
    let down_top = top_y + glyph_px + u - 5 * u;
    let mid_x = x + arith::tdiv(size, 2);
    &&& arith::fits_i32(span * 2 + 1)
    &&& arith::fits_i32(glyph_px)
    &&& arith::fits_i32(2 * u)
    &&& arith::fits_i32(size - 2 * u)
    &&& arith::fits_i32(glyph_px * 2)
    &&& arith::fits_i32(total)
    &&& arith::fits_i32(y + u)
    &&& arith::fits_i32(inner - total)
    &&& arith::fits_i32(y + u + arith::tdiv(inner - total, 2))
    &&& arith::fits_i32(5 * u)
    &&& arith::fits_i32(top_y)
    &&& arith::fits_i32(mid_x)
    &&& arith::fits_i32(top_y + glyph_px)
    &&& arith::fits_i32(top_y + glyph_px + u)
    &&& arith::fits_i32(down_top)
    &&& caret_rows_fit(mid_x, top_y, u, span, false)
    &&& caret_rows_fit(mid_x, down_top, u, span, true)
}

pub fn draw_glyph_caret_pair(
    pixels: &mut Vec<u32>,
    buffer_width: i32,
    buffer_height: i32,
    x: i32,
    y: i32,
    size: i32,
    color_argb: u32,
    titlebar_height: i32,
)
    requires
        pixels::buffer_ok(buffer_width as int, buffer_height as int),
        glyph_caret_pair_fits(x as int, y as int, size as int, titlebar_height as int),
    ensures
        final(pixels)@ == pixels::spec_paint(
            old(pixels)@,
            buffer_width as int,
            buffer_height as int,
            glyph_caret_pair_rects(x as int, y as int, size as int, color_argb, titlebar_height as int),
        ),
{
    let ghost base = pixels@;
    let u = unit(size, titlebar_height);
    let span = caret_span_of(titlebar_height);
    let glyph_height = span * 2 + 1;
    let glyph_height_px = glyph_height * u;
    let inner_size = if size - 2 * u > 1 { size - 2 * u } else { 1 };
    let gap = u;
    let total_height = glyph_height_px * 2 + gap;
    let top_y = y + u + (inner_size - total_height) / 2 + 5 * u;
    let mid_x = x + size / 2;
    draw_caret_rows(pixels, buffer_width, buffer_height, mid_x, top_y, u, span, false, color_argb, Ghost(base), Ghost(Seq::empty()));
    let ghost ups = caret_rows(mid_x as int, top_y as int, u as int, span as int, false, color_argb);
    assert(Seq::<Paint>::empty() + ups == ups);
    let down_top = top_y + glyph_height_px + gap - 5 * u;
    draw_caret_rows(pixels, buffer_width, buffer_height, mid_x, down_top, u, span, true, color_argb, Ghost(base), Ghost(ups));
}

/// Menu shadow offset and thickness
pub const SHADOW_SIZE: i32 = 3;

/// A one-pixel outline of the rectangle.
pub open spec fn border_rect_rects(x: int, y: int, w: int, h: int, color: u32) -> Seq<Paint> {
    if w <= 0 || h <= 0 {
        seq![]
    } else {
        seq![paint(x, y, w, 1, color), paint(x, y + h - 1, w, 1, color), paint(x, y, 1, h, color), paint(x + w - 1, y, 1, h, color)]
    }
}

pub open spec fn border_rect_fits(x: int, y: int, w: int, h: int) -> bool {
    (w > 0 && h > 0) ==> {
        &&& arith::fits_i32(y + h)
        &&& arith::fits_i32(y + h - 1)
        &&& arith::fits_i32(x + w)
        &&& arith::fits_i32(x + w - 1)
        &&& rect_fits(x, y, w, 1)
        &&& rect_fits(x, y + h - 1, w, 1)
        &&& rect_fits(x, y, 1, h)
        &&& rect_fits(x + w - 1, y, 1, h)
    }
}

pub fn draw_border_rect(
    pixels: &mut Vec<u32>,
    buffer_width: i32,
    buffer_height: i32,
    x: i32,
    y: i32,
    width: i32,
    height: i32,
    color_argb: u32,
)
    requires
        pixels::buffer_ok(buffer_width as int, buffer_height as int),
        border_rect_fits(x as int, y as int, width as int, height as int),
    ensures
        final(pixels)@ == pixels::spec_paint(
            old(pixels)@,
            buffer_width as int,
            buffer_height as int,
            border_rect_rects(x as int, y as int, width as int, height as int, color_argb),
        ),
{
    let ghost base = pixels@;
    if width <= 0 || height <= 0 {
        return;
    }
    let (bw, bh, c) = (buffer_width, buffer_height, color_argb);
    let ghost mut done: Seq<Paint> = Seq::empty();
    fill_more(pixels, bw, bh, x, y, width, 1, c, Ghost(base), Ghost(done));
    proof { done = done.push(paint(x as int, y as int, width as int, 1, c)); }
    fill_more(pixels, bw, bh, x, y + height - 1, width, 1, c, Ghost(base), Ghost(done));
    proof { done = done.push(paint(x as int, y + height - 1, width as int, 1, c)); }
    fill_more(pixels, bw, bh, x, y, 1, height, c, Ghost(base), Ghost(done));
    proof { done = done.push(paint(x as int, y as int, 1, height as int, c)); }
    fill_more(pixels, bw, bh, x + width - 1, y, 1, height, c, Ghost(base), Ghost(done));
    proof { done = done.push(paint(x + width - 1, y as int, 1, height as int, c)); }
    assert(done == border_rect_rects(x as int, y as int, width as int, height as int, color_argb));
}

/// A drop shadow below and to the right of a menu.
pub open spec fn shadow_rects(menu_width: int, menu_height: int, color: u32) -> Seq<Paint> {
    if menu_width <= 0 || menu_height <= 0 {
        seq![]
    } else {
        seq![
            paint(SHADOW_SIZE as int, menu_height, menu_width, SHADOW_SIZE as int, color),
            paint(menu_width, SHADOW_SIZE as int, SHADOW_SIZE as int, menu_height, color),
        ]
    }
}

pub fn draw_shadow(
    pixels: &mut Vec<u32>,
    buffer_width: i32,
    buffer_height: i32,
    menu_width: i32,
    menu_height: i32,
    color_argb: u32,
)
    requires
        pixels::buffer_ok(buffer_width as int, buffer_height as int),
        menu_width > 0 && menu_height > 0 ==> arith::fits_i32(menu_width + SHADOW_SIZE) && arith::fits_i32(
            menu_height + SHADOW_SIZE,
        ),
    ensures
        final(pixels)@ == pixels::spec_paint(
            old(pixels)@,
            buffer_width as int,
            buffer_height as int,
            shadow_rects(menu_width as int, menu_height as int, color_argb),
        ),
{
    let ghost base = pixels@;
    if menu_width <= 0 || menu_height <= 0 {
        return;
    }
    let (bw, bh, c) = (buffer_width, buffer_height, color_argb);
    let ghost mut done: Seq<Paint> = Seq::empty();
    fill_more(pixels, bw, bh, SHADOW_SIZE, menu_height, menu_width, SHADOW_SIZE, c, Ghost(base), Ghost(done));
    proof { done = done.push(paint(SHADOW_SIZE as int, menu_height as int, menu_width as int, SHADOW_SIZE as int, c)); }
    fill_more(pixels, bw, bh, menu_width, SHADOW_SIZE, SHADOW_SIZE, menu_height, c, Ghost(base), Ghost(done));
    proof { done = done.push(paint(menu_width as int, SHADOW_SIZE as int, SHADOW_SIZE as int, menu_height as int, c)); }
    assert(done == shadow_rects(menu_width as int, menu_height as int, color_argb));
}

/// Number of dashes along a side of length `len`: one every four pixels.
pub open spec fn dash_count(len: int) -> int {
    if len <= 0 { 0 } else { (len + 3) / 4 }
}

/// Dashes two pixels long with two-pixel gaps along the top and bottom
/// edges (alternating), then along the left and right edges.
pub open spec fn dashed_rects(x: int, y: int, w: int, h: int, color: u32) -> Seq<Paint> {
    Seq::new(
        (2 * dash_count(w)) as nat,
        |j: int|
            {
                let k = j / 2;
                let seg = arith::min_int(w - 4 * k, 2);
                if j % 2 == 0 { paint(x + 4 * k, y, seg, 1, color) } else { paint(x + 4 * k, y + h - 1, seg, 1, color) }
            },
    ) + Seq::new(
        (2 * dash_count(h)) as nat,
        |j: int|
            {
                let k = j / 2;
                let seg = arith::min_int(h - 4 * k, 2);
                if j % 2 == 0 { paint(x, y + 4 * k, 1, seg, color) } else { paint(x + w - 1, y + 4 * k, 1, seg, color) }
            },
    )
}

pub open spec fn dashed_fits(x: int, y: int, w: int, h: int) -> bool {
    &&& arith::fits_i32(x + w)
    &&& arith::fits_i32(y + h)
    &&& arith::fits_i32(x + 4 * dash_count(w))
    &&& arith::fits_i32(y + 4 * dash_count(h))
    &&& arith::fits_i32(y + h - 1)
    &&& arith::fits_i32(x + w - 1)
    &&& arith::fits_i32(y + h - 1 + 1)
    &&& arith::fits_i32(x + w - 1 + 1)
    &&& (w > 0 ==> arith::fits_i32(y + 1))
    &&& (h > 0 ==> arith::fits_i32(x + 1))
}

proof fn lemma_dash_count(len: int, k: int)
    requires
        len > 0,
        k >= 0,
    ensures
        (4 * k < len) <==> (k < dash_count(len)),
{
}

fn draw_dashes(
    pixels: &mut Vec<u32>,
    bw: i32,
    bh: i32,
    x: i32,
    y: i32,
    width: i32,
    height: i32,
    color: u32,
    vertical: bool,
    Ghost(base): Ghost<Seq<u32>>,
    Ghost(done): Ghost<Seq<Paint>>,
) -> (added: Ghost<Seq<Paint>>)
    requires
        old(pixels)@ == pixels::spec_paint(base, bw as int, bh as int, done),
        pixels::buffer_ok(bw as int, bh as int),
        dashed_fits(x as int, y as int, width as int, height as int),
    ensures
        final(pixels)@ == pixels::spec_paint(base, bw as int, bh as int, done + added@),
        !vertical ==> added@ == dashed_rects(x as int, y as int, width as int, height as int, color).subrange(
            0,
            2 * dash_count(width as int),
        ),
        vertical ==> added@ == dashed_rects(x as int, y as int, width as int, height as int, color).subrange(
            2 * dash_count(width as int),
            2 * dash_count(width as int) + 2 * dash_count(height as int),
        ),
{
    let ghost all = dashed_rects(x as int, y as int, width as int, height as int, color);
    let ghost off: int = if vertical { 2 * dash_count(width as int) } else { 0 };
    let ghost len: int = if vertical { dash_count(height as int) } else { dash_count(width as int) };
    let (origin, extent) = if vertical { (y, height) } else { (x, width) };
    let mut p = origin;
    let ghost mut k: int = 0;
    let ghost mut added: Seq<Paint> = Seq::empty();
    while p < origin + extent
        invariant
            dashed_fits(x as int, y as int, width as int, height as int),
            pixels::buffer_ok(bw as int, bh as int),
            all == dashed_rects(x as int, y as int, width as int, height as int, color),
            off == (if vertical { 2 * dash_count(width as int) } else { 0 }),
            len == (if vertical { dash_count(height as int) } else { dash_count(width as int) }),
            origin == (if vertical { y } else { x }),
            extent == (if vertical { height } else { width }),
            0 <= k,
            extent > 0 ==> k <= len,
            extent <= 0 ==> k == 0,
            p == origin + 4 * k,
            added == all.subrange(off, off + 2 * k),
            pixels@ == pixels::spec_paint(base, bw as int, bh as int, done + added),
        decreases len - k,
    {
        proof {
            lemma_dash_count(extent as int, k);
        }
        let seg = if origin + extent - p < 2 { origin + extent - p } else { 2 };
        if vertical {
            fill_more(pixels, bw, bh, x, p, 1, seg, color, Ghost(base), Ghost(done + added));
            proof {
                assert(all[off + 2 * k] == paint(x as int, p as int, 1, seg as int, color));
                added = added.push(paint(x as int, p as int, 1, seg as int, color));
            }
            fill_more(pixels, bw, bh, x + width - 1, p, 1, seg, color, Ghost(base), Ghost(done + added));
            proof {
                assert(all[off + 2 * k + 1] == paint(x + width - 1, p as int, 1, seg as int, color));
                added = added.push(paint(x + width - 1, p as int, 1, seg as int, color));
            }
        } else {
            fill_more(pixels, bw, bh, p, y, seg, 1, color, Ghost(base), Ghost(done + added));
            proof {
                assert(all[off + 2 * k] == paint(p as int, y as int, seg as int, 1, color));
                added = added.push(paint(p as int, y as int, seg as int, 1, color));
            }
            fill_more(pixels, bw, bh, p, y + height - 1, seg, 1, color, Ghost(base), Ghost(done + added));
            proof {
                assert(all[off + 2 * k + 1] == paint(p as int, y + height - 1, seg as int, 1, color));
                added = added.push(paint(p as int, y + height - 1, seg as int, 1, color));
            }
        }
        proof {
            assert(added == all.subrange(off, off + 2 * (k + 1)));
            k = k + 1;
        }
        p = p + 4;
    }
    proof {
        if extent > 0 {
            lemma_dash_count(extent as int, k);
            lemma_dash_count(extent as int, k - 1);
        }
    }
    Ghost(added)
}

pub fn draw_dashed_rect(
    pixels: &mut Vec<u32>,
    buffer_width: i32,
    buffer_height: i32,
    x: i32,
    y: i32,
    width: i32,
    height: i32,
    color_argb: u32,
)
    requires
        pixels::buffer_ok(buffer_width as int, buffer_height as int),
        dashed_fits(x as int, y as int, width as int, height as int),
    ensures
        final(pixels)@ == pixels::spec_paint(
            old(pixels)@,
            buffer_width as int,
            buffer_height as int,
            dashed_rects(x as int, y as int, width as int, height as int, color_argb),
        ),
{
    let ghost base = pixels@;
    let ghost all = dashed_rects(x as int, y as int, width as int, height as int, color_argb);
    let hg = draw_dashes(pixels, buffer_width, buffer_height, x, y, width, height, color_argb, false, Ghost(base), Ghost(Seq::empty()));
    let ghost h = hg@;
    assert(Seq::<Paint>::empty() + h == h);
    let vg = draw_dashes(pixels, buffer_width, buffer_height, x, y, width, height, color_argb, true, Ghost(base), Ghost(h));
    let ghost v = vg@;
    assert(h + v == all);
}

/// A filled diamond `size` pixels across: row `r` is centred and
/// `size - 2 |size/2 - r|` wide (at least one pixel).
pub open spec fn diamond_rects(x: int, y: int, size: int, color: u32) -> Seq<Paint> {
    Seq::new(
        arith::max_int(size, 0) as nat,
        |row: int|
            {
                let d = arith::tdiv(size, 2) - row;
                let dist = if d >= 0 { d } else { -d };
                paint(x + dist, y + row, arith::max_int(size - dist * 2, 1), 1, color)
            },
    )
}

pub open spec fn diamond_row_fits(x: int, y: int, size: int, row: int) -> bool {
    let d = arith::tdiv(size, 2) - row;
    let dist = if d >= 0 { d } else { -d };
    &&& arith::fits_i32(dist * 2)
    &&& arith::fits_i32(size - dist * 2)
    &&& arith::fits_i32(x + dist)
    &&& arith::fits_i32(y + row)
    &&& rect_fits(x + dist, y + row, arith::max_int(size - dist * 2, 1), 1)
}

pub open spec fn diamond_fits(x: int, y: int, size: int) -> bool {
    forall|row: int| 0 <= row < size ==> #[trigger] diamond_row_fits(x, y, size, row)
}

pub fn draw_diamond(
    pixels: &mut Vec<u32>,
    buffer_width: i32,
    buffer_height: i32,
    x: i32,
    y: i32,
    size: i32,
    color_argb: u32,
)
    requires
        pixels::buffer_ok(buffer_width as int, buffer_height as int),
        diamond_fits(x as int, y as int, size as int),
    ensures
        final(pixels)@ == pixels::spec_paint(
            old(pixels)@,
            buffer_width as int,
            buffer_height as int,
            diamond_rects(x as int, y as int, size as int, color_argb),
        ),
{
    let ghost base = pixels@;
    let ghost all = diamond_rects(x as int, y as int, size as int, color_argb);
    let half = size / 2;
    let mut row: i32 = 0;
    while row < size
        invariant
            diamond_fits(x as int, y as int, size as int),
            pixels::buffer_ok(buffer_width as int, buffer_height as int),
            half == arith::tdiv(size as int, 2),
            all == diamond_rects(x as int, y as int, size as int, color_argb),
            0 <= row,
            size >= 0 ==> row <= size,
            size < 0 ==> row == 0,
            pixels@ == pixels::spec_paint(base, buffer_width as int, buffer_height as int, all.subrange(0, row as int)),
        decreases size - row,
    {
        assert(diamond_row_fits(x as int, y as int, size as int, row as int));
        proof { arith::lemma_tdiv_bounds(size as int, 2); }
        let d = half - row;
        let dist = if d >= 0 { d } else { -d };
        let span = size - dist * 2;
        let draw_x = x + dist;
        let w = if span > 1 { span } else { 1 };
        fill_more(pixels, buffer_width, buffer_height, draw_x, y + row, w, 1, color_argb, Ghost(base), Ghost(all.subrange(0, row as int)));
        assert(all.subrange(0, row + 1) == all.subrange(0, row as int).push(all[row as int]));
        row = row + 1;
    }
    assert(all.subrange(0, arith::max_int(size as int, 0)) == all);
}


} // verus!
