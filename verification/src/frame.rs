//! The titlebar frame of a window: buffer sizing and drawing of borders,
//! title background, buttons and separator.  The title text itself is
//! drawn by the caller into the area that `render` reports.

use vstd::prelude::*;
use crate::arith;
use crate::config::{BorderLayers, UiConfig};
use crate::pixels;
use crate::pixels::Paint;
use crate::shapes;
use crate::titlebar;
use crate::titlebar::TitlebarButton;

verus! {

pub const BORDER_OUTER: i32 = 1;
pub const BORDER_MID: i32 = 3;
pub const BORDER_INNER: i32 = 1;
/// Background of the close button while it is pressed (RGBA)
pub const BUTTON_BG_PRESSED_LEFT: u32 = 0xA0A0A0FF;

/// Buffer and content sizes of a titlebar frame.
#[derive(Debug, Clone, Copy)]
pub struct Titlebar {
    pub width: i32,
    pub height: i32,
    pub buffer_width: i32,
    pub buffer_height: i32,
    pub content_width: i32,
    pub content_height: i32,
    pub scale: i32,
    pub dirty: bool,
    /// Whether a shared-memory buffer is attached
    pub has_buffer: bool,
}

/// What `ensure_buffer` asks the caller to do.
#[derive(Debug, Clone, Copy, PartialEq, Eq, Structural)]
pub enum BufferPlan {
    /// Nothing: the sizes are unusable
    Skip,
    /// Keep the buffer; set the surface's buffer scale
    Keep { scale: i32 },
    /// Drop the old buffer, create one of this ARGB8888 layout, and on
    /// success set the surface's buffer scale
    Allocate { width: i32, height: i32, stride: i32, size: i32, scale: i32 },
}

/// Where the title text goes, in buffer pixels, and in which ARGB colour.
#[derive(Debug, Clone, Copy)]
pub struct TitleText {
    pub x: i32,
    pub y: i32,
    pub width: i32,
    pub height: i32,
    pub scale: i32,
    pub color: u32,
}

/// Frame sizes for the given content, border and titlebar height.
pub open spec fn frame_size(cw: int, ch: int, tbh: int, bw: int) -> (int, int) {
    (cw + bw * 2, ch + tbh + bw * 2)
}

pub open spec fn ensure_fits(cw: int, ch: int, scale: int, tbh: int, bw: int) -> bool {
    let s = arith::max_int(scale, 1);
    let (w, h) = frame_size(cw, ch, tbh, bw);
    (cw > 0 && ch > 0) ==> {
        &&& arith::fits_i32(bw * 2)
        &&& arith::fits_i32(w)
        &&& arith::fits_i32(ch + tbh)
        &&& arith::fits_i32(h)
        &&& arith::fits_i32(w * s)
        &&& arith::fits_i32(h * s)
        &&& (w * s > 0 && h * s > 0 ==> arith::fits_i32(w * s * 4) && arith::fits_i32(w * s * 4 * (h * s)))
    }
}

impl Titlebar {
    /// A titlebar with no buffer yet.
    pub fn new() -> (r: Self)
        ensures
            r.width == 0 && r.height == 0 && r.buffer_width == 0 && r.buffer_height == 0,
            r.content_width == 0 && r.content_height == 0,
            r.scale == 1,
            r.dirty,
            !r.has_buffer,
    {
        Titlebar {
            width: 0,
            height: 0,
            buffer_width: 0,
            buffer_height: 0,
            content_width: 0,
            content_height: 0,
            scale: 1,
            dirty: true,
            has_buffer: false,
        }
    }

    /// Size the frame for content of `content_width` x `content_height`.
    /// A new buffer is needed when the frame or buffer size or the scale
    /// changed, or when there is none.
    pub fn ensure_buffer(
        &mut self,
        content_width: i32,
        content_height: i32,
        scale: i32,
        titlebar_height: i32,
        border_width: i32,
    ) -> (r: BufferPlan)
        requires
            ensure_fits(content_width as int, content_height as int, scale as int, titlebar_height as int, border_width as int),
        ensures
            ({
                let s = arith::max_int(scale as int, 1);
                let (w, h) = frame_size(content_width as int, content_height as int, titlebar_height as int, border_width as int);
                let changed = old(self).width != w || old(self).height != h || old(self).buffer_width != w * s
                    || old(self).buffer_height != h * s || old(self).scale != s || !old(self).has_buffer;
                if content_width <= 0 || content_height <= 0 || w * s <= 0 || h * s <= 0 {
                    r == BufferPlan::Skip && *final(self) == *old(self)
                } else if changed {
                    &&& r == BufferPlan::Allocate {
                        width: (w * s) as i32,
                        height: (h * s) as i32,
                        stride: (w * s * 4) as i32,
                        size: (w * s * 4 * (h * s)) as i32,
                        scale: s as i32,
                    }
                    &&& *final(self) == Titlebar {
                        width: w as i32,
                        height: h as i32,
                        buffer_width: (w * s) as i32,
                        buffer_height: (h * s) as i32,
                        content_width,
                        content_height,
                        scale: s as i32,
                        dirty: true,
                        has_buffer: false,
                    }
                } else {
                    r == BufferPlan::Keep { scale: s as i32 } && *final(self) == *old(self)
                }
            }),
    {
        if content_width <= 0 || content_height <= 0 {
            return BufferPlan::Skip;
        }
        let scale = if scale > 1 { scale } else { 1 };
        let width = content_width + border_width * 2;
        let height = content_height + titlebar_height + border_width * 2;
        let buffer_width = width * scale;
        let buffer_height = height * scale;
        if buffer_width <= 0 || buffer_height <= 0 {
            return BufferPlan::Skip;
        }
        if self.width != width || self.height != height || self.buffer_width != buffer_width
            || self.buffer_height != buffer_height || self.scale != scale || !self.has_buffer {
            *self = Titlebar {
                width,
                height,
                buffer_width,
                buffer_height,
                content_width,
                content_height,
                scale,
                dirty: true,
                has_buffer: false,
            };
            let stride = buffer_width * 4;
            let size = stride * buffer_height;
            return BufferPlan::Allocate { width: buffer_width, height: buffer_height, stride, size, scale };
        }
        BufferPlan::Keep { scale }
    }

    /// Record that the buffer asked for was created.
    pub fn buffer_attached(&mut self)
        ensures
            *final(self) == (Titlebar { has_buffer: true, ..*old(self) }),
    {
        self.has_buffer = true;
    }

    /// Rectangles of the input region: the frame, less the content when
    /// there is any content; `None` while the frame is empty.
    pub fn input_region(&self, titlebar_height: i32, border_width: i32) -> (r: Option<((i32, i32, i32, i32), Option<(i32, i32, i32, i32)>)>)
        requires
            arith::fits_i32(border_width + titlebar_height),
        ensures
            (self.width <= 0 || self.height <= 0) ==> r.is_none(),
            (self.width > 0 && self.height > 0) ==> r == Some((
                (0i32, 0i32, self.width, self.height),
                if self.content_width > 0 && self.content_height > 0 {
                    Some((border_width, (border_width + titlebar_height) as i32, self.content_width, self.content_height))
                } else {
                    None
                },
            )),
    {
        if self.width <= 0 || self.height <= 0 {
            return None;
        }
        let hole = if self.content_width > 0 && self.content_height > 0 {
            Some((border_width, border_width + titlebar_height, self.content_width, self.content_height))
        } else {
            None
        };
        Some(((0, 0, self.width, self.height), hole))
    }
}

/// The three border layers of a frame: outer, middle and inner.
pub open spec fn frame_border_rects(bw: int, bh: int, s: int, colors: BorderLayers) -> Seq<Paint> {
    shapes::border_layer_rects(bw, bh, 0, BORDER_OUTER * s, colors.outer) + shapes::border_layer_rects(
        bw,
        bh,
        0 + BORDER_OUTER * s,
        BORDER_MID * s,
        colors.mid,
    ) + shapes::border_layer_rects(bw, bh, 0 + (BORDER_OUTER + BORDER_MID) * s, BORDER_INNER * s, colors.inner)
}

pub open spec fn frame_border_fits(bw: int, bh: int, s: int) -> bool {
    &&& arith::fits_i32(BORDER_OUTER * s)
    &&& arith::fits_i32(BORDER_MID * s)
    &&& arith::fits_i32((BORDER_OUTER + BORDER_MID) * s)
    &&& arith::fits_i32(BORDER_INNER * s)
    &&& shapes::border_layer_fits(bw, bh, 0, BORDER_OUTER * s)
    &&& shapes::border_layer_fits(bw, bh, 0 + BORDER_OUTER * s, BORDER_MID * s)
    &&& shapes::border_layer_fits(bw, bh, 0 + (BORDER_OUTER + BORDER_MID) * s, BORDER_INNER * s)
}

fn draw_frame_borders(pixels: &mut Vec<u32>, bw: i32, bh: i32, s: i32, colors: BorderLayers)
    requires
        pixels::buffer_ok(bw as int, bh as int),
        frame_border_fits(bw as int, bh as int, s as int),
    ensures
        final(pixels)@ == pixels::spec_paint(old(pixels)@, bw as int, bh as int, frame_border_rects(bw as int, bh as int, s as int, colors)),
{
    let ghost base = pixels@;
    let ghost l1 = shapes::border_layer_rects(bw as int, bh as int, 0, BORDER_OUTER * s, colors.outer);
    let ghost l2 = shapes::border_layer_rects(bw as int, bh as int, 0 + BORDER_OUTER * s, BORDER_MID * s, colors.mid);
    let ghost l3 = shapes::border_layer_rects(bw as int, bh as int, 0 + (BORDER_OUTER + BORDER_MID) * s, BORDER_INNER * s, colors.inner);
    shapes::draw_border_layer(pixels, bw, bh, 0, BORDER_OUTER * s, colors.outer);
    let ghost p1 = pixels@;
    shapes::draw_border_layer(pixels, bw, bh, 0 + BORDER_OUTER * s, BORDER_MID * s, colors.mid);
    let ghost p2 = pixels@;
    shapes::draw_border_layer(pixels, bw, bh, 0 + (BORDER_OUTER + BORDER_MID) * s, BORDER_INNER * s, colors.inner);
    proof {
        lemma_paint_concat(base, bw as int, bh as int, l1, l2);
        lemma_paint_concat(base, bw as int, bh as int, l1 + l2, l3);
    }
}

/// Painting two lists in turn is painting their concatenation.
pub proof fn lemma_paint_concat(p: Seq<u32>, bw: int, bh: int, a: Seq<Paint>, b: Seq<Paint>)
    ensures
        pixels::spec_paint(pixels::spec_paint(p, bw, bh, a), bw, bh, b) == pixels::spec_paint(p, bw, bh, a + b),
    decreases b.len(),
{
    if b.len() == 0 {
        assert(a + b == a);
    } else {
        lemma_paint_concat(p, bw, bh, a, b.drop_last());
        assert((a + b).drop_last() == a + b.drop_last());
        assert((a + b).last() == b.last());
    }
}


/// Every value that drawing the close button computes fits in `i32`.
pub open spec fn close_button_fits(x: int, line_x: int, y: int, size: int, row_h: int, tbh: int) -> bool {
    &&& arith::fits_i32(size)
    &&& arith::fits_i32(x + size)
    &&& arith::fits_i32(y + row_h)
    &&& shapes::glyph_close_fits(x, y, size, tbh)
    &&& (line_x >= 0 ==> shapes::rect_fits(line_x, y, shapes::unit_of(row_h, tbh), row_h))
}

/// Every value that drawing a right-hand button computes fits in `i32`.
pub open spec fn right_button_fits(x: int, line_x: int, y: int, size: int, row_h: int, g: ButtonGlyph, tbh: int) -> bool {
    &&& arith::fits_i32(size)
    &&& shapes::bevel_fits(x, y, size, tbh)
    &&& (line_x >= 0 ==> shapes::rect_fits(line_x, y, shapes::unit_of(row_h, tbh), row_h))
    &&& match g {
        ButtonGlyph::CaretDown => shapes::glyph_caret_fits(x, y, size, true, tbh),
        ButtonGlyph::CaretUp => shapes::glyph_caret_fits(x, y, size, false, tbh),
        ButtonGlyph::CaretPair => shapes::glyph_caret_pair_fits(x, y, size, tbh),
    }
}

/// Every value that drawing the title row computes fits in `i32`: the
/// button layout, the scaled positions and sizes, the buttons with their
/// glyphs, and the separator.
#[verifier::opaque]
pub open spec fn title_row_fits(cw: int, th: int, tbh: int, border: int, s: int, height: int) -> bool {
    let b = titlebar::spec_button_rects(cw, tbh);
    let close = b.0;
    let hide = b.1;
    let max = b.2;
    let ty = border * s;
    let size = tbh * s;
    let row_h = th * s;
    let sep_y = border + th;
    &&& titlebar::buttons_fit(cw, tbh)
    &&& arith::fits_i32(ty)
    &&& arith::fits_i32(cw * s)
    &&& arith::fits_i32(row_h)
    &&& arith::fits_i32(size)
    &&& arith::fits_i32(ty + cw * s)
    &&& arith::fits_i32(ty + row_h)
    &&& arith::fits_i32(border + close.x)
    &&& arith::fits_i32(border + close.x + close.width)
    &&& arith::fits_i32((border + close.x) * s)
    &&& arith::fits_i32((border + close.x + close.width) * s)
    &&& arith::fits_i32(border + hide.x)
    &&& arith::fits_i32(border + hide.x - 1)
    &&& arith::fits_i32((border + hide.x) * s)
    &&& arith::fits_i32((border + hide.x - 1) * s)
    &&& arith::fits_i32(border + max.x)
    &&& arith::fits_i32(border + max.x - 1)
    &&& arith::fits_i32((border + max.x) * s)
    &&& arith::fits_i32((border + max.x - 1) * s)
    &&& close_button_fits((border + close.x) * s, (border + close.x + close.width) * s, ty, size, row_h, tbh)
    &&& right_button_fits((border + hide.x) * s, (border + hide.x - 1) * s, ty, size, row_h, ButtonGlyph::CaretDown, tbh)
    &&& right_button_fits((border + max.x) * s, (border + max.x - 1) * s, ty, size, row_h, ButtonGlyph::CaretUp, tbh)
    &&& right_button_fits((border + max.x) * s, (border + max.x - 1) * s, ty, size, row_h, ButtonGlyph::CaretPair, tbh)
    &&& arith::fits_i32(sep_y)
    &&& arith::fits_i32(height - border)
    &&& (0 <= sep_y < height - border ==> arith::fits_i32(sep_y * s) && arith::fits_i32(sep_y * s + s))
}

/// A title row whose values fit has a button layout within `i32` and a
/// scaled top edge within `i32`.
proof fn lemma_title_row_layout(cw: int, th: int, tbh: int, border: int, s: int, height: int)
    requires
        title_row_fits(cw, th, tbh, border, s, height),
    ensures
        titlebar::buttons_fit(cw, tbh),
        arith::fits_i32(border * s),
{
    reveal(title_row_fits);
}

/// Every value that placing the title text computes fits in `i32`.
pub open spec fn title_text_fits(cw: int, th: int, tbh: int, border: int, s: int) -> bool {
    let b = titlebar::spec_button_rects(cw, tbh);
    let after_close = b.0.x + b.0.width + titlebar::BUTTON_GAP;
    let text_start = arith::max_int(after_close, 0);
    let text_end = arith::min_int(b.2.x - titlebar::BUTTON_GAP, cw);
    let text_width = arith::max_int(text_end - text_start, 0);
    &&& arith::fits_i32(after_close)
    &&& arith::fits_i32(text_end - text_start)
    &&& (text_width > 0 ==> {
        &&& arith::fits_i32(border + text_start)
        &&& arith::fits_i32((border + text_start) * s)
        &&& arith::fits_i32(text_width * s)
        &&& arith::fits_i32(th * s)
    })
}

/// Every value that `render` computes for this titlebar fits in `i32`
/// (the buffer's byte size among them).
pub open spec fn render_ready(t: Titlebar, tbh: int, border: int) -> bool {
    let s = arith::max_int(t.scale as int, 1);
    let th = title_row_height(tbh, t.height as int, border);
    &&& pixels::buffer_ok(t.buffer_width as int, t.buffer_height as int)
    &&& frame_border_fits(t.buffer_width as int, t.buffer_height as int, s)
    &&& arith::fits_i32(border * 2)
    &&& arith::fits_i32(t.height - border * 2)
    &&& (th > 0 ==> title_row_fits(t.content_width as int, th, tbh, border, s, t.height as int))
}

/// The button under the pointer counts as pressed only while the left
/// button is held.
pub open spec fn pressed_button(hovered: Option<TitlebarButton>, left_down: bool) -> Option<TitlebarButton> {
    if left_down { hovered } else { None }
}

/// Height of the title row: the titlebar height, cut to what the frame
/// leaves inside its borders.
pub open spec fn title_row_height(tbh: int, height: int, border: int) -> int {
    arith::min_int(tbh, height - border * 2)
}

/// The glyph drawn on a right-hand button.
#[derive(Debug, Clone, Copy, PartialEq, Eq, Structural)]
pub enum ButtonGlyph {
    /// Downwards caret (hide)
    CaretDown,
    /// Upwards caret (maximize)
    CaretUp,
    /// Caret pair (restore a maximized window)
    CaretPair,
}

pub open spec fn button_glyph_rects(g: ButtonGlyph, x: int, y: int, size: int, color: u32, tbh: int) -> Seq<Paint> {
    match g {
        ButtonGlyph::CaretDown => shapes::glyph_caret_rects(x, y, size, color, true, tbh),
        ButtonGlyph::CaretUp => shapes::glyph_caret_rects(x, y, size, color, false, tbh),
        ButtonGlyph::CaretPair => shapes::glyph_caret_pair_rects(x, y, size, color, tbh),
    }
}

/// The close button: its background, its glyph, and the line at its right.
pub open spec fn close_button_rects(x: int, line_x: int, y: int, size: int, row_h: int, bg: u32, edge: u32, tbh: int) -> Seq<Paint> {
    seq![shapes::paint(x, y, size, row_h, bg)] + shapes::glyph_close_rects(x, y, size, edge, tbh)
        + shapes::left_border_rects(line_x, y, row_h, edge, tbh)
}

/// A right-hand button: its bevel, the line at its left, and its glyph.
pub open spec fn right_button_rects(
    x: int,
    line_x: int,
    y: int,
    size: int,
    row_h: int,
    bg: u32,
    shadow: u32,
    edge: u32,
    pressed: bool,
    g: ButtonGlyph,
    tbh: int,
) -> Seq<Paint> {
    shapes::bevel_rects(x, y, size, bg, shadow, pressed, tbh) + shapes::left_border_rects(line_x, y, row_h, edge, tbh)
        + button_glyph_rects(g, x, y, size, edge, tbh)
}

/// Rectangles of the title row of width `cw` and height `th`: background,
/// close button, hide and maximize buttons with their glyphs, and the
/// separator under the row.
pub open spec fn title_rects(
    cw: int,
    th: int,
    tbh: int,
    border: int,
    s: int,
    height: int,
    colors: BorderLayers,
    ui: UiConfig,
    active: bool,
    maximized: bool,
    pressed: Option<TitlebarButton>,
) -> Seq<Paint> {
    let b = titlebar::spec_button_rects(cw, tbh);
    let close = b.0;
    let hide = b.1;
    let max = b.2;
    let bg = pixels::spec_rgba_to_argb(if active { ui.titlebar_bg_active } else { ui.titlebar_bg_inactive });
    let button_bg = pixels::spec_rgba_to_argb(ui.button_bg);
    let close_bg = if pressed == Some(TitlebarButton::Close) {
        pixels::spec_rgba_to_argb(BUTTON_BG_PRESSED_LEFT)
    } else {
        button_bg
    };
    let edge = pixels::spec_rgba_to_argb(colors.outer);
    let shadow = pixels::spec_rgba_to_argb(colors.mid);
    let ty = border * s;
    let sep_y = border + th;
    seq![shapes::paint(border * s, ty, cw * s, th * s, bg)] + close_button_rects(
        (border + close.x) * s,
        (border + close.x + close.width) * s,
        ty,
        close.width * s,
        th * s,
        close_bg,
        edge,
        tbh,
    ) + right_button_rects(
        (border + hide.x) * s,
        (border + hide.x - 1) * s,
        ty,
        hide.width * s,
        th * s,
        button_bg,
        shadow,
        edge,
        pressed == Some(TitlebarButton::Hide),
        ButtonGlyph::CaretDown,
        tbh,
    ) + right_button_rects(
        (border + max.x) * s,
        (border + max.x - 1) * s,
        ty,
        max.width * s,
        th * s,
        button_bg,
        shadow,
        edge,
        pressed == Some(TitlebarButton::Maximize),
        if maximized { ButtonGlyph::CaretPair } else { ButtonGlyph::CaretUp },
        tbh,
    ) + (if 0 <= sep_y < height - border {
        seq![shapes::paint(border * s, sep_y * s, cw * s, s, edge)]
    } else {
        seq![]
    })
}

/// Everything `render` paints over a cleared buffer, in order.
pub open spec fn render_rects(
    t: Titlebar,
    tbh: int,
    ui: UiConfig,
    active: bool,
    maximized: bool,
    pressed: Option<TitlebarButton>,
) -> Seq<Paint> {
    let s = arith::max_int(t.scale as int, 1);
    let colors = if active { ui.border_active } else { ui.border_inactive };
    let th = title_row_height(tbh, t.height as int, ui.border_width as int);
    frame_border_rects(t.buffer_width as int, t.buffer_height as int, s, colors) + if th > 0 {
        title_rects(
            t.content_width as int,
            th,
            tbh,
            ui.border_width as int,
            s,
            t.height as int,
            colors,
            ui,
            active,
            maximized,
            pressed,
        )
    } else {
        seq![]
    }
}

/// A titlebar frame is painted outside in: the first rectangle is the top
/// strip of the outer border layer, from the top-left pixel across the
/// whole buffer and one scaled border line high, in the outer colour of
/// the active border for the focused window and of the inactive border
/// otherwise; the middle layer follows from the fifth rectangle and the
/// inner layer, inset by the outer and middle lines, from the ninth.
pub proof fn lemma_frame_outer_first(
    t: Titlebar,
    tbh: int,
    ui: UiConfig,
    active: bool,
    maximized: bool,
    pressed: Option<TitlebarButton>,
)
    requires
        t.buffer_width > 2 * (BORDER_OUTER + BORDER_MID + BORDER_INNER) * arith::max_int(t.scale as int, 1),
        t.buffer_height > 2 * (BORDER_OUTER + BORDER_MID + BORDER_INNER) * arith::max_int(t.scale as int, 1),
    ensures
        ({
            let s = arith::max_int(t.scale as int, 1);
            let colors = if active { ui.border_active } else { ui.border_inactive };
            let rs = render_rects(t, tbh, ui, active, maximized, pressed);
            &&& rs.len() >= 12
            &&& rs[0] == shapes::paint(0, 0, t.buffer_width as int, s, pixels::spec_rgba_to_argb(colors.outer))
            &&& rs[4].color == pixels::spec_rgba_to_argb(colors.mid)
            &&& rs[8].color == pixels::spec_rgba_to_argb(colors.inner)
            &&& rs[8].x == (BORDER_OUTER + BORDER_MID) * s && rs[8].y == (BORDER_OUTER + BORDER_MID) * s
        }),
{
    let s = arith::max_int(t.scale as int, 1);
    let colors = if active { ui.border_active } else { ui.border_inactive };
    let bw = t.buffer_width as int;
    let bh = t.buffer_height as int;
    let l1 = shapes::border_layer_rects(bw, bh, 0, BORDER_OUTER * s, colors.outer);
    let l2 = shapes::border_layer_rects(bw, bh, 0 + BORDER_OUTER * s, BORDER_MID * s, colors.mid);
    let l3 = shapes::border_layer_rects(bw, bh, 0 + (BORDER_OUTER + BORDER_MID) * s, BORDER_INNER * s, colors.inner);
    assert(s >= 1);
    assert(BORDER_OUTER * s == s && BORDER_MID * s == 3 * s && BORDER_INNER * s == s);
    assert((BORDER_OUTER + BORDER_MID) * s == 4 * s);
    assert(2 * (BORDER_OUTER + BORDER_MID + BORDER_INNER) * s == 10 * s);
    assert(l1.len() == 4 && l2.len() == 4 && l3.len() == 4);
    let fb = frame_border_rects(bw, bh, s, colors);
    assert(fb == l1 + l2 + l3);
    let rs = render_rects(t, tbh, ui, active, maximized, pressed);
    assert(rs[0] == fb[0] && rs[4] == fb[4] && rs[8] == fb[8]);
}

/// Where the title text goes: between the close button and the maximize
/// button, when the title is not empty and that space is not empty.
pub open spec fn spec_title_text(t: Titlebar, tbh: int, ui: UiConfig, active: bool, has_title: bool) -> Option<TitleText> {
    let s = arith::max_int(t.scale as int, 1);
    let border = ui.border_width as int;
    let th = title_row_height(tbh, t.height as int, border);
    if th > 0 && has_title {
        title_text_for(t.content_width as int, th, tbh, border, s, ui, active)
    } else {
        None
    }
}

/// Where the title text goes in a title row `th` tall over content `cw`
/// wide: between the close button and the maximize button, when that space
/// is not empty.
pub open spec fn title_text_for(cw: int, th: int, tbh: int, border: int, s: int, ui: UiConfig, active: bool) -> Option<TitleText> {
    let b = titlebar::spec_button_rects(cw, tbh);
    let text_start = arith::max_int(b.0.x + b.0.width + titlebar::BUTTON_GAP, 0);
    let text_end = arith::min_int(b.2.x - titlebar::BUTTON_GAP, cw);
    let text_width = arith::max_int(text_end - text_start, 0);
    if text_width > 0 {
        Some(
            TitleText {
                x: ((border + text_start) * s) as i32,
                y: (border * s) as i32,
                width: (text_width * s) as i32,
                height: (th * s) as i32,
                scale: s as i32,
                color: if active { ui.titlebar_text_active } else { ui.titlebar_text_inactive },
            },
        )
    } else {
        None
    }
}

/// Where the title text goes, as `title_text_for` says.
fn title_text_at(cw: i32, th: i32, tbh: i32, border: i32, s: i32, ui: &UiConfig, active: bool) -> (r: Option<TitleText>)
    requires
        titlebar::buttons_fit(cw as int, tbh as int),
        arith::fits_i32(border * s),
        title_text_fits(cw as int, th as int, tbh as int, border as int, s as int),
    ensures
        r == title_text_for(cw as int, th as int, tbh as int, border as int, s as int, *ui, active),
{
    let buttons = titlebar::button_rects(cw, tbh);
    let after_close = buttons.close.x + buttons.close.width + titlebar::BUTTON_GAP;
    let text_start = if after_close > 0 { after_close } else { 0 };
    let before_max = buttons.maximize.x - titlebar::BUTTON_GAP;
    let text_end = if before_max < cw { before_max } else { cw };
    let text_width = if text_end - text_start > 0 { text_end - text_start } else { 0 };
    if text_width > 0 {
        Some(
            TitleText {
                x: (border + text_start) * s,
                y: border * s,
                width: text_width * s,
                height: th * s,
                scale: s,
                color: if active { ui.titlebar_text_active } else { ui.titlebar_text_inactive },
            },
        )
    } else {
        None
    }
}

/// The sizes that `render` draws with are all positive.
pub open spec fn renderable(t: Titlebar) -> bool {
    t.width > 0 && t.height > 0 && t.buffer_width > 0 && t.buffer_height > 0 && t.content_width > 0
        && t.content_height > 0
}


/// Draw the close button at `x` with its right-hand line at `line_x`.
fn draw_close_button(
    pixels: &mut Vec<u32>,
    bw: i32,
    bh: i32,
    x: i32,
    line_x: i32,
    y: i32,
    s: i32,
    tbh: i32,
    row_h: i32,
    bg: u32,
    edge: u32,
)
    requires
        pixels::buffer_ok(bw as int, bh as int),
        arith::fits_i32(tbh * s),
        close_button_fits(x as int, line_x as int, y as int, tbh * s, row_h as int, tbh as int),
    ensures
        final(pixels)@ == pixels::spec_paint(
            old(pixels)@,
            bw as int,
            bh as int,
            close_button_rects(x as int, line_x as int, y as int, tbh * s, row_h as int, bg, edge, tbh as int),
        ),
{
    let ghost base = pixels@;
    let size = tbh * s;
    shapes::fill_more(pixels, bw, bh, x, y, size, row_h, bg, Ghost(base), Ghost(Seq::empty()));
    let ghost done = Seq::<Paint>::empty().push(shapes::paint(x as int, y as int, size as int, row_h as int, bg));
    shapes::draw_glyph_close(pixels, bw, bh, x, y, size, edge, tbh);
    let ghost glyph = shapes::glyph_close_rects(x as int, y as int, size as int, edge, tbh as int);
    proof {
        lemma_paint_concat(base, bw as int, bh as int, done, glyph);
    }
    shapes::draw_left_border(pixels, bw, bh, line_x, y, row_h, edge, tbh);
    proof {
        let line = shapes::left_border_rects(line_x as int, y as int, row_h as int, edge, tbh as int);
        lemma_paint_concat(base, bw as int, bh as int, done + glyph, line);
        assert(done == seq![shapes::paint(x as int, y as int, size as int, row_h as int, bg)]);
    }
}

/// Draw a right-hand button at `x` with its left-hand line at `line_x`.
fn draw_right_button(
    pixels: &mut Vec<u32>,
    bw: i32,
    bh: i32,
    x: i32,
    line_x: i32,
    y: i32,
    s: i32,
    tbh: i32,
    row_h: i32,
    bg: u32,
    shadow: u32,
    edge: u32,
    pressed: bool,
    g: ButtonGlyph,
)
    requires
        pixels::buffer_ok(bw as int, bh as int),
        arith::fits_i32(tbh * s),
        right_button_fits(x as int, line_x as int, y as int, tbh * s, row_h as int, g, tbh as int),
    ensures
        final(pixels)@ == pixels::spec_paint(
            old(pixels)@,
            bw as int,
            bh as int,
            right_button_rects(x as int, line_x as int, y as int, tbh * s, row_h as int, bg, shadow, edge, pressed, g, tbh as int),
        ),
{
    let ghost base = pixels@;
    let size = tbh * s;
    shapes::draw_button_bevel(pixels, bw, bh, x, y, size, bg, shadow, pressed, tbh);
    let ghost bevel = shapes::bevel_rects(x as int, y as int, size as int, bg, shadow, pressed, tbh as int);
    shapes::draw_left_border(pixels, bw, bh, line_x, y, row_h, edge, tbh);
    let ghost line = shapes::left_border_rects(line_x as int, y as int, row_h as int, edge, tbh as int);
    proof {
        lemma_paint_concat(base, bw as int, bh as int, bevel, line);
    }
    match g {
        ButtonGlyph::CaretDown => shapes::draw_glyph_caret(pixels, bw, bh, x, y, size, edge, true, tbh),
        ButtonGlyph::CaretUp => shapes::draw_glyph_caret(pixels, bw, bh, x, y, size, edge, false, tbh),
        ButtonGlyph::CaretPair => shapes::draw_glyph_caret_pair(pixels, bw, bh, x, y, size, edge, tbh),
    }
    proof {
        let glyph = button_glyph_rects(g, x as int, y as int, size as int, edge, tbh as int);
        lemma_paint_concat(base, bw as int, bh as int, bevel + line, glyph);
    }
}

/// Draw the title row of a frame whose computed values fit in `i32`.
fn draw_title_row(
    pixels: &mut Vec<u32>,
    bw: i32,
    bh: i32,
    cw: i32,
    th: i32,
    tbh: i32,
    border: i32,
    s: i32,
    height: i32,
    colors: BorderLayers,
    ui: &UiConfig,
    active: bool,
    maximized: bool,
    pressed: Option<TitlebarButton>,
)
    requires
        pixels::buffer_ok(bw as int, bh as int),
        1 <= s,
        0 < th <= tbh,
        0 < cw,
        title_row_fits(cw as int, th as int, tbh as int, border as int, s as int, height as int),
    ensures
        final(pixels)@ == pixels::spec_paint(
            old(pixels)@,
            bw as int,
            bh as int,
            title_rects(cw as int, th as int, tbh as int, border as int, s as int, height as int, colors, *ui, active, maximized, pressed),
        ),
{
    reveal(title_row_fits);
    let ghost base = pixels@;
    let buttons = titlebar::button_rects(cw, tbh);
    let close = buttons.close;
    let hide = buttons.hide;
    let max = buttons.maximize;
    let bg = pixels::rgba_to_argb(if active { ui.titlebar_bg_active } else { ui.titlebar_bg_inactive });
    let button_bg = pixels::rgba_to_argb(ui.button_bg);
    let close_bg = if pressed == Some(TitlebarButton::Close) {
        pixels::rgba_to_argb(BUTTON_BG_PRESSED_LEFT)
    } else {
        button_bg
    };
    let edge = pixels::rgba_to_argb(colors.outer);
    let shadow = pixels::rgba_to_argb(colors.mid);
    let ty = border * s;
    let row_h = th * s;

    shapes::fill_more(pixels, bw, bh, border * s, ty, cw * s, row_h, bg, Ghost(base), Ghost(Seq::empty()));
    let ghost head = seq![shapes::paint(border * s, ty as int, cw * s, row_h as int, bg)];
    assert(Seq::<Paint>::empty().push(shapes::paint(border * s, ty as int, cw * s, row_h as int, bg)) == head);

    draw_close_button(pixels, bw, bh, (border + close.x) * s, (border + close.x + close.width) * s, ty, s, tbh, row_h, close_bg, edge);
    let ghost c = close_button_rects((border + close.x) * s, (border + close.x + close.width) * s, ty as int, tbh * s, row_h as int, close_bg, edge, tbh as int);
    proof { lemma_paint_concat(base, bw as int, bh as int, head, c); }

    let hide_pressed = pressed == Some(TitlebarButton::Hide);
    draw_right_button(pixels, bw, bh, (border + hide.x) * s, (border + hide.x - 1) * s, ty, s, tbh, row_h, button_bg, shadow, edge, hide_pressed, ButtonGlyph::CaretDown);
    let ghost h = right_button_rects((border + hide.x) * s, (border + hide.x - 1) * s, ty as int, tbh * s, row_h as int, button_bg, shadow, edge, hide_pressed, ButtonGlyph::CaretDown, tbh as int);
    proof { lemma_paint_concat(base, bw as int, bh as int, head + c, h); }

    let max_pressed = pressed == Some(TitlebarButton::Maximize);
    let glyph = if maximized { ButtonGlyph::CaretPair } else { ButtonGlyph::CaretUp };
    draw_right_button(pixels, bw, bh, (border + max.x) * s, (border + max.x - 1) * s, ty, s, tbh, row_h, button_bg, shadow, edge, max_pressed, glyph);
    let ghost m = right_button_rects((border + max.x) * s, (border + max.x - 1) * s, ty as int, tbh * s, row_h as int, button_bg, shadow, edge, max_pressed, glyph, tbh as int);
    proof { lemma_paint_concat(base, bw as int, bh as int, head + c + h, m); }

    let separator_y = border + th;
    let ghost sep: Seq<Paint> = if 0 <= separator_y < height - border {
        seq![shapes::paint(border * s, separator_y * s, cw * s, s as int, edge)]
    } else {
        seq![]
    };
    if separator_y >= 0 && separator_y < height - border {
        shapes::fill_more(pixels, bw, bh, border * s, separator_y * s, cw * s, s, edge, Ghost(base), Ghost(head + c + h + m));
        assert((head + c + h + m).push(shapes::paint(border * s, separator_y * s, cw * s, s as int, edge)) == head + c + h + m + sep);
    } else {
        assert(head + c + h + m + sep == head + c + h + m);
    }
}



/// Whether the title is there and not empty.
pub open spec fn has_text(title: Option<&str>) -> bool {
    match title {
        Some(t) => t@.len() > 0,
        None => false,
    }
}

impl Titlebar {
    /// Paint the frame into `pixels`: clear it, draw the three border
    /// layers, then the title row with its buttons and separator.  Returns
    /// where the title text goes, if anywhere.  Nothing happens without a
    /// buffer or while a size is not positive.
    pub fn render(
        &mut self,
        pixels: &mut Vec<u32>,
        title: Option<&str>,
        is_active: bool,
        is_maximized: bool,
        hovered_button: Option<TitlebarButton>,
        left_down: bool,
        ui: &UiConfig,
        titlebar_height: i32,
    ) -> (text: Option<TitleText>)
        requires
            old(self).has_buffer && renderable(*old(self)) ==> render_ready(
                *old(self),
                titlebar_height as int,
                ui.border_width as int,
            ),
            old(self).has_buffer && renderable(*old(self)) && has_text(title) ==> title_text_fits(
                old(self).content_width as int,
                title_row_height(titlebar_height as int, old(self).height as int, ui.border_width as int),
                titlebar_height as int,
                ui.border_width as int,
                arith::max_int(old(self).scale as int, 1),
            ),
        ensures
            old(self).has_buffer && renderable(*old(self)) ==> {
                &&& final(pixels)@ == pixels::spec_paint(
                    Seq::new(old(pixels)@.len(), |i: int| 0u32),
                    old(self).buffer_width as int,
                    old(self).buffer_height as int,
                    render_rects(
                        *old(self),
                        titlebar_height as int,
                        *ui,
                        is_active,
                        is_maximized,
                        pressed_button(hovered_button, left_down),
                    ),
                )
                &&& *final(self) == (Titlebar { dirty: false, ..*old(self) })
                &&& text == spec_title_text(*old(self), titlebar_height as int, *ui, is_active, has_text(title))
            },
            !(old(self).has_buffer && renderable(*old(self))) ==> {
                &&& final(pixels)@ == old(pixels)@
                &&& *final(self) == *old(self)
                &&& text.is_none()
            },
    {
        if !self.has_buffer {
            return None;
        }
        let scale = if self.scale > 1 { self.scale } else { 1 };
        let width = self.width;
        let height = self.height;
        let buffer_width = self.buffer_width;
        let buffer_height = self.buffer_height;
        let content_width = self.content_width;
        let content_height = self.content_height;
        if width <= 0 || height <= 0 || buffer_width <= 0 || buffer_height <= 0 || content_width <= 0
            || content_height <= 0 {
            return None;
        }
        let border = ui.border_width;
        let ghost zeros = Seq::new(old(pixels)@.len(), |i: int| 0u32);
        pixels::clear_buffer(pixels);
        let colors = if is_active { ui.border_active } else { ui.border_inactive };
        draw_frame_borders(pixels, buffer_width, buffer_height, scale, colors);
        let ghost borders = frame_border_rects(buffer_width as int, buffer_height as int, scale as int, colors);
        let pressed = if left_down { hovered_button } else { None };
        let title_height = if titlebar_height < height - border * 2 { titlebar_height } else { height - border * 2 };
        let mut text: Option<TitleText> = None;
        if title_height > 0 {
            draw_title_row(
                pixels,
                buffer_width,
                buffer_height,
                content_width,
                title_height,
                titlebar_height,
                border,
                scale,
                height,
                colors,
                ui,
                is_active,
                is_maximized,
                pressed,
            );
            proof {
                let row = title_rects(
                    content_width as int,
                    title_height as int,
                    titlebar_height as int,
                    border as int,
                    scale as int,
                    height as int,
                    colors,
                    *ui,
                    is_active,
                    is_maximized,
                    pressed,
                );
                lemma_paint_concat(zeros, buffer_width as int, buffer_height as int, borders, row);
            }
            let has_title = match title {
                Some(t) => !t.is_empty(),
                None => false,
            };
            if has_title {
                proof {
                    lemma_title_row_layout(
                        content_width as int,
                        title_height as int,
                        titlebar_height as int,
                        border as int,
                        scale as int,
                        height as int,
                    );
                }
                text = title_text_at(content_width, title_height, titlebar_height, border, scale, ui, is_active);
            }
        } else {
            assert(borders + seq![] == borders);
        }
        self.dirty = false;
        text
    }
}

} // verus!
