//! The window menu: its entries, which entry is hovered, its size, and what
//! it paints.  Text is measured and drawn by the caller, into the areas that
//! `render` reports.

use vstd::prelude::*;
use crate::arith;
use crate::config::UiConfig;
use crate::frame::lemma_paint_concat;
use crate::output::OutputId;
use crate::pixels;
use crate::pixels::Paint;
use crate::shapes;
use crate::window::WindowId;

verus! {

pub const MENU_BORDER: i32 = 1;
pub const ITEM_PADDING_X: i32 = 8;
pub const ITEM_PADDING_Y: i32 = 4;
pub const ICON_SIZE: i32 = 10;
pub const ICON_GAP: i32 = 6;
pub const ACTIVE_DIAMOND_SIZE: i32 = 8;
pub const BORDER_COLOR: u32 = 0x000000FF;
pub const SHADOW_COLOR: u32 = 0x404040FF;
/// Width of the menu content when no font could be loaded.
pub const FALLBACK_CONTENT_WIDTH: i32 = 120;

/// Menu entry data.
#[derive(Debug, Clone)]
pub struct MenuItem {
    pub window_id: WindowId,
    pub title: String,
    pub hidden: bool,
    pub active: bool,
}

/// Colours and font of the menu.
#[derive(Debug, Clone)]
pub struct MenuTheme {
    pub font_name: Option<String>,
    /// Font size, as the bit pattern of an `f32`
    pub font_size: u32,
    pub bg: u32,
    pub text: u32,
    pub highlight_bg: u32,
    pub highlight_text: u32,
}

impl MenuTheme {
    pub fn from_ui(ui: &UiConfig) -> (r: Self)
        ensures
            r.font_name == ui.font_name,
            r.font_size == ui.font_size,
            r.bg == ui.menu_bg,
            r.text == ui.menu_text,
            r.highlight_bg == ui.menu_highlight_bg,
            r.highlight_text == ui.menu_highlight_text,
    {
        let font_name = match &ui.font_name {
            Some(name) => Some(name.clone()),
            None => None,
        };
        MenuTheme {
            font_name,
            font_size: ui.font_size,
            bg: ui.menu_bg,
            text: ui.menu_text,
            highlight_bg: ui.menu_highlight_bg,
            highlight_text: ui.menu_highlight_text,
        }
    }
}

/// Height of one entry: the font height with padding above and below,
/// at least one pixel.
pub open spec fn spec_item_height(font_height: int) -> int {
    arith::max_int(font_height + ITEM_PADDING_Y * 2, 1)
}

/// Height of one entry for a font `font_height` pixels tall (the font
/// size rounded up).
pub fn item_height(font_height: i32) -> (r: i32)
    requires
        font_height <= i32::MAX - ITEM_PADDING_Y * 2,
    ensures
        r == spec_item_height(font_height as int),
        r >= 1,
{
    let h = font_height + ITEM_PADDING_Y * 2;
    if h > 1 { h } else { 1 }
}

/// Size of the menu surface, shadow included, for `count` entries
/// `item_height` tall.  `text_width` is the widest title, rounded up, or
/// `None` when no font could be loaded.
pub open spec fn spec_measure_menu(count: int, item_height: int, text_width: Option<i32>) -> (int, int) {
    match text_width {
        None => (
            FALLBACK_CONTENT_WIDTH + shapes::SHADOW_SIZE,
            arith::max_int(count * item_height, 1) + MENU_BORDER * 2 + shapes::SHADOW_SIZE,
        ),
        Some(w) => (
            ITEM_PADDING_X * 2 + ICON_SIZE + ICON_GAP + w + MENU_BORDER * 2 + shapes::SHADOW_SIZE,
            item_height * count + MENU_BORDER * 2 + shapes::SHADOW_SIZE,
        ),
    }
}

pub open spec fn measure_fits(count: int, item_height: int, text_width: Option<i32>) -> bool {
    &&& count <= i32::MAX
    &&& arith::fits_i32(count * item_height)
    &&& arith::fits_i32(spec_measure_menu(count, item_height, text_width).0)
    &&& arith::fits_i32(spec_measure_menu(count, item_height, text_width).1)
    &&& arith::fits_i32(arith::max_int(count * item_height, 1) + MENU_BORDER * 2)
    &&& arith::fits_i32(item_height * count + MENU_BORDER * 2)
    &&& (text_width.is_some() ==> arith::fits_i32(ITEM_PADDING_X * 2 + ICON_SIZE + ICON_GAP + text_width.unwrap()))
}

pub fn measure_menu(items: &[MenuItem], item_height: i32, text_width: Option<i32>) -> (r: (i32, i32))
    requires
        measure_fits(items@.len() as int, item_height as int, text_width),
    ensures
        r.0 == spec_measure_menu(items@.len() as int, item_height as int, text_width).0,
        r.1 == spec_measure_menu(items@.len() as int, item_height as int, text_width).1,
{
    let count = items.len() as i32;
    match text_width {
        None => {
            let menu_w = FALLBACK_CONTENT_WIDTH;
            let rows = count * item_height;
            let menu_h = (if rows > 1 { rows } else { 1 }) + MENU_BORDER * 2;
            (menu_w + shapes::SHADOW_SIZE, menu_h + shapes::SHADOW_SIZE)
        },
        Some(w) => {
            let content_w = ITEM_PADDING_X * 2 + ICON_SIZE + ICON_GAP + w;
            let content_h = item_height * count;
            let menu_w = content_w + MENU_BORDER * 2;
            let menu_h = content_h + MENU_BORDER * 2;
            (menu_w + shapes::SHADOW_SIZE, menu_h + shapes::SHADOW_SIZE)
        },
    }
}

/// Layout of a shared-memory buffer to create: ARGB8888 pixels.
#[derive(Debug, Clone, Copy, PartialEq, Eq, Structural)]
pub struct BufferLayout {
    pub width: i32,
    pub height: i32,
    pub stride: i32,
    pub size: i32,
    pub scale: i32,
}

/// Where the title of entry `index` goes, in buffer pixels, and in which
/// ARGB colour.
#[derive(Debug, Clone, Copy, PartialEq, Eq, Structural)]
pub struct MenuText {
    pub index: usize,
    pub x: i32,
    pub y: i32,
    pub width: i32,
    pub height: i32,
    pub color: u32,
}

/// Window menu state.
pub struct WindowMenu {
    pub width: i32,
    pub height: i32,
    pub buffer_width: i32,
    pub buffer_height: i32,
    pub scale: i32,
    pub configured: bool,
    pub items: Vec<MenuItem>,
    pub hovered: Option<usize>,
    pub output_id: OutputId,
    pub origin_x: i32,
    pub origin_y: i32,
    pub theme: MenuTheme,
    /// Height of one entry, in logical pixels
    pub item_height: i32,
    /// Whether a shared-memory buffer is attached
    pub has_buffer: bool,
}

/// The menu's entry height is positive and its hovered entry exists.
pub open spec fn menu_wf(m: WindowMenu) -> bool {
    &&& m.item_height >= 1
    &&& (m.hovered matches Some(i) ==> i < m.items@.len())
    &&& m.width >= i32::MIN + shapes::SHADOW_SIZE
    &&& m.height >= i32::MIN + shapes::SHADOW_SIZE
}

/// Width of the menu without its shadow.
pub open spec fn spec_menu_w(m: WindowMenu) -> int {
    arith::max_int(m.width - shapes::SHADOW_SIZE, 0)
}

/// Height of the menu without its shadow.
pub open spec fn spec_menu_h(m: WindowMenu) -> int {
    arith::max_int(m.height - shapes::SHADOW_SIZE, 0)
}

/// The entry under the point `(x, y)` of the menu surface.
pub open spec fn spec_item_at(m: WindowMenu, x: int, y: int) -> Option<usize> {
    let cw = spec_menu_w(m) - MENU_BORDER * 2;
    let ch = spec_menu_h(m) - MENU_BORDER * 2;
    if x < MENU_BORDER || y < MENU_BORDER || x >= MENU_BORDER + cw || y >= MENU_BORDER + ch {
        None
    } else {
        let idx = (y - MENU_BORDER) / (m.item_height as int);
        if idx < m.items@.len() {
            Some(idx as usize)
        } else {
            None
        }
    }
}

/// `r` is the first entry of `items` for the window `id`, or `None` when
/// there is no such entry.
pub open spec fn is_first_entry(items: Seq<MenuItem>, id: WindowId, r: Option<usize>) -> bool {
    match r {
        Some(i) => i < items.len() && items[i as int].window_id == id && forall|j: int|
            0 <= j < i ==> (#[trigger] items[j]).window_id != id,
        None => forall|j: int| 0 <= j < items.len() ==> (#[trigger] items[j]).window_id != id,
    }
}

/// The scale a menu draws at.
pub open spec fn menu_scale(m: WindowMenu) -> int {
    arith::max_int(m.scale as int, 1)
}

pub open spec fn ensure_fits(m: WindowMenu, scale: int) -> bool {
    let s = arith::max_int(scale, 1);
    (m.width > 0 && m.height > 0) ==> {
        &&& arith::fits_i32(m.width * s)
        &&& arith::fits_i32(m.height * s)
        &&& (m.width * s > 0 && m.height * s > 0 ==> arith::fits_i32(m.width * s * 4) && arith::fits_i32(
            m.width * s * 4 * (m.height * s),
        ))
    }
}

/// The buffer that `ensure_buffer` asks for: none when a size is not
/// positive or when the present buffer already has the size and scale.
pub open spec fn spec_ensure_buffer(m: WindowMenu, scale: int) -> Option<BufferLayout> {
    let s = arith::max_int(scale, 1);
    let bw = m.width * s;
    let bh = m.height * s;
    if m.width <= 0 || m.height <= 0 || bw <= 0 || bh <= 0 {
        None
    } else if m.has_buffer && m.buffer_width == bw && m.buffer_height == bh && m.scale == s {
        None
    } else {
        Some(BufferLayout { width: bw as i32, height: bh as i32, stride: (bw * 4) as i32, size: (bw * 4 * bh) as i32, scale: s as i32 })
    }
}

/// Colours of entry `i`: background and text.
pub open spec fn item_colors(m: WindowMenu, i: int) -> (u32, u32) {
    let hovered = m.hovered == Some(i as usize);
    (
        pixels::spec_rgba_to_argb(if hovered { m.theme.highlight_bg } else { m.theme.bg }),
        pixels::spec_rgba_to_argb(if hovered { m.theme.highlight_text } else { m.theme.text }),
    )
}

/// Top of entry `i`, in logical pixels.
pub open spec fn item_top(m: WindowMenu, i: int) -> int {
    MENU_BORDER + i * (m.item_height as int)
}

/// Rectangles of entry `i`: its background, then a dashed square when
/// its window is hidden, then a diamond when its window is active.
pub open spec fn item_rects(m: WindowMenu, i: int) -> Seq<Paint> {
    let s = menu_scale(m);
    let ih = m.item_height as int;
    let y = item_top(m, i);
    let (bg, text_color) = item_colors(m, i);
    let item = m.items@[i];
    let start_x = MENU_BORDER + ITEM_PADDING_X;
    seq![shapes::paint(MENU_BORDER * s, y * s, (spec_menu_w(m) - MENU_BORDER * 2) * s, ih * s, bg)] + (if item.hidden {
        shapes::dashed_rects(
            start_x * s,
            (y + arith::tdiv(ih - ICON_SIZE, 2)) * s,
            ICON_SIZE * s,
            ICON_SIZE * s,
            text_color,
        )
    } else {
        seq![]
    }) + (if item.active {
        shapes::diamond_rects(
            (start_x + (ICON_SIZE - ACTIVE_DIAMOND_SIZE) / 2) * s,
            (y + arith::tdiv(ih - ACTIVE_DIAMOND_SIZE, 2)) * s,
            ACTIVE_DIAMOND_SIZE * s,
            text_color,
        )
    } else {
        seq![]
    })
}

/// Rectangles of the first `k` entries.
pub open spec fn items_rects(m: WindowMenu, k: nat) -> Seq<Paint>
    decreases k,
{
    if k == 0 {
        seq![]
    } else {
        items_rects(m, (k - 1) as nat) + item_rects(m, k - 1)
    }
}

/// Everything `render` paints over a cleared buffer: shadow, background,
/// outline, then each entry in order.
pub open spec fn menu_rects(m: WindowMenu) -> Seq<Paint> {
    let s = menu_scale(m);
    let w = spec_menu_w(m) * s;
    let h = spec_menu_h(m) * s;
    shapes::shadow_rects(w, h, pixels::spec_rgba_to_argb(SHADOW_COLOR)) + seq![
        shapes::paint(0, 0, w, h, pixels::spec_rgba_to_argb(m.theme.bg)),
    ] + shapes::border_rect_rects(0, 0, w, h, pixels::spec_rgba_to_argb(BORDER_COLOR)) + items_rects(
        m,
        m.items@.len(),
    )
}

/// Where the title of entry `i` goes.
pub open spec fn menu_text(m: WindowMenu, i: int) -> MenuText {
    let s = menu_scale(m);
    let text_start_x = MENU_BORDER + ITEM_PADDING_X + ICON_SIZE + ICON_GAP;
    MenuText {
        index: i as usize,
        x: (text_start_x * s) as i32,
        y: (item_top(m, i) * s) as i32,
        width: ((spec_menu_w(m) - MENU_BORDER * 2 - text_start_x + MENU_BORDER) * s) as i32,
        height: ((m.item_height as int) * s) as i32,
        color: item_colors(m, i).1,
    }
}

/// Every value that drawing entry `i` computes fits in `i32`: its
/// background, its dashed square or diamond, and where its title goes.
pub open spec fn item_fits(m: WindowMenu, i: int) -> bool {
    let s = menu_scale(m);
    let ih = m.item_height as int;
    let y = item_top(m, i);
    let w = spec_menu_w(m);
    let start_x = MENU_BORDER + ITEM_PADDING_X;
    let item = m.items@[i];
    let dd = arith::tdiv(ih - ICON_SIZE, 2);
    let ad = arith::tdiv(ih - ACTIVE_DIAMOND_SIZE, 2);
    let text_start_x = MENU_BORDER + ITEM_PADDING_X + ICON_SIZE + ICON_GAP;
    &&& arith::fits_i32(y * s)
    &&& arith::fits_i32(ih * s)
    &&& arith::fits_i32((w - MENU_BORDER * 2) * s)
    &&& arith::fits_i32(MENU_BORDER * s + (w - MENU_BORDER * 2) * s)
    &&& arith::fits_i32(y * s + ih * s)
    &&& arith::fits_i32((w - MENU_BORDER * 2 - text_start_x + MENU_BORDER) * s)
    &&& (item.hidden ==> {
        &&& arith::fits_i32(y + dd)
        &&& arith::fits_i32((y + dd) * s)
        &&& shapes::dashed_fits(start_x * s, (y + dd) * s, ICON_SIZE * s, ICON_SIZE * s)
    })
    &&& (item.active ==> {
        &&& arith::fits_i32(y + ad)
        &&& arith::fits_i32((y + ad) * s)
        &&& shapes::diamond_fits((start_x + (ICON_SIZE - ACTIVE_DIAMOND_SIZE) / 2) * s, (y + ad) * s, ACTIVE_DIAMOND_SIZE * s)
    })
}

/// Every value that `render` computes for this menu fits in `i32` (the
/// buffer's byte size among them).
pub open spec fn render_ready(m: WindowMenu) -> bool {
    let s = menu_scale(m);
    let w = spec_menu_w(m) * s;
    let h = spec_menu_h(m) * s;
    &&& menu_wf(m)
    &&& pixels::buffer_ok(m.buffer_width as int, m.buffer_height as int)
    &&& arith::fits_i32(25 * s)
    &&& arith::fits_i32(w)
    &&& arith::fits_i32(h)
    &&& arith::fits_i32(w + shapes::SHADOW_SIZE)
    &&& arith::fits_i32(h + shapes::SHADOW_SIZE)
    &&& shapes::border_rect_fits(0, 0, w, h)
    &&& arith::fits_i32(item_top(m, m.items@.len() as int))
    &&& forall|i: int| 0 <= i < m.items@.len() ==> #[trigger] item_fits(m, i)
}

/// The entry hovered after one step through `n` entries: the one after
/// the hovered entry, wrapping around, or the first.
pub open spec fn next_hover(n: nat, hovered: Option<usize>) -> Option<usize> {
    match hovered {
        Some(i) => Some(((i + 1) % (n as int)) as usize),
        None => Some(0),
    }
}

/// The entry hovered after `k` steps through `n` entries.
pub open spec fn hover_after(n: nat, hovered: Option<usize>, k: nat) -> Option<usize>
    decreases k,
{
    if k == 0 {
        hovered
    } else {
        next_hover(n, hover_after(n, hovered, (k - 1) as nat))
    }
}

/// Stepping through the `n` entries of a menu `n` times comes back to the
/// entry it started on.
pub proof fn lemma_cycle_returns(n: nat, i: usize)
    requires
        i < n <= usize::MAX,
    ensures
        hover_after(n, Some(i), n) == Some(i),
{
    lemma_hover_after(n, i, n);
    vstd::arithmetic::div_mod::lemma_mod_add_multiples_vanish(i as int, n as int);
    vstd::arithmetic::div_mod::lemma_small_mod(i as nat, n);
}

/// After `k` steps from entry `i` the entry `(i + k) mod n` is hovered.
proof fn lemma_hover_after(n: nat, i: usize, k: nat)
    requires
        i < n <= usize::MAX,
    ensures
        hover_after(n, Some(i), k) == Some(((i + k) % (n as int)) as usize),
    decreases k,
{
    if k == 0 {
        vstd::arithmetic::div_mod::lemma_small_mod(i as nat, n);
    } else {
        lemma_hover_after(n, i, (k - 1) as nat);
        let j = (i + k - 1) % (n as int);
        vstd::arithmetic::div_mod::lemma_mod_bound(i + k - 1, n as int);
        vstd::arithmetic::div_mod::lemma_mod_bound(j + 1, n as int);
        vstd::arithmetic::div_mod::lemma_mod_bound(i + k, n as int);
        assert((j as usize) as int == j);
        if n > 1 {
            vstd::arithmetic::div_mod::lemma_small_mod(1, n);
            vstd::arithmetic::div_mod::lemma_add_mod_noop(i + k - 1, 1, n as int);
        }
        assert((j + 1) % (n as int) == (i + k) % (n as int));
    }
}

impl WindowMenu {
    /// A menu for `items` on the output `output_id`, opened at
    /// `(origin_x, origin_y)`, sized for entries `item_height` tall and
    /// titles at most `text_width` wide.
    pub fn new(
        output_id: OutputId,
        items: Vec<MenuItem>,
        origin_x: i32,
        origin_y: i32,
        theme: MenuTheme,
        item_height: i32,
        text_width: Option<i32>,
    ) -> (r: Self)
        requires
            measure_fits(items@.len() as int, item_height as int, text_width),
        ensures
            r.width == spec_measure_menu(items@.len() as int, item_height as int, text_width).0,
            r.height == spec_measure_menu(items@.len() as int, item_height as int, text_width).1,
            r.buffer_width == r.width && r.buffer_height == r.height,
            r.scale == 1,
            !r.configured,
            r.items@ == items@,
            r.hovered.is_none(),
            r.output_id == output_id,
            r.origin_x == origin_x && r.origin_y == origin_y,
            r.theme == theme,
            r.item_height == item_height,
            !r.has_buffer,
    {
        let (width, height) = measure_menu(items.as_slice(), item_height, text_width);
        WindowMenu {
            width,
            height,
            buffer_width: width,
            buffer_height: height,
            scale: 1,
            configured: false,
            items,
            hovered: None,
            output_id,
            origin_x,
            origin_y,
            theme,
            item_height,
            has_buffer: false,
        }
    }

    fn menu_width(&self) -> (r: i32)
        requires
            menu_wf(*self),
        ensures
            r == spec_menu_w(*self),
    {
        let w = self.width - shapes::SHADOW_SIZE;
        if w > 0 { w } else { 0 }
    }

    fn menu_height(&self) -> (r: i32)
        requires
            menu_wf(*self),
        ensures
            r == spec_menu_h(*self),
    {
        let h = self.height - shapes::SHADOW_SIZE;
        if h > 0 { h } else { 0 }
    }

    /// The entry under the point `(x, y)` of the menu surface.
    pub fn item_at(&self, x: i32, y: i32) -> (r: Option<usize>)
        requires
            menu_wf(*self),
        ensures
            r == spec_item_at(*self, x as int, y as int),
            r matches Some(i) ==> i < self.items@.len(),
    {
        let content_w = self.menu_width() - MENU_BORDER * 2;
        let content_h = self.menu_height() - MENU_BORDER * 2;
        if x < MENU_BORDER || y < MENU_BORDER || x >= MENU_BORDER + content_w || y >= MENU_BORDER + content_h {
            return None;
        }
        let idx = ((y - MENU_BORDER) / self.item_height) as usize;
        if idx < self.items.len() {
            Some(idx)
        } else {
            None
        }
    }

    /// Hover the entry under `(x, y)`; says whether the hovered entry changed.
    pub fn update_hover(&mut self, x: i32, y: i32) -> (changed: bool)
        requires
            menu_wf(*old(self)),
        ensures
            menu_wf(*final(self)),
            final(self).hovered == spec_item_at(*old(self), x as int, y as int),
            changed == (old(self).hovered != spec_item_at(*old(self), x as int, y as int)),
            *final(self) == (WindowMenu { hovered: final(self).hovered, ..*old(self) }),
    {
        let next = self.item_at(x, y);
        if next != self.hovered {
            self.hovered = next;
            return true;
        }
        false
    }

    /// Hover the entry after the hovered one, wrapping around; the first
    /// entry when none is hovered.  Says whether the hovered entry changed.
    pub fn select_next(&mut self) -> (changed: bool)
        requires
            menu_wf(*old(self)),
        ensures
            menu_wf(*final(self)),
            old(self).items@.len() == 0 ==> !changed && *final(self) == *old(self),
            old(self).items@.len() > 0 ==> {
                &&& final(self).hovered == next_hover(old(self).items@.len(), old(self).hovered)
                &&& changed == (old(self).hovered != final(self).hovered)
            },
            *final(self) == (WindowMenu { hovered: final(self).hovered, ..*old(self) }),
    {
        if self.items.len() == 0 {
            return false;
        }
        let next = match self.hovered {
            Some(idx) => (idx + 1) % self.items.len(),
            None => 0,
        };
        if self.hovered != Some(next) {
            self.hovered = Some(next);
            return true;
        }
        false
    }

    /// Hover the first entry of the window `window_id`, or none.  Says
    /// whether the hovered entry changed.
    pub fn select_window(&mut self, window_id: Option<WindowId>) -> (changed: bool)
        requires
            menu_wf(*old(self)),
        ensures
            menu_wf(*final(self)),
            window_id.is_none() ==> final(self).hovered.is_none(),
            window_id matches Some(id) ==> is_first_entry(old(self).items@, id, final(self).hovered),
            changed == (old(self).hovered != final(self).hovered),
            *final(self) == (WindowMenu { hovered: final(self).hovered, ..*old(self) }),
    {
        let next = match window_id {
            None => None,
            Some(id) => {
                let mut found: Option<usize> = None;
                let mut i: usize = 0;
                while i < self.items.len()
                    invariant_except_break
                        found.is_none(),
                    invariant
                        0 <= i <= self.items@.len(),
                        forall|j: int| 0 <= j < i ==> (#[trigger] self.items@[j]).window_id != id,
                    ensures
                        is_first_entry(self.items@, id, found),
                    decreases self.items@.len() - i,
                {
                    if self.items[i].window_id == id {
                        found = Some(i);
                        break;
                    }
                    i = i + 1;
                }
                found
            },
        };
        if self.hovered != next {
            self.hovered = next;
            return true;
        }
        false
    }

    /// The buffer to create for drawing at `scale`, if one is needed.  The
    /// caller creates it and then calls `buffer_attached`.
    pub fn ensure_buffer(&self, scale: i32) -> (r: Option<BufferLayout>)
        requires
            ensure_fits(*self, scale as int),
        ensures
            r == spec_ensure_buffer(*self, scale as int),
    {
        if self.width <= 0 || self.height <= 0 {
            return None;
        }
        let scale = if scale > 1 { scale } else { 1 };
        let buffer_width = self.width * scale;
        let buffer_height = self.height * scale;
        if buffer_width <= 0 || buffer_height <= 0 {
            return None;
        }
        if self.has_buffer && self.buffer_width == buffer_width && self.buffer_height == buffer_height
            && self.scale == scale {
            return None;
        }
        let stride = buffer_width * 4;
        let size = stride * buffer_height;
        Some(BufferLayout { width: buffer_width, height: buffer_height, stride, size, scale })
    }

    /// Record that the buffer of `layout` was created.
    pub fn buffer_attached(&mut self, layout: BufferLayout)
        ensures
            *final(self) == (WindowMenu {
                has_buffer: true,
                buffer_width: layout.width,
                buffer_height: layout.height,
                scale: layout.scale,
                ..*old(self)
            }),
    {
        self.has_buffer = true;
        self.buffer_width = layout.width;
        self.buffer_height = layout.height;
        self.scale = layout.scale;
    }

    /// Drop the buffer.
    pub fn reset_buffer(&mut self)
        ensures
            *final(self) == (WindowMenu { has_buffer: false, ..*old(self) }),
    {
        self.has_buffer = false;
    }

    /// The input region: the menu without its shadow, while it has a size.
    pub fn input_region(&self) -> (r: Option<(i32, i32, i32, i32)>)
        requires
            menu_wf(*self),
        ensures
            (spec_menu_w(*self) <= 0 || spec_menu_h(*self) <= 0) ==> r.is_none(),
            (spec_menu_w(*self) > 0 && spec_menu_h(*self) > 0) ==> r == Some((0i32, 0i32, spec_menu_w(*self) as i32, spec_menu_h(*self) as i32)),
    {
        let menu_w = self.menu_width();
        let menu_h = self.menu_height();
        if menu_w <= 0 || menu_h <= 0 {
            return None;
        }
        Some((0, 0, menu_w, menu_h))
    }
}


/// The top of every entry up to the last fits in `i32` when the end of the
/// entries does.
proof fn lemma_item_top_fits(m: WindowMenu, k: int)
    requires
        menu_wf(m),
        0 <= k <= m.items@.len(),
        arith::fits_i32(item_top(m, m.items@.len() as int)),
    ensures
        arith::fits_i32(item_top(m, k)),
{
    arith::lemma_mul_between(k, m.items@.len() as int, m.item_height as int);
}

impl WindowMenu {
    /// Draw entry `i`, whose top is `y`, on top of what is painted so far;
    /// returns where its title goes.
    fn draw_item(
        &self,
        pixels: &mut Vec<u32>,
        i: usize,
        y: i32,
        menu_w: i32,
        scale: i32,
        Ghost(base): Ghost<Seq<u32>>,
        Ghost(done): Ghost<Seq<Paint>>,
    ) -> (text: MenuText)
        requires
            render_ready(*self),
            i < self.items@.len(),
            y == item_top(*self, i as int),
            menu_w == spec_menu_w(*self),
            scale == menu_scale(*self),
            old(pixels)@ == pixels::spec_paint(base, self.buffer_width as int, self.buffer_height as int, done),
        ensures
            final(pixels)@ == pixels::spec_paint(
                base,
                self.buffer_width as int,
                self.buffer_height as int,
                done + item_rects(*self, i as int),
            ),
            text == menu_text(*self, i as int),
    {
        let item_h = self.item_height;
        let s = scale;
        let (bw, bh) = (self.buffer_width, self.buffer_height);
        assert(item_fits(*self, i as int));
        proof {
            assert(s >= 1);
        }
        let (bg, text_color) = if self.hovered == Some(i) {
            (pixels::rgba_to_argb(self.theme.highlight_bg), pixels::rgba_to_argb(self.theme.highlight_text))
        } else {
            (pixels::rgba_to_argb(self.theme.bg), pixels::rgba_to_argb(self.theme.text))
        };
        let icon_color = if self.hovered == Some(i) { text_color } else { pixels::rgba_to_argb(self.theme.text) };
        let item = &self.items[i];
        let start_x = MENU_BORDER + ITEM_PADDING_X;
        shapes::fill_more(pixels, bw, bh, MENU_BORDER * s, y * s, (menu_w - MENU_BORDER * 2) * s, item_h * s, bg, Ghost(base), Ghost(done));
        let ghost head = seq![shapes::paint(MENU_BORDER * s, y * s, (menu_w - MENU_BORDER * 2) * s, item_h * s, bg)];
        assert(done.push(shapes::paint(MENU_BORDER * s, y * s, (menu_w - MENU_BORDER * 2) * s, item_h * s, bg)) == done + head);

        let ghost dashes: Seq<Paint> = seq![];
        if item.hidden {
            let d = (item_h - ICON_SIZE) / 2;
            let ghost before = pixels@;
            shapes::draw_dashed_rect(pixels, bw, bh, start_x * s, (y + d) * s, ICON_SIZE * s, ICON_SIZE * s, icon_color);
            proof {
                dashes = shapes::dashed_rects(start_x * s, (y + d) * s, ICON_SIZE * s, ICON_SIZE * s, text_color);
                lemma_paint_concat(base, bw as int, bh as int, done + head, dashes);
            }
        } else {
            assert(done + head + dashes == done + head);
        }
        let ghost diamond: Seq<Paint> = seq![];
        if item.active {
            let d = (item_h - ACTIVE_DIAMOND_SIZE) / 2;
            shapes::draw_diamond(
                pixels,
                bw,
                bh,
                (start_x + (ICON_SIZE - ACTIVE_DIAMOND_SIZE) / 2) * s,
                (y + d) * s,
                ACTIVE_DIAMOND_SIZE * s,
                text_color,
            );
            proof {
                diamond = shapes::diamond_rects(
                    (start_x + (ICON_SIZE - ACTIVE_DIAMOND_SIZE) / 2) * s,
                    (y + d) * s,
                    ACTIVE_DIAMOND_SIZE * s,
                    text_color,
                );
                lemma_paint_concat(base, bw as int, bh as int, done + head + dashes, diamond);
            }
        } else {
            assert(done + head + dashes + diamond == done + head + dashes);
        }
        assert(head + dashes + diamond == item_rects(*self, i as int));
        assert(done + head + dashes + diamond == done + (head + dashes + diamond));
        let text_start_x = MENU_BORDER + ITEM_PADDING_X + ICON_SIZE + ICON_GAP;
        let text_area_w = menu_w - MENU_BORDER * 2 - text_start_x + MENU_BORDER;
        MenuText { index: i, x: text_start_x * s, y: y * s, width: text_area_w * s, height: item_h * s, color: text_color }
    }

    /// Paint the menu into `pixels`: clear it, draw the shadow, the
    /// background, the outline and each entry.  Returns where each title
    /// goes.  Nothing happens without a buffer or while the menu is empty.
    pub fn render(&self, pixels: &mut Vec<u32>) -> (texts: Vec<MenuText>)
        requires
            menu_wf(*self),
            self.has_buffer ==> render_ready(*self),
        ensures
            self.has_buffer && spec_menu_w(*self) > 0 && spec_menu_h(*self) > 0 ==> {
                &&& final(pixels)@ == pixels::spec_paint(
                    Seq::new(old(pixels)@.len(), |i: int| 0u32),
                    self.buffer_width as int,
                    self.buffer_height as int,
                    menu_rects(*self),
                )
                &&& texts@ == Seq::new(self.items@.len(), |i: int| menu_text(*self, i))
            },
            !(self.has_buffer && spec_menu_w(*self) > 0 && spec_menu_h(*self) > 0) ==> {
                &&& final(pixels)@ == old(pixels)@
                &&& texts@.len() == 0
            },
    {
        let mut texts: Vec<MenuText> = Vec::new();
        let menu_w = self.menu_width();
        let menu_h = self.menu_height();
        if menu_w <= 0 || menu_h <= 0 {
            return texts;
        }
        if !self.has_buffer {
            return texts;
        }
        let scale = if self.scale > 1 { self.scale } else { 1 };
        let (bw, bh) = (self.buffer_width, self.buffer_height);
        let ghost n = self.items@.len() as int;
        let menu_w_px = menu_w * scale;
        let menu_h_px = menu_h * scale;
        let ghost zeros = Seq::new(old(pixels)@.len(), |i: int| 0u32);
        pixels::clear_buffer(pixels);
        shapes::draw_shadow(pixels, bw, bh, menu_w_px, menu_h_px, pixels::rgba_to_argb(SHADOW_COLOR));
        let ghost shadow = shapes::shadow_rects(menu_w_px as int, menu_h_px as int, pixels::spec_rgba_to_argb(SHADOW_COLOR));
        shapes::fill_more(pixels, bw, bh, 0, 0, menu_w_px, menu_h_px, pixels::rgba_to_argb(self.theme.bg), Ghost(zeros), Ghost(shadow));
        let ghost bg = seq![shapes::paint(0, 0, menu_w_px as int, menu_h_px as int, pixels::spec_rgba_to_argb(self.theme.bg))];
        assert(shadow.push(shapes::paint(0, 0, menu_w_px as int, menu_h_px as int, pixels::spec_rgba_to_argb(self.theme.bg))) == shadow + bg);
        shapes::draw_border_rect(pixels, bw, bh, 0, 0, menu_w_px, menu_h_px, pixels::rgba_to_argb(BORDER_COLOR));
        let ghost outline = shapes::border_rect_rects(0, 0, menu_w_px as int, menu_h_px as int, pixels::spec_rgba_to_argb(BORDER_COLOR));
        proof {
            lemma_paint_concat(zeros, bw as int, bh as int, shadow + bg, outline);
        }
        let ghost head = shadow + bg + outline;
        let item_h = self.item_height;
        let mut y = MENU_BORDER;
        let mut idx: usize = 0;
        while idx < self.items.len()
            invariant
                render_ready(*self),
                self.has_buffer,
                n == self.items@.len(),
                0 <= idx <= n,
                item_h == self.item_height,
                menu_w == spec_menu_w(*self),
                scale == menu_scale(*self),
                bw == self.buffer_width && bh == self.buffer_height,
                y == item_top(*self, idx as int),
                pixels@ == pixels::spec_paint(zeros, bw as int, bh as int, head + items_rects(*self, idx as nat)),
                texts@ == Seq::new(idx as nat, |i: int| menu_text(*self, i)),
            decreases n - idx,
        {
            let text = self.draw_item(pixels, idx, y, menu_w, scale, Ghost(zeros), Ghost(head + items_rects(*self, idx as nat)));
            assert(head + items_rects(*self, idx as nat) + item_rects(*self, idx as int) == head + items_rects(*self, (idx + 1) as nat));
            texts.push(text);
            assert(texts@ == Seq::new((idx + 1) as nat, |i: int| menu_text(*self, i)));
            proof {
                assert((idx + 1) * item_h == idx * item_h + item_h) by (nonlinear_arith);
                lemma_item_top_fits(*self, idx as int + 1);
            }
            y = y + item_h;
            idx = idx + 1;
        }
        texts
    }
}

} // verus!
