//! Titlebar geometry: the frame buttons and where a click lands.

use vstd::prelude::*;
use crate::arith;

verus! {

pub const BUTTON_PADDING_X: i32 = 0;
pub const BUTTON_GAP: i32 = 1;

#[derive(Clone, Copy, Debug)]
pub struct Rect {
    pub x: i32,
    pub y: i32,
    pub width: i32,
    pub height: i32,
}

/// The point lies in the half-open rectangle.
pub open spec fn rect_contains(r: Rect, px: int, py: int) -> bool {
    r.x <= px < r.x + r.width && r.y <= py < r.y + r.height
}

impl Rect {
    pub fn contains(&self, px: i32, py: i32) -> (r: bool)
        requires
            arith::fits_i32(self.x + self.width),
            arith::fits_i32(self.y + self.height),
        ensures
            r == rect_contains(*self, px as int, py as int),
    {
        px >= self.x && px < self.x + self.width && py >= self.y && py < self.y + self.height
    }
}

#[derive(Clone, Copy, Debug)]
pub struct TitlebarButtons {
    pub close: Rect,
    pub hide: Rect,
    pub maximize: Rect,
}

#[derive(Clone, Copy, Debug, PartialEq, Eq, Structural)]
pub enum TitlebarButton {
    Close,
    Hide,
    Maximize,
}

/// Square buttons as tall as the titlebar: close at the left end, maximize
/// at the right end, hide just left of maximize; none starts left of 0.
pub open spec fn spec_button_rects(content_width: int, titlebar_height: int) -> (Rect, Rect, Rect) {
    let size = titlebar_height;
    let right_outer = content_width - BUTTON_PADDING_X - size;
    let right_inner = right_outer - size - BUTTON_GAP;
    (
        Rect { x: BUTTON_PADDING_X, y: 0, width: size as i32, height: size as i32 },
        Rect { x: arith::max_int(right_inner, 0) as i32, y: 0, width: size as i32, height: size as i32 },
        Rect { x: arith::max_int(right_outer, 0) as i32, y: 0, width: size as i32, height: size as i32 },
    )
}

/// The button layout of a titlebar can be computed within `i32`.
pub open spec fn buttons_fit(content_width: int, titlebar_height: int) -> bool {
    let right_outer = content_width - BUTTON_PADDING_X - titlebar_height;
    &&& arith::fits_i32(right_outer)
    &&& arith::fits_i32(right_outer - titlebar_height)
    &&& arith::fits_i32(right_outer - titlebar_height - BUTTON_GAP)
    &&& arith::fits_i32(content_width + titlebar_height)
    &&& arith::fits_i32(2 * titlebar_height)
}

pub fn button_rects(content_width: i32, titlebar_height: i32) -> (r: TitlebarButtons)
    requires
        buttons_fit(content_width as int, titlebar_height as int),
    ensures
        r.close == spec_button_rects(content_width as int, titlebar_height as int).0,
        r.hide == spec_button_rects(content_width as int, titlebar_height as int).1,
        r.maximize == spec_button_rects(content_width as int, titlebar_height as int).2,
{
    let size = titlebar_height;
    let y: i32 = 0;
    let close = Rect { x: BUTTON_PADDING_X, y, width: size, height: size };
    let right_outer_x = content_width - BUTTON_PADDING_X - size;
    let right_inner_x = right_outer_x - size - BUTTON_GAP;
    let maximize = Rect {
        x: if right_outer_x > 0 { right_outer_x } else { 0 },
        y,
        width: size,
        height: size,
    };
    let hide = Rect {
        x: if right_inner_x > 0 { right_inner_x } else { 0 },
        y,
        width: size,
        height: size,
    };
    TitlebarButtons { close, hide, maximize }
}

/// Which button, if any, lies under the point `(local_x, local_y)` of a
/// frame whose border is `border_width` wide.  Close is checked first, then
/// hide, then maximize.
pub open spec fn spec_button_at(
    content_width: int,
    border_width: int,
    local_x: int,
    local_y: int,
    titlebar_height: int,
) -> Option<TitlebarButton> {
    let rel_x = local_x - border_width;
    let rel_y = local_y - border_width;
    let b = spec_button_rects(content_width, titlebar_height);
    if content_width <= 0 {
        None
    } else if rel_x < 0 || rel_y < 0 || rel_x >= content_width || rel_y >= titlebar_height {
        None
    } else if rect_contains(b.0, rel_x, rel_y) {
        Some(TitlebarButton::Close)
    } else if rect_contains(b.1, rel_x, rel_y) {
        Some(TitlebarButton::Hide)
    } else if rect_contains(b.2, rel_x, rel_y) {
        Some(TitlebarButton::Maximize)
    } else {
        None
    }
}

pub fn button_at(
    content_width: i32,
    border_width: i32,
    local_x: i32,
    local_y: i32,
    titlebar_height: i32,
) -> (r: Option<TitlebarButton>)
    requires
        arith::fits_i32(local_x - border_width),
        arith::fits_i32(local_y - border_width),
        buttons_fit(content_width as int, titlebar_height as int),
    ensures
        r == spec_button_at(
            content_width as int,
            border_width as int,
            local_x as int,
            local_y as int,
            titlebar_height as int,
        ),
{
    if content_width <= 0 {
        return None;
    }
    let rel_x = local_x - border_width;
    let rel_y = local_y - border_width;
    if rel_x < 0 || rel_y < 0 || rel_x >= content_width || rel_y >= titlebar_height {
        return None;
    }
    let buttons = button_rects(content_width, titlebar_height);
    if buttons.close.contains(rel_x, rel_y) {
        return Some(TitlebarButton::Close);
    }
    if buttons.hide.contains(rel_x, rel_y) {
        return Some(TitlebarButton::Hide);
    }
    if buttons.maximize.contains(rel_x, rel_y) {
        return Some(TitlebarButton::Maximize);
    }
    None
}

/// A button reported under a point does contain that point.
pub proof fn lemma_button_at_contains(
    content_width: int,
    border_width: int,
    local_x: int,
    local_y: int,
    titlebar_height: int,
)
    ensures
        ({
            let b = spec_button_rects(content_width, titlebar_height);
            let rx = local_x - border_width;
            let ry = local_y - border_width;
            match spec_button_at(content_width, border_width, local_x, local_y, titlebar_height) {
                Some(TitlebarButton::Close) => rect_contains(b.0, rx, ry),
                Some(TitlebarButton::Hide) => rect_contains(b.1, rx, ry) && !rect_contains(b.0, rx, ry),
                Some(TitlebarButton::Maximize) => rect_contains(b.2, rx, ry) && !rect_contains(b.0, rx, ry)
                    && !rect_contains(b.1, rx, ry),
                None => true,
            }
        }),
{
}

} // verus!
