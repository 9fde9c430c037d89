//! Scroller layout - focused window centered with surrounding windows on sides

use vstd::prelude::*;
use crate::arith;
use super::{LayoutArea, LayoutResult, LayoutWindow, Region, WindowGeometry};

verus! {

/// Settings of the scroller layout.  The width factor of the focused
/// window is a float, kept as its bit pattern; the caller applies it and
/// passes the main width and the side widths to `arrange`.
#[derive(Debug, Clone, Copy)]
pub struct ScrollerConfig {
    /// Share of the area given to the focused window, as the bit pattern of
    /// an `f32`
    pub mfact: u32,
    pub inner_gap: i32,
    pub outer_gap: i32,
    pub snap_to_left: bool,
}

impl Default for ScrollerConfig {
    fn default() -> (r: Self)
        ensures
            r.mfact == 0x3F00_0000,
            r.inner_gap == 16,
            r.outer_gap == 9,
            !r.snap_to_left,
    {
        ScrollerConfig { mfact: 0x3F00_0000, inner_gap: 16, outer_gap: 9, snap_to_left: false }
    }
}

pub struct ScrollerLayout;

/// Sum of the first `j` side widths.
pub open spec fn side_prefix(side: Seq<i32>, j: int) -> int
    decreases j,
{
    if j <= 0 || j > side.len() {
        0
    } else {
        side_prefix(side, j - 1) + side[j - 1]
    }
}

/// Left edge of the focused window.
pub open spec fn scroller_main_x(u: Region, main_w: int, snap_to_left: bool) -> int {
    if snap_to_left {
        u.x
    } else {
        u.x + arith::tdiv(u.w - main_w, 2)
    }
}

/// The `p`-th placement of the scroller layout: which window it is and
/// where it goes.  The focused window comes first, then the windows before
/// it from nearest to farthest, then the windows after it in order.
pub open spec fn scroller_cell(
    area: LayoutArea,
    ws: Seq<LayoutWindow>,
    cfg: ScrollerConfig,
    main_w: int,
    side: Seq<i32>,
    p: int,
) -> (int, Region) {
    let n = ws.len() as int;
    let u = super::usable_region(area, cfg.outer_gap as int);
    let g = cfg.inner_gap as int;
    if n == 1 {
        (0, u)
    } else {
        let f = super::focused_index(ws);
        let mx = scroller_main_x(u, main_w, cfg.snap_to_left);
        if p == 0 {
            (f, Region { x: mx, y: u.y, w: main_w, h: u.h })
        } else if p <= f {
            (f - p, Region { x: mx - p * g - side_prefix(side, p), y: u.y, w: side[p - 1] as int, h: u.h })
        } else {
            let j = p - f;
            (f + j, Region { x: mx + main_w + j * g + side_prefix(side, j - 1), y: u.y, w: side[j - 1] as int, h: u.h })
        }
    }
}

/// Each placement of the result holds the window and geometry that
/// `scroller_cell` gives.
pub open spec fn scroller_arranged(
    r: super::LayoutResult,
    area: LayoutArea,
    ws: Seq<LayoutWindow>,
    cfg: ScrollerConfig,
    main_w: int,
    side: Seq<i32>,
) -> bool {
    &&& r.geometries@.len() == ws.len()
    &&& forall|p: int|
        0 <= p < ws.len() ==> {
            let c = scroller_cell(area, ws, cfg, main_w, side, p);
            &&& 0 <= c.0 < ws.len()
            &&& (#[trigger] r.geometries@[p]).0 == ws[c.0].id
            &&& super::geometry_is(r.geometries@[p].1, c.1)
        }
}

/// Arranging with these widths stays within `i32` arithmetic.
pub open spec fn scroller_fits(
    area: LayoutArea,
    ws: Seq<LayoutWindow>,
    cfg: ScrollerConfig,
    main_w: int,
    side: Seq<i32>,
) -> bool {
    let n = ws.len() as int;
    let u = super::usable_region(area, cfg.outer_gap as int);
    let g = cfg.inner_gap as int;
    let f = super::focused_index(ws);
    let mx = scroller_main_x(u, main_w, cfg.snap_to_left);
    &&& super::usable_fits(area, cfg.outer_gap as int)
    &&& n >= 2 ==> {
        &&& side.len() >= n - 1
        &&& arith::fits_i32(u.w - main_w)
        &&& arith::fits_i32(mx)
        &&& arith::fits_i32(mx + main_w)
        &&& forall|t: int| 0 <= t <= f ==> arith::fits_i32(mx - (t + 1) * g - #[trigger] side_prefix(side, t))
        &&& forall|t: int| 1 <= t <= f ==> arith::fits_i32(mx - t * g - #[trigger] side_prefix(side, t))
        &&& forall|t: int| 0 <= t < n - f - 1 ==> arith::fits_i32(#[trigger] side[t] + g)
        &&& forall|t: int| 0 <= t < n - f ==> arith::fits_i32(mx + main_w + (t + 1) * g + #[trigger] side_prefix(side, t))
    }
}

impl ScrollerLayout {
    /// Places the focused window (`main_w` wide) and lines up the others
    /// beside it; a window `d` places away from the focused one is
    /// `side_widths[d - 1]` wide.
    pub fn arrange(
        &self,
        area: LayoutArea,
        windows: &[LayoutWindow],
        scroller: &ScrollerConfig,
        main_w: i32,
        side_widths: &[i32],
    ) -> (r: LayoutResult)
        requires
            scroller_fits(area, windows@, *scroller, main_w as int, side_widths@),
        ensures
            scroller_arranged(r, area, windows@, *scroller, main_w as int, side_widths@),
    {
        let n = windows.len();
        let mut geometries: Vec<(usize, WindowGeometry)> = Vec::new();
        if n == 0 {
            return LayoutResult { geometries };
        }
        let outer_gap = scroller.outer_gap;
        let inner_gap = scroller.inner_gap;
        let usable = super::usable_area(area, outer_gap);
        if n == 1 {
            geometries.push((windows[0].id, usable));
            return LayoutResult { geometries };
        }
        let ghost ws = windows@;
        let ghost side = side_widths@;
        let ghost g = inner_gap as int;
        let focused_idx = super::find_focused(windows);
        let ghost mx_spec = scroller_main_x(super::usable_region(area, outer_gap as int), main_w as int, scroller.snap_to_left);
        let main_x = if scroller.snap_to_left {
            usable.x
        } else {
            usable.x + (usable.width - main_w) / 2
        };
        geometries.push((windows[focused_idx].id, WindowGeometry::new(main_x, usable.y, main_w, usable.height)));

        assert(side_prefix(side, 0) == 0);
        assert(arith::fits_i32(mx_spec - (0 + 1) * g - side_prefix(side, 0)));
        let mut left_x = main_x - inner_gap;
        let mut j: usize = 1;
        while j <= focused_idx
            invariant
                n == ws.len(),
                n >= 2,
                ws == windows@,
                side == side_widths@,
                g == inner_gap,
                inner_gap == scroller.inner_gap,
                focused_idx == super::focused_index(ws),
                focused_idx < n,
                scroller_fits(area, ws, *scroller, main_w as int, side),
                super::geometry_is(usable, super::usable_region(area, outer_gap as int)),
                outer_gap == scroller.outer_gap,
                main_x == scroller_main_x(super::usable_region(area, outer_gap as int), main_w as int, scroller.snap_to_left),
                1 <= j <= focused_idx + 1,
                left_x == main_x - j * g - side_prefix(side, j - 1),
                geometries@.len() == j,
                forall|p: int|
                    0 <= p < j ==> {
                        let c = scroller_cell(area, ws, *scroller, main_w as int, side, p);
                        &&& 0 <= c.0 < n
                        &&& (#[trigger] geometries@[p]).0 == ws[c.0].id
                        &&& super::geometry_is(geometries@[p].1, c.1)
                    },
            decreases focused_idx + 1 - j,
        {
            let i = focused_idx - j;
            let w_width = side_widths[j - 1];
            assert(side_prefix(side, j as int) == side_prefix(side, j - 1) + side[j - 1]);
            assert(arith::fits_i32(main_x - j * g - side_prefix(side, j as int)));
            assert(arith::fits_i32(main_x - (j + 1) * g - side_prefix(side, j as int)));
            assert((j + 1) * g == j * g + g) by (nonlinear_arith);
            left_x = left_x - w_width;
            geometries.push((windows[i].id, WindowGeometry::new(left_x, usable.y, w_width, usable.height)));
            left_x = left_x - inner_gap;
            j = j + 1;
        }

        assert(arith::fits_i32(main_x + main_w + (0 + 1) * g + side_prefix(side, 0)));
        let mut right_x = main_x + main_w + inner_gap;
        let mut k: usize = 1;
        while focused_idx + k < n
            invariant
                n == ws.len(),
                n >= 2,
                ws == windows@,
                side == side_widths@,
                g == inner_gap,
                inner_gap == scroller.inner_gap,
                focused_idx == super::focused_index(ws),
                focused_idx < n,
                scroller_fits(area, ws, *scroller, main_w as int, side),
                super::geometry_is(usable, super::usable_region(area, outer_gap as int)),
                outer_gap == scroller.outer_gap,
                main_x == scroller_main_x(super::usable_region(area, outer_gap as int), main_w as int, scroller.snap_to_left),
                1 <= k <= n - focused_idx,
                right_x == main_x + main_w + k * g + side_prefix(side, k - 1),
                geometries@.len() == focused_idx + k,
                forall|p: int|
                    0 <= p < focused_idx + k ==> {
                        let c = scroller_cell(area, ws, *scroller, main_w as int, side, p);
                        &&& 0 <= c.0 < n
                        &&& (#[trigger] geometries@[p]).0 == ws[c.0].id
                        &&& super::geometry_is(geometries@[p].1, c.1)
                    },
            decreases n - focused_idx - k,
        {
            let i = focused_idx + k;
            let w_width = side_widths[k - 1];
            assert(side_prefix(side, k as int) == side_prefix(side, k - 1) + side[k - 1]);
            assert(arith::fits_i32(side[k - 1] + g));
            assert(arith::fits_i32(main_x + main_w + (k + 1) * g + side_prefix(side, k as int)));
            assert((k + 1) * g == k * g + g) by (nonlinear_arith);
            geometries.push((windows[i].id, WindowGeometry::new(right_x, usable.y, w_width, usable.height)));
            right_x = right_x + (w_width + inner_gap);
            k = k + 1;
        }
        LayoutResult { geometries }
    }
}

/// A single window takes the whole usable area.  With more, the focused
/// window comes first, `main_w` wide and as high as the usable area.  Snapped to the left it starts at the usable area's left edge;
/// otherwise it is centred: the space left of it and the space right of
/// it differ by at most one pixel, the left one never the larger when the
/// window fits.
pub proof fn lemma_scroller_focused_centred(
    area: LayoutArea,
    ws: Seq<LayoutWindow>,
    cfg: ScrollerConfig,
    main_w: int,
    side: Seq<i32>,
)
    requires
        ws.len() >= 1,
    ensures
        ws.len() == 1 ==> scroller_cell(area, ws, cfg, main_w, side, 0) == (
            0int,
            super::usable_region(area, cfg.outer_gap as int),
        ),
        ws.len() >= 2 ==> ({
            let u = super::usable_region(area, cfg.outer_gap as int);
            let c = scroller_cell(area, ws, cfg, main_w, side, 0);
            let left = c.1.x - u.x;
            let right = (u.x + u.w) - (c.1.x + c.1.w);
            &&& c.0 == super::focused_index(ws)
            &&& c.1.w == main_w && c.1.y == u.y && c.1.h == u.h
            &&& cfg.snap_to_left ==> left == 0
            &&& !cfg.snap_to_left ==> -1 <= right - left <= 1
            &&& !cfg.snap_to_left && u.w >= main_w ==> left <= right <= left + 1
        }),
{
}

/// The other windows line up beside the focused one, one inner gap apart
/// and as high as the usable area: the `p`-th placement before the focused
/// window ends one gap before the placement nearer to it begins, and the
/// placements after the focused window each begin one gap after the
/// previous one ends.
pub proof fn lemma_scroller_side_by_side(
    area: LayoutArea,
    ws: Seq<LayoutWindow>,
    cfg: ScrollerConfig,
    main_w: int,
    side: Seq<i32>,
    p: int,
)
    requires
        ws.len() >= 2,
        1 <= p < ws.len(),
        side.len() >= ws.len() - 1,
    ensures
        ({
            let f = super::focused_index(ws);
            let g = cfg.inner_gap as int;
            let c = scroller_cell(area, ws, cfg, main_w, side, p).1;
            let u = super::usable_region(area, cfg.outer_gap as int);
            let before = scroller_cell(area, ws, cfg, main_w, side, p - 1).1;
            let nearer = if p == f + 1 { scroller_cell(area, ws, cfg, main_w, side, 0).1 } else { before };
            &&& c.y == u.y && c.h == u.h
            &&& p <= f ==> scroller_cell(area, ws, cfg, main_w, side, p).0 == f - p && c.x + c.w + g == before.x
            &&& p > f ==> scroller_cell(area, ws, cfg, main_w, side, p).0 == p && c.x == nearer.x + nearer.w + g
        }),
{
    super::lemma_first_focused(ws, 0);
    let f = super::focused_index(ws);
    let g = cfg.inner_gap as int;
    assert(0 <= f < ws.len());
    let c = scroller_cell(area, ws, cfg, main_w, side, p).1;
    let before = scroller_cell(area, ws, cfg, main_w, side, p - 1).1;
    assert(side_prefix(side, 0) == 0);
    if p <= f {
        assert(side_prefix(side, p) == side_prefix(side, p - 1) + side[p - 1]);
        assert(p * g == (p - 1) * g + g) by (nonlinear_arith);
        assert(c.x + c.w + g == before.x);
    } else {
        let j = p - f;
        if j >= 2 {
            assert(side_prefix(side, j - 1) == side_prefix(side, j - 2) + side[j - 2]);
            assert(j * g == (j - 1) * g + g) by (nonlinear_arith);
            assert(c.x == before.x + before.w + g);
        } else {
            let m = scroller_cell(area, ws, cfg, main_w, side, 0).1;
            assert(j == 1);
            assert(j * g == g) by (nonlinear_arith)
                requires
                    j == 1,
            ;
            assert(c.x == m.x + m.w + g);
        }
    }
}

} // verus!
