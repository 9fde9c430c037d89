//! Tile layout - master/stack with configurable master area

use vstd::prelude::*;
use crate::arith;
use super::{LayoutArea, LayoutResult, LayoutWindow, Region, WindowGeometry};

verus! {

/// Master area location for tile layout
#[derive(Debug, Clone, Copy, PartialEq, Eq, Structural)]
pub enum MasterLocation {
    Left,
    Right,
    Top,
    Bottom,
}

impl Default for MasterLocation {
    fn default() -> (r: Self)
        ensures
            r == MasterLocation::Left,
    {
        MasterLocation::Left
    }
}

/// Settings of the tile layout.  The master fraction is a float, kept as
/// its bit pattern; the caller applies it and passes the resulting master
/// size to `arrange`.
#[derive(Debug, Clone, Copy)]
pub struct TileConfig {
    pub nmaster: u32,
    /// Share of the area given to the master windows, as the bit pattern
    /// of an `f32`
    pub mfact: u32,
    pub inner_gap: i32,
    pub outer_gap: i32,
    pub master_location: MasterLocation,
}

impl Default for TileConfig {
    fn default() -> (r: Self)
        ensures
            r.nmaster == 1,
            r.mfact == 0x3F0C_CCCD,
            r.inner_gap == 12,
            r.outer_gap == 9,
            r.master_location == MasterLocation::Left,
    {
        TileConfig { nmaster: 1, mfact: 0x3F0C_CCCD, inner_gap: 12, outer_gap: 9, master_location: MasterLocation::Left }
    }
}

pub struct TileLayout;

/// Masters are stacked vertically when the master area is on a side.
pub open spec fn master_is_column(loc: MasterLocation) -> bool {
    loc == MasterLocation::Left || loc == MasterLocation::Right
}

/// The master and stack areas of the usable region `u`.
pub open spec fn tile_regions(
    loc: MasterLocation,
    u: Region,
    gap: int,
    master_size: int,
    has_stack: bool,
) -> (Region, Region) {
    let sg = if has_stack { gap } else { 0 };
    if master_is_column(loc) {
        let mw = if has_stack { master_size } else { u.w };
        let sw = u.w - mw - sg;
        if loc == MasterLocation::Left {
            (
                Region { x: u.x, y: u.y, w: mw, h: u.h },
                Region { x: u.x + mw + gap, y: u.y, w: sw, h: u.h },
            )
        } else {
            (
                Region { x: u.x + sw + gap, y: u.y, w: mw, h: u.h },
                Region { x: u.x, y: u.y, w: sw, h: u.h },
            )
        }
    } else {
        let mh = if has_stack { master_size } else { u.h };
        let sh = u.h - mh - sg;
        if loc == MasterLocation::Top {
            (
                Region { x: u.x, y: u.y, w: u.w, h: mh },
                Region { x: u.x, y: u.y + mh + gap, w: u.w, h: sh },
            )
        } else {
            (
                Region { x: u.x, y: u.y + sh + gap, w: u.w, h: mh },
                Region { x: u.x, y: u.y, w: u.w, h: sh },
            )
        }
    }
}

/// Every value computed for the master and stack areas fits in `i32`.
pub open spec fn tile_regions_fit(loc: MasterLocation, u: Region, gap: int, master_size: int, has_stack: bool) -> bool {
    let sg = if has_stack { gap } else { 0 };
    let extent = if master_is_column(loc) { u.w } else { u.h };
    let origin = if master_is_column(loc) { u.x } else { u.y };
    let m = if has_stack { master_size } else { extent };
    let s = extent - m - sg;
    &&& arith::fits_i32(extent - m)
    &&& arith::fits_i32(s)
    &&& arith::fits_i32(origin + m)
    &&& arith::fits_i32(origin + m + gap)
    &&& arith::fits_i32(origin + s)
    &&& arith::fits_i32(origin + s + gap)
}

/// Number of master windows among `n`.
pub open spec fn master_count(n: int, nmaster: int) -> int {
    arith::min_int(nmaster, n)
}

/// Where the tile layout puts the `k`-th of `n` windows.
pub open spec fn tile_cell(area: LayoutArea, n: int, cfg: TileConfig, master_size: int, k: int) -> Region {
    let u = super::usable_region(area, cfg.outer_gap as int);
    if n == 1 {
        u
    } else {
        let has_stack = n > cfg.nmaster;
        let regions = tile_regions(cfg.master_location, u, cfg.inner_gap as int, master_size, has_stack);
        let col = master_is_column(cfg.master_location);
        let mc = master_count(n, cfg.nmaster as int);
        if k < mc {
            super::split_region(regions.0, mc, k, cfg.inner_gap as int, col)
        } else {
            super::split_region(regions.1, n - mc, k - mc, cfg.inner_gap as int, col)
        }
    }
}

/// Arranging `n` windows with these settings stays within `i32` arithmetic.
pub open spec fn tile_fits(area: LayoutArea, n: int, cfg: TileConfig, master_size: int) -> bool {
    let u = super::usable_region(area, cfg.outer_gap as int);
    let has_stack = n > cfg.nmaster;
    let regions = tile_regions(cfg.master_location, u, cfg.inner_gap as int, master_size, has_stack);
    let col = master_is_column(cfg.master_location);
    let mc = master_count(n, cfg.nmaster as int);
    &&& n <= i32::MAX
    &&& super::usable_fits(area, cfg.outer_gap as int)
    &&& n >= 2 ==> {
        &&& tile_regions_fit(cfg.master_location, u, cfg.inner_gap as int, master_size, has_stack)
        &&& mc >= 1 ==> super::split_fits(regions.0, mc, cfg.inner_gap as int, col)
        &&& has_stack ==> super::split_fits(regions.1, n - mc, cfg.inner_gap as int, col)
    }
}

fn geometry_of(r: Ghost<Region>, x: i32, y: i32, w: i32, h: i32) -> (g: WindowGeometry)
    requires
        r@.x == x && r@.y == y && r@.w == w && r@.h == h,
    ensures
        super::region_of(g) == r@,
{
    WindowGeometry::new(x, y, w, h)
}

impl TileLayout {
    /// Arranges `windows` as masters and a stack.  `master_size` is the
    /// extent of the master area along the split, the usable extent less
    /// the inner gap scaled by the master fraction; it is read only when
    /// some windows go to the stack.
    pub fn arrange(
        &self,
        area: LayoutArea,
        windows: &[LayoutWindow],
        tile: &TileConfig,
        master_size: i32,
    ) -> (r: LayoutResult)
        requires
            tile_fits(area, windows@.len() as int, *tile, master_size as int),
        ensures
            r.geometries@.len() == windows@.len(),
            forall|k: int|
                0 <= k < windows@.len() ==> {
                    &&& (#[trigger] r.geometries@[k]).0 == windows@[k].id
                    &&& super::geometry_is(
                        r.geometries@[k].1,
                        tile_cell(area, windows@.len() as int, *tile, master_size as int, k),
                    )
                },
    {
        let n = windows.len();
        let mut geometries: Vec<(usize, WindowGeometry)> = Vec::new();
        if n == 0 {
            return LayoutResult { geometries };
        }
        let inner_gap = tile.inner_gap;
        let outer_gap = tile.outer_gap;
        let loc = tile.master_location;
        let usable = super::usable_area(area, outer_gap);
        let ghost u = super::usable_region(area, outer_gap as int);
        if n == 1 {
            geometries.push((windows[0].id, usable));
            return LayoutResult { geometries };
        }
        let nmaster = tile.nmaster as usize;
        let master_count = if nmaster < n { nmaster } else { n };
        let stack_count = if n > nmaster { n - nmaster } else { 0 };
        let has_stack = stack_count > 0;
        let ghost regions = tile_regions(loc, u, inner_gap as int, master_size as int, has_stack);
        let sg: i32 = if has_stack { inner_gap } else { 0 };
        let column = loc == MasterLocation::Left || loc == MasterLocation::Right;
        let (master, stack) = if column {
            let mw = if has_stack { master_size } else { usable.width };
            let sw = usable.width - mw - sg;
            if loc == MasterLocation::Left {
                (
                    geometry_of(Ghost(regions.0), usable.x, usable.y, mw, usable.height),
                    geometry_of(Ghost(regions.1), usable.x + mw + inner_gap, usable.y, sw, usable.height),
                )
            } else {
                (
                    geometry_of(Ghost(regions.0), usable.x + sw + inner_gap, usable.y, mw, usable.height),
                    geometry_of(Ghost(regions.1), usable.x, usable.y, sw, usable.height),
                )
            }
        } else {
            let mh = if has_stack { master_size } else { usable.height };
            let sh = usable.height - mh - sg;
            if loc == MasterLocation::Top {
                (
                    geometry_of(Ghost(regions.0), usable.x, usable.y, usable.width, mh),
                    geometry_of(Ghost(regions.1), usable.x, usable.y + mh + inner_gap, usable.width, sh),
                )
            } else {
                (
                    geometry_of(Ghost(regions.0), usable.x, usable.y + sh + inner_gap, usable.width, mh),
                    geometry_of(Ghost(regions.1), usable.x, usable.y, usable.width, sh),
                )
            }
        };
        if master_count > 0 {
            super::push_split(&mut geometries, windows, 0, master_count, master, inner_gap, column);
        }
        let ghost after_master = geometries@;
        if has_stack {
            super::push_split(&mut geometries, windows, master_count, stack_count, stack, inner_gap, column);
        }
        assert forall|k: int| 0 <= k < windows@.len() implies {
            &&& (#[trigger] geometries@[k]).0 == windows@[k].id
            &&& super::geometry_is(
                geometries@[k].1,
                tile_cell(area, windows@.len() as int, *tile, master_size as int, k),
            )
        } by {
            assert(after_master.len() == master_count);
            if k >= master_count {
                let j = k - master_count;
                assert(has_stack);
                assert(geometries@[after_master.len() + j] == geometries@[k]);
            } else {
                assert(geometries@[k] == after_master[k]);
                assert(after_master[0 + k] == after_master[k]);
            }
        }
        LayoutResult { geometries }
    }
}

/// With the master area on a side and windows left for the stack, the
/// masters fill a column `master_size` wide and the stack fills the rest
/// of the usable width beyond the inner gap: on the left side the masters
/// start at the usable area's left edge and the stack ends at its right
/// edge; on the right side the stack starts at the left edge, the masters
/// begin one gap after the stack and end at the right edge.
pub proof fn lemma_tile_side_columns(area: LayoutArea, n: int, cfg: TileConfig, master_size: int, k: int, j: int)
    requires
        master_is_column(cfg.master_location),
        n >= 2,
        1 <= cfg.nmaster < n,
        0 <= k < cfg.nmaster,
        cfg.nmaster <= j < n,
    ensures
        ({
            let u = super::usable_region(area, cfg.outer_gap as int);
            let m = tile_cell(area, n, cfg, master_size, k);
            let s = tile_cell(area, n, cfg, master_size, j);
            let gap = cfg.inner_gap as int;
            &&& m.w == master_size
            &&& s.w == u.w - master_size - gap
            &&& cfg.master_location == MasterLocation::Left ==> {
                &&& m.x == u.x
                &&& s.x == m.x + m.w + gap
                &&& s.x + s.w == u.x + u.w
            }
            &&& cfg.master_location == MasterLocation::Right ==> {
                &&& s.x == u.x
                &&& m.x == s.x + s.w + gap
                &&& m.x + m.w == u.x + u.w
            }
        }),
{
}

/// With the master area at the top or bottom and windows left for the
/// stack, the masters fill a row `master_size` high and the stack fills the
/// rest of the usable height beyond the inner gap: masters on top start at
/// the usable area's top edge with the stack below them ending at its
/// bottom edge; masters at the bottom begin one gap below the stack, which
/// starts at the top edge, and end at the bottom edge.
pub proof fn lemma_tile_rows(area: LayoutArea, n: int, cfg: TileConfig, master_size: int, k: int, j: int)
    requires
        !master_is_column(cfg.master_location),
        n >= 2,
        1 <= cfg.nmaster < n,
        0 <= k < cfg.nmaster,
        cfg.nmaster <= j < n,
    ensures
        ({
            let u = super::usable_region(area, cfg.outer_gap as int);
            let m = tile_cell(area, n, cfg, master_size, k);
            let s = tile_cell(area, n, cfg, master_size, j);
            let gap = cfg.inner_gap as int;
            &&& m.h == master_size
            &&& s.h == u.h - master_size - gap
            &&& cfg.master_location == MasterLocation::Top ==> {
                &&& m.y == u.y
                &&& s.y == m.y + m.h + gap
                &&& s.y + s.h == u.y + u.h
            }
            &&& cfg.master_location == MasterLocation::Bottom ==> {
                &&& s.y == u.y
                &&& m.y == s.y + s.h + gap
                &&& m.y + m.h == u.y + u.h
            }
        }),
{
}

/// When no window is left for the stack, every window is a master and the
/// masters are as wide (master area on a side) or as high (at the top or
/// bottom) as the usable area.  Masters on the left or top start at the
/// usable area's edge; on the right or bottom the inner gap before the
/// empty stack still shifts them by one gap.
pub proof fn lemma_tile_all_masters(area: LayoutArea, n: int, cfg: TileConfig, master_size: int, k: int)
    requires
        2 <= n <= cfg.nmaster,
        0 <= k < n,
    ensures
        ({
            let u = super::usable_region(area, cfg.outer_gap as int);
            let m = tile_cell(area, n, cfg, master_size, k);
            let gap = cfg.inner_gap as int;
            &&& master_is_column(cfg.master_location) ==> m.w == u.w
            &&& !master_is_column(cfg.master_location) ==> m.h == u.h
            &&& cfg.master_location == MasterLocation::Left ==> m.x == u.x
            &&& cfg.master_location == MasterLocation::Right ==> m.x == u.x + gap
            &&& cfg.master_location == MasterLocation::Top ==> m.y == u.y
            &&& cfg.master_location == MasterLocation::Bottom ==> m.y == u.y + gap
        }),
{
}

/// A single window takes the whole usable area.  With more windows, the
/// masters share their area in equal slices, and so do the windows of the
/// stack: stacked downwards one gap apart when the master area is on a
/// side, side by side one gap apart when it is at the top or bottom; the
/// first master and the first stack window each start at the edge of
/// their area.
pub proof fn lemma_tile_slices(area: LayoutArea, n: int, cfg: TileConfig, master_size: int, k: int)
    requires
        n >= 1,
        0 <= k,
        k + 1 < n,
    ensures
        ({
            let u = super::usable_region(area, cfg.outer_gap as int);
            let mc = master_count(n, cfg.nmaster as int);
            let a = tile_cell(area, n, cfg, master_size, k);
            let b = tile_cell(area, n, cfg, master_size, k + 1);
            let gap = cfg.inner_gap as int;
            let same_group = (k + 1 < mc) || (k >= mc);
            &&& tile_cell(area, 1, cfg, master_size, 0) == u
            &&& same_group && master_is_column(cfg.master_location) ==> {
                &&& b.x == a.x && b.w == a.w && b.h == a.h
                &&& b.y == a.y + a.h + gap
            }
            &&& same_group && !master_is_column(cfg.master_location) ==> {
                &&& b.y == a.y && b.h == a.h && b.w == a.w
                &&& b.x == a.x + a.w + gap
            }
            &&& n >= 2 && mc >= 1 && master_is_column(cfg.master_location) ==> tile_cell(area, n, cfg, master_size, 0).y == u.y
            &&& n >= 2 && mc >= 1 && !master_is_column(cfg.master_location) ==> tile_cell(area, n, cfg, master_size, 0).x == u.x
            &&& n >= 2 && mc < n && master_is_column(cfg.master_location) ==> tile_cell(area, n, cfg, master_size, mc).y == u.y
            &&& n >= 2 && mc < n && !master_is_column(cfg.master_location) ==> tile_cell(area, n, cfg, master_size, mc).x == u.x
        }),
{
    let mc = master_count(n, cfg.nmaster as int);
    let gap = cfg.inner_gap as int;
    let u = super::usable_region(area, cfg.outer_gap as int);
    let has_stack = n > cfg.nmaster;
    let regions = tile_regions(cfg.master_location, u, gap, master_size, has_stack);
    let col = master_is_column(cfg.master_location);
    if k + 1 < mc {
        let e = if col { regions.0.h } else { regions.0.w };
        let sz = arith::tdiv(e - (mc - 1) * gap, mc);
        assert((k + 1) * (sz + gap) == k * (sz + gap) + sz + gap) by (nonlinear_arith);
    } else if k >= mc {
        let e = if col { regions.1.h } else { regions.1.w };
        let sz = arith::tdiv(e - (n - mc - 1) * gap, n - mc);
        assert((k + 1 - mc) * (sz + gap) == (k - mc) * (sz + gap) + sz + gap) by (nonlinear_arith);
    }
}

} // verus!
