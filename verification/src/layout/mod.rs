//! Layout algorithms that place the windows of an output.
//!
//! Each layout turns a usable area and an ordered list of windows into one
//! geometry per placed window.  Where a layout scales a length by a
//! fractional factor, the caller hands the scaled length in as an integer.

use vstd::prelude::*;
use crate::arith;

pub mod float;
pub mod grid;
pub mod monocle;
pub mod scroller;
pub mod tile;

pub use float::FloatLayout;
pub use grid::{calculate_grid_dimensions, GridConfig, GridDirection, GridLayout};
pub use monocle::{MonocleConfig, MonocleLayout};
pub use scroller::{ScrollerConfig, ScrollerLayout};
pub use tile::{MasterLocation, TileConfig, TileLayout};

verus! {

/// Layout type enumeration
#[derive(Debug, Clone, Copy, PartialEq, Eq, Structural)]
pub enum LayoutType {
    Tile,
    Grid,
    Monocle,
    Scroller,
    Float,
}

impl Default for LayoutType {
    fn default() -> (r: Self)
        ensures
            r == LayoutType::Tile,
    {
        LayoutType::Tile
    }
}

/// Window geometry for layout calculations
#[derive(Debug, Clone, Copy)]
pub struct WindowGeometry {
    pub x: i32,
    pub y: i32,
    pub width: i32,
    pub height: i32,
}

impl Default for WindowGeometry {
    fn default() -> (r: Self)
        ensures
            r.x == 0 && r.y == 0 && r.width == 0 && r.height == 0,
    {
        WindowGeometry { x: 0, y: 0, width: 0, height: 0 }
    }
}

impl WindowGeometry {
    pub fn new(x: i32, y: i32, width: i32, height: i32) -> (r: Self)
        ensures
            r.x == x && r.y == y && r.width == width && r.height == height,
    {
        WindowGeometry { x, y, width, height }
    }
}

/// Area available for layout
#[derive(Debug, Clone, Copy)]
pub struct LayoutArea {
    pub x: i32,
    pub y: i32,
    pub width: i32,
    pub height: i32,
}

impl LayoutArea {
    pub fn new(x: i32, y: i32, width: i32, height: i32) -> (r: Self)
        ensures
            r.x == x && r.y == y && r.width == width && r.height == height,
    {
        LayoutArea { x, y, width, height }
    }
}

/// Window information for layout calculation
#[derive(Debug, Clone, Copy)]
pub struct LayoutWindow {
    /// Window identifier
    pub id: usize,
    /// Minimum width
    pub min_width: i32,
    /// Minimum height
    pub min_height: i32,
    /// Whether this window is focused
    pub focused: bool,
    /// Per-window scroller factor override, as the bit pattern of an `f32`
    pub scroller_mfact: Option<u32>,
}

/// Result of a layout calculation
#[derive(Debug, Clone)]
pub struct LayoutResult {
    pub geometries: Vec<(usize, WindowGeometry)>,
}

/// A rectangle over mathematical integers, used to state where windows go.
pub struct Region {
    pub x: int,
    pub y: int,
    pub w: int,
    pub h: int,
}

/// The geometry `g` is exactly the rectangle `r`.
pub open spec fn geometry_is(g: WindowGeometry, r: Region) -> bool {
    g.x == r.x && g.y == r.y && g.width == r.w && g.height == r.h
}

pub open spec fn region_of(g: WindowGeometry) -> Region {
    Region { x: g.x as int, y: g.y as int, w: g.width as int, h: g.height as int }
}

/// The area left once a gap is taken off every side.
pub open spec fn usable_region(area: LayoutArea, gap: int) -> Region {
    Region { x: area.x + gap, y: area.y + gap, w: area.width - 2 * gap, h: area.height - 2 * gap }
}

/// Taking the gap off every side of `area` stays within `i32`.
pub open spec fn usable_fits(area: LayoutArea, gap: int) -> bool {
    &&& arith::fits_i32(area.x + gap)
    &&& arith::fits_i32(area.y + gap)
    &&& arith::fits_i32(2 * gap)
    &&& arith::fits_i32(area.width - 2 * gap)
    &&& arith::fits_i32(area.height - 2 * gap)
}

/// The `i`-th of `count` equal slices of `region`, separated by `gap`;
/// slices follow each other downwards when `vertical`, else rightwards.
pub open spec fn split_region(region: Region, count: int, i: int, gap: int, vertical: bool) -> Region {
    if vertical {
        let h = arith::tdiv(region.h - (count - 1) * gap, count);
        Region { x: region.x, y: region.y + i * (h + gap), w: region.w, h: h }
    } else {
        let w = arith::tdiv(region.w - (count - 1) * gap, count);
        Region { x: region.x + i * (w + gap), y: region.y, w: w, h: region.h }
    }
}

/// Every value computed while slicing `region` into `count` parts fits in `i32`.
pub open spec fn split_fits(region: Region, count: int, gap: int, vertical: bool) -> bool {
    let extent = if vertical { region.h } else { region.w };
    let origin = if vertical { region.y } else { region.x };
    let size = arith::tdiv(extent - (count - 1) * gap, count);
    &&& 1 <= count <= i32::MAX
    &&& arith::fits_i32((count - 1) * gap)
    &&& arith::fits_i32(extent - (count - 1) * gap)
    &&& arith::fits_i32(size + gap)
    &&& arith::fits_i32((count - 1) * (size + gap))
    &&& arith::fits_i32(origin + (count - 1) * (size + gap))
}

/// Index of the first focused window, or 0 when none is focused.
pub open spec fn focused_index(ws: Seq<LayoutWindow>) -> int {
    let f = first_focused_from(ws, 0);
    if f < ws.len() { f } else { 0 }
}

/// Index of the first focused window at or after `i`, or `ws.len()`.
pub open spec fn first_focused_from(ws: Seq<LayoutWindow>, i: int) -> int
    decreases ws.len() - i,
{
    if i >= ws.len() || i < 0 {
        ws.len() as int
    } else if ws[i].focused {
        i
    } else {
        first_focused_from(ws, i + 1)
    }
}

proof fn lemma_first_focused(ws: Seq<LayoutWindow>, i: int)
    requires
        0 <= i <= ws.len(),
    ensures
        i <= first_focused_from(ws, i) <= ws.len(),
        first_focused_from(ws, i) < ws.len() ==> ws[first_focused_from(ws, i)].focused,
        forall|j: int| i <= j < first_focused_from(ws, i) ==> !(#[trigger] ws[j]).focused,
    decreases ws.len() - i,
{
    if i < ws.len() && !ws[i].focused {
        lemma_first_focused(ws, i + 1);
    }
}

/// The focused position is that of the first window marked focused; when
/// no window is marked, it is the first window.
pub proof fn lemma_focused_index(ws: Seq<LayoutWindow>)
    ensures
        ws.len() > 0 ==> 0 <= focused_index(ws) < ws.len(),
        (exists|j: int| 0 <= j < ws.len() && (#[trigger] ws[j]).focused) ==> {
            &&& ws[focused_index(ws)].focused
            &&& forall|j: int| 0 <= j < focused_index(ws) ==> !(#[trigger] ws[j]).focused
        },
        (forall|j: int| 0 <= j < ws.len() ==> !(#[trigger] ws[j]).focused) ==> focused_index(ws) == 0,
{
    lemma_first_focused(ws, 0);
}

/// Position of the first focused window, falling back to the first window.
pub fn find_focused(windows: &[LayoutWindow]) -> (r: usize)
    ensures
        r == focused_index(windows@),
        windows@.len() > 0 ==> r < windows@.len(),
{
    proof {
        lemma_first_focused(windows@, 0);
    }
    let n = windows.len();
    let mut i: usize = 0;
    while i < n
        invariant
            n == windows@.len(),
            0 <= i <= n,
            first_focused_from(windows@, 0) == first_focused_from(windows@, i as int),
        decreases n - i,
    {
        if windows[i].focused {
            return i;
        }
        i = i + 1;
    }
    0
}

/// The area of `area` left once `gap` is taken off every side.
pub fn usable_area(area: LayoutArea, gap: i32) -> (r: WindowGeometry)
    requires
        usable_fits(area, gap as int),
    ensures
        geometry_is(r, usable_region(area, gap as int)),
{
    WindowGeometry::new(area.x + gap, area.y + gap, area.width - 2 * gap, area.height - 2 * gap)
}

/// Appends `count` equal slices of `region` for `windows[start..start + count]`.
pub(crate) fn push_split(
    geoms: &mut Vec<(usize, WindowGeometry)>,
    windows: &[LayoutWindow],
    start: usize,
    count: usize,
    region: WindowGeometry,
    gap: i32,
    vertical: bool,
)
    requires
        start + count <= windows@.len(),
        split_fits(region_of(region), count as int, gap as int, vertical),
    ensures
        final(geoms)@.len() == old(geoms)@.len() + count,
        forall|k: int| 0 <= k < old(geoms)@.len() ==> final(geoms)@[k] == old(geoms)@[k],
        forall|j: int|
            0 <= j < count ==> {
                &&& (#[trigger] final(geoms)@[old(geoms)@.len() + j]).0 == windows@[start + j].id
                &&& geometry_is(
                    final(geoms)@[old(geoms)@.len() + j].1,
                    split_region(region_of(region), count as int, j, gap as int, vertical),
                )
            },
{
    let ghost r = region_of(region);
    let ghost old_len = geoms@.len();
    let c: i32 = count as i32;
    let extent = if vertical { region.height } else { region.width };
    let size = (extent - (c - 1) * gap) / c;
    let step = size + gap;
    proof {
        assert(size == arith::tdiv(extent - (count - 1) * gap, count as int));
    }
    let n = windows.len();
    let mut i: usize = 0;
    while i < count
        invariant
            0 <= i <= count,
            n == windows@.len(),
            c == count,
            start + count <= windows@.len(),
            r == region_of(region),
            split_fits(r, count as int, gap as int, vertical),
            extent == (if vertical { region.height } else { region.width }),
            size == arith::tdiv(extent - (count - 1) * gap, count as int),
            step == size + gap,
            geoms@.len() == old_len + i,
            forall|k: int| 0 <= k < old_len ==> geoms@[k] == old(geoms)@[k],
            forall|j: int|
                0 <= j < i ==> {
                    &&& (#[trigger] geoms@[old_len + j]).0 == windows@[start + j].id
                    &&& geometry_is(
                        geoms@[old_len + j].1,
                        split_region(r, count as int, j, gap as int, vertical),
                    )
                },
        decreases count - i,
    {
        let origin = if vertical { region.y } else { region.x };
        proof {
            arith::lemma_linear_fits(origin as int, i as int, count - 1, step as int);
        }
        let ii: i32 = i as i32;
        let offset = ii * step;
        let pos = origin + offset;
        let g = if vertical {
            WindowGeometry::new(region.x, pos, region.width, size)
        } else {
            WindowGeometry::new(pos, region.y, size, region.height)
        };
        geoms.push((windows[start + i].id, g));
        i = i + 1;
    }
}


/// Lengths that the layouts scale by fractional factors, computed by the
/// caller: the tile master extent, and the scroller's focused width and the
/// widths of the windows beside it by distance.
pub struct ScaledSizes {
    pub tile_master: i32,
    pub scroller_main: i32,
    pub scroller_sides: Vec<i32>,
}

/// The sizes let the layout run within `i32` arithmetic.
pub open spec fn arrange_fits(
    layout_type: LayoutType,
    area: LayoutArea,
    windows: Seq<LayoutWindow>,
    config: crate::config::MutableConfig,
    sizes: ScaledSizes,
) -> bool {
    match layout_type {
        LayoutType::Tile => tile::tile_fits(area, windows.len() as int, config.tile, sizes.tile_master as int),
        LayoutType::Grid => grid::grid_fits(area, windows.len() as int, config.grid),
        LayoutType::Monocle => usable_fits(area, config.monocle.gap as int),
        LayoutType::Scroller => scroller::scroller_fits(
            area,
            windows,
            config.scroller,
            sizes.scroller_main as int,
            sizes.scroller_sides@,
        ),
        LayoutType::Float => true,
    }
}

/// What `arrange` gives for each layout.
pub open spec fn arranged(
    r: LayoutResult,
    layout_type: LayoutType,
    area: LayoutArea,
    windows: Seq<LayoutWindow>,
    config: crate::config::MutableConfig,
    sizes: ScaledSizes,
) -> bool {
    match layout_type {
        LayoutType::Tile => {
            &&& r.geometries@.len() == windows.len()
            &&& forall|k: int|
                0 <= k < windows.len() ==> {
                    &&& (#[trigger] r.geometries@[k]).0 == windows[k].id
                    &&& geometry_is(
                        r.geometries@[k].1,
                        tile::tile_cell(area, windows.len() as int, config.tile, sizes.tile_master as int, k),
                    )
                }
        },
        LayoutType::Grid => {
            &&& r.geometries@.len() == windows.len()
            &&& forall|i: int|
                0 <= i < windows.len() ==> {
                    &&& (#[trigger] r.geometries@[i]).0 == windows[i].id
                    &&& geometry_is(r.geometries@[i].1, grid::grid_cell(area, windows.len() as int, config.grid, i))
                }
        },
        LayoutType::Monocle => {
            &&& windows.len() == 0 ==> r.geometries@.len() == 0
            &&& windows.len() > 0 ==> {
                &&& r.geometries@.len() == 1
                &&& r.geometries@[0].0 == windows[focused_index(windows)].id
                &&& geometry_is(r.geometries@[0].1, usable_region(area, config.monocle.gap as int))
            }
        },
        LayoutType::Scroller => scroller::scroller_arranged(
            r,
            area,
            windows,
            config.scroller,
            sizes.scroller_main as int,
            sizes.scroller_sides@,
        ),
        LayoutType::Float => r.geometries@.len() == 0,
    }
}

/// Arrange windows using the specified layout type
pub fn arrange(
    layout_type: LayoutType,
    area: LayoutArea,
    windows: &[LayoutWindow],
    config: &crate::config::MutableConfig,
    sizes: &ScaledSizes,
) -> (r: LayoutResult)
    requires
        arrange_fits(layout_type, area, windows@, *config, *sizes),
    ensures
        arranged(r, layout_type, area, windows@, *config, *sizes),
{
    match layout_type {
        LayoutType::Tile => TileLayout.arrange(area, windows, &config.tile, sizes.tile_master),
        LayoutType::Grid => GridLayout.arrange(area, windows, &config.grid),
        LayoutType::Monocle => MonocleLayout.arrange(area, windows, &config.monocle),
        LayoutType::Scroller => ScrollerLayout.arrange(
            area,
            windows,
            &config.scroller,
            sizes.scroller_main,
            sizes.scroller_sides.as_slice(),
        ),
        LayoutType::Float => FloatLayout.arrange(area, windows),
    }
}

} // verus!
