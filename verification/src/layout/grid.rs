//! Grid layout - automatic grid arrangement

use vstd::prelude::*;
use crate::arith;
use super::{LayoutArea, LayoutResult, LayoutWindow, Region, WindowGeometry};

verus! {

/// Grid layout direction
#[derive(Debug, Clone, Copy, PartialEq, Eq, Structural)]
pub enum GridDirection {
    Horizontal,
    Vertical,
}

impl Default for GridDirection {
    fn default() -> (r: Self)
        ensures
            r == GridDirection::Horizontal,
    {
        GridDirection::Horizontal
    }
}

/// Grid layout configuration
#[derive(Debug, Clone, Copy)]
pub struct GridConfig {
    pub outer_gap: i32,
    pub inner_gap: i32,
    pub direction: GridDirection,
}

impl Default for GridConfig {
    fn default() -> (r: Self)
        ensures
            r.outer_gap == 9,
            r.inner_gap == 12,
            r.direction == GridDirection::Horizontal,
    {
        GridConfig { outer_gap: 9, inner_gap: 12, direction: GridDirection::Horizontal }
    }
}

pub struct GridLayout;

/// Smallest `t >= s` with `t * t >= n`, searching upwards from `s`.
pub open spec fn ceil_sqrt_from(n: int, s: int) -> int
    decreases n - s,
{
    if s < 0 || s >= n || s * s >= n {
        s
    } else {
        ceil_sqrt_from(n, s + 1)
    }
}

pub open spec fn square(t: int) -> int {
    t * t
}

/// The square root of `n` rounded up.
pub open spec fn ceil_sqrt(n: int) -> int {
    ceil_sqrt_from(n, 0)
}

/// The number of lines needed for `n` cells when a line holds `per_line`.
pub open spec fn lines_for(n: int, per_line: int) -> int {
    (n - 1) / per_line + 1
}

/// Columns and rows of the grid for `n` windows.
pub open spec fn grid_dims(n: int, direction: GridDirection) -> (int, int) {
    if n <= 0 {
        (0, 0)
    } else {
        let s = ceil_sqrt(n);
        match direction {
            GridDirection::Horizontal => (s, lines_for(n, s)),
            GridDirection::Vertical => (lines_for(n, s), s),
        }
    }
}

proof fn lemma_ceil_sqrt_from(n: int, s: int)
    requires
        0 <= s <= n,
        1 <= n,
        forall|t: int| 0 <= t < s ==> #[trigger] square(t) < n,
    ensures
        ceil_sqrt_from(n, s) * ceil_sqrt_from(n, s) >= n,
        ceil_sqrt_from(n, s) >= 1,
        ceil_sqrt_from(n, s) <= n,
        forall|t: int| 0 <= t < ceil_sqrt_from(n, s) ==> #[trigger] square(t) < n,
    decreases n - s,
{
    if s >= n {
        assert(n * n >= n) by (nonlinear_arith)
            requires
                n >= 1,
        ;
    } else if s * s >= n {
        if s == 0 {
            assert(s * s == 0) by (nonlinear_arith)
                requires
                    s == 0,
            ;
        }
    } else {
        assert forall|t: int| 0 <= t < s + 1 implies #[trigger] square(t) < n by {
            if t == s {
            }
        }
        lemma_ceil_sqrt_from(n, s + 1);
    }
}

/// The square root rounded up is the one number whose square reaches `n`
/// while the square of its predecessor stays below `n`.
pub proof fn lemma_ceil_sqrt(n: int)
    requires
        n >= 1,
    ensures
        1 <= ceil_sqrt(n) <= n,
        ceil_sqrt(n) * ceil_sqrt(n) >= n,
        (ceil_sqrt(n) - 1) * (ceil_sqrt(n) - 1) < n,
{
    lemma_ceil_sqrt_from(n, 0);
    let s = ceil_sqrt(n);
    assert(square(s - 1) < n);
}

/// Grid dimensions cover all `n` cells without exceeding `n` in either direction.
pub proof fn lemma_grid_dims(n: int, direction: GridDirection)
    requires
        n >= 1,
    ensures
        1 <= grid_dims(n, direction).0 <= n,
        1 <= grid_dims(n, direction).1 <= n,
        grid_dims(n, direction).0 * grid_dims(n, direction).1 >= n,
{
    lemma_ceil_sqrt(n);
    let s = ceil_sqrt(n);
    let l = lines_for(n, s);
    assert(1 <= l <= n && s * l >= n) by (nonlinear_arith)
        requires
            1 <= s <= n,
            l == (n - 1) / s + 1,
    {
        assert(0 <= (n - 1) / s <= n - 1);
        assert(s * ((n - 1) / s) + (n - 1) % s == n - 1);
        assert((n - 1) % s < s);
    }
    assert(l * s == s * l) by (nonlinear_arith);
}

fn square_below(s: usize, n: usize) -> (b: bool)
    ensures
        b == (s * s < n),
{
    let s128 = s as u128;
    assert(s128 * s128 <= 0xffff_ffff_ffff_ffffu128 * 0xffff_ffff_ffff_ffffu128) by (nonlinear_arith)
        requires
            s128 <= 0xffff_ffff_ffff_ffffu128,
    ;
    s128 * s128 < (n as u128)
}

/// Calculate grid dimensions (columns, rows) for n windows: the square
/// root of `n` rounded up in the preferred direction, and as many lines as
/// that needs in the other.
pub fn calculate_grid_dimensions(n: usize, direction: GridDirection) -> (r: (usize, usize))
    ensures
        r.0 == grid_dims(n as int, direction).0,
        r.1 == grid_dims(n as int, direction).1,
{
    if n == 0 {
        return (0, 0);
    }
    let mut s: usize = 0;
    while square_below(s, n)
        invariant
            0 <= s <= n,
            ceil_sqrt_from(n as int, s as int) == ceil_sqrt(n as int),
        decreases n - s,
    {
        assert(s < n) by (nonlinear_arith)
            requires
                s * s < n,
                s >= 0,
        ;
        s = s + 1;
    }
    proof {
        lemma_ceil_sqrt(n as int);
    }
    let lines = (n - 1) / s + 1;
    match direction {
        GridDirection::Horizontal => (s, lines),
        GridDirection::Vertical => (lines, s),
    }
}

/// Column and row of the `i`-th window.
pub open spec fn grid_position(i: int, cols: int, rows: int, direction: GridDirection) -> (int, int) {
    match direction {
        GridDirection::Horizontal => (i % cols, i / cols),
        GridDirection::Vertical => (i / rows, i % rows),
    }
}

/// Where the grid layout puts the `i`-th of `n` windows.
pub open spec fn grid_cell(area: LayoutArea, n: int, cfg: GridConfig, i: int) -> Region {
    let u = super::usable_region(area, cfg.outer_gap as int);
    let g = cfg.inner_gap as int;
    if n == 1 {
        u
    } else {
        let (cols, rows) = grid_dims(n, cfg.direction);
        let cw = arith::tdiv(u.w - (cols - 1) * g, cols);
        let ch = arith::tdiv(u.h - (rows - 1) * g, rows);
        let (col, row) = grid_position(i, cols, rows, cfg.direction);
        let x = u.x + col * (cw + g);
        let y = u.y + row * (ch + g);
        let w = if cfg.direction == GridDirection::Horizontal && row == rows - 1 && i == n - 1 && n % cols != 0 {
            u.w - col * (cw + g)
        } else {
            cw
        };
        let h = if cfg.direction == GridDirection::Vertical && col == cols - 1 && i == n - 1 && n % rows != 0 {
            u.h - row * (ch + g)
        } else {
            ch
        };
        Region { x, y, w, h }
    }
}

/// Arranging `n` windows in a grid stays within `i32` arithmetic.
pub open spec fn grid_fits(area: LayoutArea, n: int, cfg: GridConfig) -> bool {
    let u = super::usable_region(area, cfg.outer_gap as int);
    let g = cfg.inner_gap as int;
    let (cols, rows) = grid_dims(n, cfg.direction);
    let cw = arith::tdiv(u.w - (cols - 1) * g, cols);
    let ch = arith::tdiv(u.h - (rows - 1) * g, rows);
    &&& n <= i32::MAX
    &&& super::usable_fits(area, cfg.outer_gap as int)
    &&& n >= 2 ==> {
        &&& arith::fits_i32((cols - 1) * g)
        &&& arith::fits_i32(u.w - (cols - 1) * g)
        &&& arith::fits_i32(cw + g)
        &&& arith::fits_i32((cols - 1) * (cw + g))
        &&& arith::fits_i32(u.x + (cols - 1) * (cw + g))
        &&& arith::fits_i32((rows - 1) * g)
        &&& arith::fits_i32(u.h - (rows - 1) * g)
        &&& arith::fits_i32(ch + g)
        &&& arith::fits_i32((rows - 1) * (ch + g))
        &&& arith::fits_i32(u.y + (rows - 1) * (ch + g))
        &&& arith::fits_i32(u.w - ((n - 1) % cols) * (cw + g))
        &&& arith::fits_i32(u.h - ((n - 1) % rows) * (ch + g))
    }
}

proof fn lemma_position_bounds(i: int, n: int, cols: int, rows: int, direction: GridDirection)
    requires
        0 <= i < n,
        cols >= 1,
        rows >= 1,
        cols * rows >= n,
        direction == GridDirection::Horizontal ==> rows == (n - 1) / cols + 1,
        direction == GridDirection::Vertical ==> cols == (n - 1) / rows + 1,
    ensures
        0 <= grid_position(i, cols, rows, direction).0 < cols,
        0 <= grid_position(i, cols, rows, direction).1 < rows,
{
    match direction {
        GridDirection::Horizontal => {
            assert(0 <= i / cols <= (n - 1) / cols) by (nonlinear_arith)
                requires
                    0 <= i <= n - 1,
                    cols >= 1,
            {
                vstd::arithmetic::div_mod::lemma_div_is_ordered(i, n - 1, cols);
            }
        },
        GridDirection::Vertical => {
            assert(0 <= i / rows <= (n - 1) / rows) by (nonlinear_arith)
                requires
                    0 <= i <= n - 1,
                    rows >= 1,
            {
                vstd::arithmetic::div_mod::lemma_div_is_ordered(i, n - 1, rows);
            }
        },
    }
}

impl GridLayout {
    /// Arranges `windows` row by row (or column by column) in a grid of
    /// equal cells; the last window of an incomplete line fills the line.
    pub fn arrange(&self, area: LayoutArea, windows: &[LayoutWindow], grid: &GridConfig) -> (r: LayoutResult)
        requires
            grid_fits(area, windows@.len() as int, *grid),
        ensures
            r.geometries@.len() == windows@.len(),
            forall|i: int|
                0 <= i < windows@.len() ==> {
                    &&& (#[trigger] r.geometries@[i]).0 == windows@[i].id
                    &&& super::geometry_is(r.geometries@[i].1, grid_cell(area, windows@.len() as int, *grid, i))
                },
    {
        let n = windows.len();
        let mut geometries: Vec<(usize, WindowGeometry)> = Vec::new();
        if n == 0 {
            return LayoutResult { geometries };
        }
        let outer_gap = grid.outer_gap;
        let inner_gap = grid.inner_gap;
        let direction = grid.direction;
        let usable = super::usable_area(area, outer_gap);
        if n == 1 {
            geometries.push((windows[0].id, usable));
            return LayoutResult { geometries };
        }
        let (cols, rows) = calculate_grid_dimensions(n, direction);
        proof {
            lemma_grid_dims(n as int, direction);
            lemma_ceil_sqrt(n as int);
        }
        let ci: i32 = cols as i32;
        let ri: i32 = rows as i32;
        let cell_w = (usable.width - (ci - 1) * inner_gap) / ci;
        let cell_h = (usable.height - (ri - 1) * inner_gap) / ri;
        let step_x = cell_w + inner_gap;
        let step_y = cell_h + inner_gap;
        let mut i: usize = 0;
        while i < n
            invariant
                n == windows@.len(),
                2 <= n <= i32::MAX,
                0 <= i <= n,
                grid_fits(area, n as int, *grid),
                direction == grid.direction,
                inner_gap == grid.inner_gap,
                super::geometry_is(usable, super::usable_region(area, outer_gap as int)),
                outer_gap == grid.outer_gap,
                cols == grid_dims(n as int, direction).0,
                rows == grid_dims(n as int, direction).1,
                1 <= cols <= n,
                1 <= rows <= n,
                cols * rows >= n,
                direction == GridDirection::Horizontal ==> rows == (n - 1) / (cols as int) + 1,
                direction == GridDirection::Vertical ==> cols == (n - 1) / (rows as int) + 1,
                ci == cols,
                ri == rows,
                cell_w == arith::tdiv(usable.width - (cols - 1) * inner_gap, cols as int),
                cell_h == arith::tdiv(usable.height - (rows - 1) * inner_gap, rows as int),
                step_x == cell_w + inner_gap,
                step_y == cell_h + inner_gap,
                geometries@.len() == i,
                forall|j: int|
                    0 <= j < i ==> {
                        &&& (#[trigger] geometries@[j]).0 == windows@[j].id
                        &&& super::geometry_is(geometries@[j].1, grid_cell(area, n as int, *grid, j))
                    },
            decreases n - i,
        {
            proof {
                lemma_position_bounds(i as int, n as int, cols as int, rows as int, direction);
            }
            let (col, row) = match direction {
                GridDirection::Horizontal => (i % cols, i / cols),
                GridDirection::Vertical => (i / rows, i % rows),
            };
            proof {
                arith::lemma_linear_fits(usable.x as int, col as int, cols - 1, step_x as int);
                arith::lemma_linear_fits(usable.y as int, row as int, rows - 1, step_y as int);
            }
            let coli: i32 = col as i32;
            let rowi: i32 = row as i32;
            let x = usable.x + coli * step_x;
            let y = usable.y + rowi * step_y;
            let w = if direction == GridDirection::Horizontal && row == rows - 1 && i == n - 1 && n % cols != 0 {
                usable.width - coli * step_x
            } else {
                cell_w
            };
            let h = if direction == GridDirection::Vertical && col == cols - 1 && i == n - 1 && n % rows != 0 {
                usable.height - rowi * step_y
            } else {
                cell_h
            };
            geometries.push((windows[i].id, WindowGeometry::new(x, y, w, h)));
            i = i + 1;
        }
        LayoutResult { geometries }
    }
}

/// In a row-by-row grid whose last row is not full, the last window
/// stretches to the usable area's right edge; in a column-by-column grid
/// whose last column is not full, it stretches to the bottom edge.  When
/// the last line is full, the last window keeps the size of the others.
pub proof fn lemma_grid_last_fills_line(area: LayoutArea, n: int, cfg: GridConfig)
    requires
        n >= 2,
    ensures
        ({
            let u = super::usable_region(area, cfg.outer_gap as int);
            let (cols, rows) = grid_dims(n, cfg.direction);
            let last = grid_cell(area, n, cfg, n - 1);
            let first = grid_cell(area, n, cfg, 0);
            &&& cfg.direction == GridDirection::Horizontal && n % cols != 0 ==> last.x + last.w == u.x + u.w
            &&& cfg.direction == GridDirection::Horizontal && n % cols == 0 ==> last.w == first.w
            &&& cfg.direction == GridDirection::Vertical && n % rows != 0 ==> last.y + last.h == u.y + u.h
            &&& cfg.direction == GridDirection::Vertical && n % rows == 0 ==> last.h == first.h
            &&& last.h == first.h || last.w == first.w
        }),
{
    lemma_grid_dims(n, cfg.direction);
    lemma_ceil_sqrt(n);
    let (cols, rows) = grid_dims(n, cfg.direction);
    match cfg.direction {
        GridDirection::Horizontal => {
            assert((n - 1) / cols == rows - 1);
        },
        GridDirection::Vertical => {
            assert((n - 1) / rows == cols - 1);
        },
    }
}

/// Neighbours in a grid sit one inner gap apart: in a row-by-row grid the
/// next window on the same row starts one gap after the right edge of the
/// one before it, at the same height; in a column-by-column grid the next
/// window in the same column starts one gap below the one before it.
pub proof fn lemma_grid_neighbours(area: LayoutArea, n: int, cfg: GridConfig, i: int)
    requires
        n >= 2,
        0 <= i,
        i + 1 < n,
    ensures
        ({
            let (cols, rows) = grid_dims(n, cfg.direction);
            let a = grid_cell(area, n, cfg, i);
            let b = grid_cell(area, n, cfg, i + 1);
            let g = cfg.inner_gap as int;
            &&& cfg.direction == GridDirection::Horizontal && (i + 1) % cols != 0 ==> b.x == a.x + a.w + g && b.y == a.y
            &&& cfg.direction == GridDirection::Vertical && (i + 1) % rows != 0 ==> b.y == a.y + a.h + g && b.x == a.x
        }),
{
    lemma_grid_dims(n, cfg.direction);
    let (cols, rows) = grid_dims(n, cfg.direction);
    let g = cfg.inner_gap as int;
    match cfg.direction {
        GridDirection::Horizontal => {
            if (i + 1) % cols != 0 {
                vstd::arithmetic::div_mod::lemma_fundamental_div_mod(i, cols);
                vstd::arithmetic::div_mod::lemma_fundamental_div_mod(i + 1, cols);
                assert((i + 1) / cols == i / cols && (i + 1) % cols == i % cols + 1) by (nonlinear_arith)
                    requires
                        cols >= 1,
                        i >= 0,
                        (i + 1) % cols != 0,
                        i == cols * (i / cols) + i % cols,
                        i + 1 == cols * ((i + 1) / cols) + (i + 1) % cols,
                        0 <= i % cols < cols,
                        0 <= (i + 1) % cols < cols,
                ;
                let cw = arith::tdiv(super::usable_region(area, cfg.outer_gap as int).w - (cols - 1) * g, cols);
                let c = i % cols;
                assert((c + 1) * (cw + g) == c * (cw + g) + cw + g) by (nonlinear_arith);
            }
        },
        GridDirection::Vertical => {
            if (i + 1) % rows != 0 {
                vstd::arithmetic::div_mod::lemma_fundamental_div_mod(i, rows);
                vstd::arithmetic::div_mod::lemma_fundamental_div_mod(i + 1, rows);
                assert((i + 1) / rows == i / rows && (i + 1) % rows == i % rows + 1) by (nonlinear_arith)
                    requires
                        rows >= 1,
                        i >= 0,
                        (i + 1) % rows != 0,
                        i == rows * (i / rows) + i % rows,
                        i + 1 == rows * ((i + 1) / rows) + (i + 1) % rows,
                        0 <= i % rows < rows,
                        0 <= (i + 1) % rows < rows,
                ;
                let ch = arith::tdiv(super::usable_region(area, cfg.outer_gap as int).h - (rows - 1) * g, rows);
                let r = i % rows;
                assert((r + 1) * (ch + g) == r * (ch + g) + ch + g) by (nonlinear_arith);
            }
        },
    }
}

/// A single window takes the whole usable area; otherwise the grid starts
/// at the usable area's top-left corner, and each new row (or column)
/// starts back at the left (top) edge, one gap below (right of) the one
/// before.
pub proof fn lemma_grid_origin(area: LayoutArea, n: int, cfg: GridConfig, i: int)
    requires
        n >= 1,
    ensures
        ({
            let u = super::usable_region(area, cfg.outer_gap as int);
            let (cols, rows) = grid_dims(n, cfg.direction);
            let g = cfg.inner_gap as int;
            &&& n == 1 ==> grid_cell(area, n, cfg, 0) == u
            &&& n >= 2 ==> grid_cell(area, n, cfg, 0).x == u.x && grid_cell(area, n, cfg, 0).y == u.y
            &&& n >= 2 && cfg.direction == GridDirection::Horizontal && 1 <= i && i * cols < n ==> {
                &&& grid_cell(area, n, cfg, i * cols).x == u.x
                &&& grid_cell(area, n, cfg, i * cols).y == grid_cell(area, n, cfg, (i - 1) * cols).y + grid_cell(
                    area,
                    n,
                    cfg,
                    (i - 1) * cols,
                ).h + g
            }
            &&& n >= 2 && cfg.direction == GridDirection::Vertical && 1 <= i && i * rows < n ==> {
                &&& grid_cell(area, n, cfg, i * rows).y == u.y
                &&& grid_cell(area, n, cfg, i * rows).x == grid_cell(area, n, cfg, (i - 1) * rows).x + grid_cell(
                    area,
                    n,
                    cfg,
                    (i - 1) * rows,
                ).w + g
            }
        }),
{
    if n >= 2 {
        lemma_grid_dims(n, cfg.direction);
        let (cols, rows) = grid_dims(n, cfg.direction);
        let u = super::usable_region(area, cfg.outer_gap as int);
        let g = cfg.inner_gap as int;
        assert(0int % cols == 0 && 0int / cols == 0 && 0int % rows == 0 && 0int / rows == 0) by (nonlinear_arith)
            requires
                cols >= 1,
                rows >= 1,
        ;
        assert(grid_position(0, cols, rows, cfg.direction) == (0int, 0int));
        let cw = arith::tdiv(u.w - (cols - 1) * g, cols);
        let ch = arith::tdiv(u.h - (rows - 1) * g, rows);
        assert(0 * (cw + g) == 0 && 0 * (ch + g) == 0);
        assert(grid_cell(area, n, cfg, 0).x == u.x && grid_cell(area, n, cfg, 0).y == u.y);
        if 1 <= i {
            match cfg.direction {
                GridDirection::Horizontal => {
                    if i * cols < n {
                        vstd::arithmetic::div_mod::lemma_mod_multiples_basic(i, cols);
                        vstd::arithmetic::div_mod::lemma_div_multiples_vanish(i, cols);
                        vstd::arithmetic::div_mod::lemma_mod_multiples_basic(i - 1, cols);
                        vstd::arithmetic::div_mod::lemma_div_multiples_vanish(i - 1, cols);
                        assert(i * cols == cols * i && (i - 1) * cols == cols * (i - 1)) by (nonlinear_arith);
                        assert((i * cols) / cols == i && ((i - 1) * cols) / cols == i - 1);
                        assert((i * cols) % cols == 0 && ((i - 1) * cols) % cols == 0);
                        assert((i - 1) * cols < i * cols) by (nonlinear_arith)
                            requires
                                cols >= 1,
                        ;
                        let ch = arith::tdiv(u.h - (rows - 1) * g, rows);
                        assert(i * (ch + g) == (i - 1) * (ch + g) + ch + g) by (nonlinear_arith);
                    }
                },
                GridDirection::Vertical => {
                    if i * rows < n {
                        vstd::arithmetic::div_mod::lemma_mod_multiples_basic(i, rows);
                        vstd::arithmetic::div_mod::lemma_div_multiples_vanish(i, rows);
                        vstd::arithmetic::div_mod::lemma_mod_multiples_basic(i - 1, rows);
                        vstd::arithmetic::div_mod::lemma_div_multiples_vanish(i - 1, rows);
                        assert(i * rows == rows * i && (i - 1) * rows == rows * (i - 1)) by (nonlinear_arith);
                        assert((i * rows) / rows == i && ((i - 1) * rows) / rows == i - 1);
                        assert((i * rows) % rows == 0 && ((i - 1) * rows) % rows == 0);
                        assert((i - 1) * rows < i * rows) by (nonlinear_arith)
                            requires
                                rows >= 1,
                        ;
                        let cw = arith::tdiv(u.w - (cols - 1) * g, cols);
                        assert(i * (cw + g) == (i - 1) * (cw + g) + cw + g) by (nonlinear_arith);
                    }
                },
            }
        }
    }
}

} // verus!
