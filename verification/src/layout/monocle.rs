//! Monocle layout - single focused window fills the screen

use vstd::prelude::*;
use super::{LayoutArea, LayoutResult, LayoutWindow, WindowGeometry};

verus! {

/// Monocle layout configuration
#[derive(Debug, Clone, Copy)]
pub struct MonocleConfig {
    pub gap: i32,
}

impl Default for MonocleConfig {
    fn default() -> (r: Self)
        ensures
            r.gap == 9,
    {
        MonocleConfig { gap: 9 }
    }
}

pub struct MonocleLayout;

impl MonocleLayout {
    /// Gives the whole area, less the gap, to the focused window (the
    /// first focused one, or the first window when none is focused).
    pub fn arrange(&self, area: LayoutArea, windows: &[LayoutWindow], monocle: &MonocleConfig) -> (r: LayoutResult)
        requires
            super::usable_fits(area, monocle.gap as int),
        ensures
            windows@.len() == 0 ==> r.geometries@.len() == 0,
            windows@.len() > 0 ==> {
                &&& r.geometries@.len() == 1
                &&& r.geometries@[0].0 == windows@[super::focused_index(windows@)].id
                &&& super::geometry_is(r.geometries@[0].1, super::usable_region(area, monocle.gap as int))
            },
    {
        let mut geometries: Vec<(usize, WindowGeometry)> = Vec::new();
        if windows.len() == 0 {
            return LayoutResult { geometries };
        }
        let idx = super::find_focused(windows);
        let g = super::usable_area(area, monocle.gap);
        geometries.push((windows[idx].id, g));
        LayoutResult { geometries }
    }
}

} // verus!
