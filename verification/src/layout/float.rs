//! Float layout - no automatic arrangement, windows keep their positions

use vstd::prelude::*;
use super::{LayoutArea, LayoutResult, LayoutWindow, WindowGeometry};

verus! {

pub struct FloatLayout;

impl FloatLayout {
    /// Places no window: floating windows keep their own positions.
    pub fn arrange(&self, _area: LayoutArea, _windows: &[LayoutWindow]) -> (r: LayoutResult)
        ensures
            r.geometries@.len() == 0,
    {
        let geometries: Vec<(usize, WindowGeometry)> = Vec::new();
        LayoutResult { geometries }
    }
}

} // verus!
