//! A one-row horizontal rule.

use vstd::prelude::*;

use crate::render::layout::{spec_constrain, spec_fill, Constraints, Size};

verus! {

/// A thin horizontal separator line.
pub struct SeparatorRenderable;

impl SeparatorRenderable {
    /// One row high, filling the available width.
    pub fn measure(&self, constraints: Constraints) -> (s: Size)
        ensures
            s == spec_constrain(
                constraints,
                Size { width: spec_fill(constraints.min_width, constraints.max_width), height: 1 },
            ),
    {
        constraints.constrain(Size::new(constraints.fill_width(), 1))
    }
}

} // verus!
