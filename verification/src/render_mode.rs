//! The rendering variant selector.
//!
//! The presentation layer draws the serialized simulation state either
//! as a flat textured surface or as one extruded prism per placement
//! record. The choice is a tagged variant selected once per
//! configuration change, not runtime subclassing.

use vstd::prelude::*;

verus! {

/// How the presentation layer draws the simulation state.
#[derive(Clone, Copy, Debug, PartialEq, Eq, Structural)]
pub enum RenderMode {
    /// Draw the state as a flat textured surface.
    Texture,
    /// Draw one extruded prism per placement record, scaled by the
    /// sampled cell height.
    Prism,
}

impl RenderMode {
    /// The other mode: toggling flips between the two variants.
    pub fn toggled(self) -> (r: RenderMode)
        ensures
            self is Texture ==> r is Prism,
            self is Prism ==> r is Texture,
    {
        match self {
            RenderMode::Texture => RenderMode::Prism,
            RenderMode::Prism => RenderMode::Texture,
        }
    }
}

} // verus!
