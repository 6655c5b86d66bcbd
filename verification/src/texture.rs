//! Theme selection.  Which SVG asset or colour a theme maps a cell, face,
//! digit or border to is the rendering collaborator's business; the library
//! only carries the chosen theme through the session state.

use vstd::prelude::*;

verus! {

/// The available themes.
#[derive(Clone, Copy, Debug, PartialEq, Eq, Structural)]
pub enum Texture {
    Dark,
    Light,
    Gay,
}

impl Default for Texture {
    fn default() -> (r: Texture)
        ensures
            r == Texture::Dark,
    {
        Texture::Dark
    }
}

/// The border pieces of the classic frame around board and counter.
#[derive(Clone, Copy, Debug, PartialEq, Eq, Structural)]
pub enum Border {
    TopLeft,
    TopBottom,
    TopRight,
    BottomLeft,
    BottomRight,
    LeftRight,
    MiddleLeft,
    MiddleRight,
    CounterLeft,
    CounterRight,
    CounterTop,
    CounterBottom,
}

} // verus!
