//! Turns the words of a page into falling rigid bodies.
//!
//! The library holds what can be decided without the rendering surface and the
//! floating-point solver: the markup that gives every word an addressable id,
//! the placement of the ground, the walls and one body per measured word, the
//! projection of a simulated pose back onto the screen, and the frame loop's
//! decisions.
use vstd::prelude::*;

pub mod decimal;
pub mod frames;
pub mod geometry;
pub mod markup;
pub mod realm;

verus! {

} // verus!
