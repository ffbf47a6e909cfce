//! The region capability: anything that proposes point/color mutations to
//! paint onto an image.

use vstd::prelude::*;

use crate::images::{Image, Pixel};
use crate::point::Point;

verus! {

/// A source of paint: asked against an image, it appends its proposed
/// `(point, color)` mutations, a pure function of its own configuration
/// and the read-only image state.
pub trait Region {
    /// The region's own configuration is usable.
    spec fn wf(&self) -> bool;

    /// The mutations this region proposes against `image`.
    spec fn spec_mutations(&self, image: Image) -> Seq<(Point, Pixel)>;

    /// Append the proposed mutations to `mutations`.
    fn get_mutations(&self, image: &Image, mutations: &mut Vec<(Point, Pixel)>)
        requires
            self.wf(),
            image.wf(),
        ensures
            final(mutations)@ == old(mutations)@ + self.spec_mutations(*image),
    ;
}

} // verus!
