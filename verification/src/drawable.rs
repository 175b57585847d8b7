//! What every shape offers: drawing itself onto a surface.

use vstd::prelude::*;
use raster::Image;
use crate::color::Color;
use crate::surface::{canvas, lemma_painting_repeats, Canvas, Plot};

verus! {

/// A shape that can draw itself onto an image.
pub trait Drawable {
    /// The pixel writes that drawing the shape makes, in order. They depend on
    /// the shape alone.
    spec fn plots(&self) -> Seq<Plot>;

    /// Draws the shape: the image afterwards is the image before with the
    /// shape's plots painted onto it.
    fn draw(&self, image: &mut Image)
        ensures
            canvas(*final(image)) == canvas(*old(image)).paint(self.plots()),
    ;

    /// The colour that the shape reports as its own.
    fn color(&self) -> Color;
}

/// Drawing a shape is repeatable: drawn onto two equal surfaces, a shape
/// leaves two equal pictures, for nothing but the shape and the surface
/// decides what is drawn; and drawn once more onto its own picture, it
/// changes nothing.
pub proof fn lemma_drawing_repeats<S: Drawable>(shape: S, first: Canvas, second: Canvas)
    requires
        first == second,
    ensures
        first.paint(shape.plots()) == second.paint(shape.plots()),
        first.paint(shape.plots()).paint(shape.plots()) == first.paint(shape.plots()),
{
    lemma_painting_repeats(first, second, shape.plots());
}

} // verus!
