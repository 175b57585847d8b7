//! Outlines: shapes drawn as one line after another.

use vstd::prelude::*;
use raster::Image;
use crate::drawable::Drawable;
use crate::line::Line;
use crate::surface::{canvas, lemma_paint_concat, Plot};

verus! {

/// The plots of several lines, one line after the other.
pub open spec fn lines_plots(lines: Seq<Line>) -> Seq<Plot>
    decreases lines.len(),
{
    if lines.len() == 0 {
        Seq::empty()
    } else {
        lines_plots(lines.drop_last()) + lines.last().plots()
    }
}

/// Draws the lines in order.
pub fn draw_lines(lines: &[Line], image: &mut Image)
    ensures
        canvas(*final(image)) == canvas(*old(image)).paint(lines_plots(lines@)),
{
    let ghost base = canvas(*image);
    let mut i: usize = 0;
    assert(lines@.take(0) =~= Seq::<Line>::empty());
    while i < lines.len()
        invariant
            0 <= i <= lines.len(),
            canvas(*image) == base.paint(lines_plots(lines@.take(i as int))),
        decreases lines.len() - i,
    {
        lines[i].draw(image);
        proof {
            let next = lines@.take(i + 1);
            assert(next.drop_last() =~= lines@.take(i as int));
            assert(next.last() == lines@[i as int]);
            lemma_paint_concat(
                base,
                lines_plots(lines@.take(i as int)),
                lines@[i as int].plots(),
            );
        }
        i = i + 1;
    }
    assert(lines@.take(i as int) =~= lines@);
}

} // verus!
