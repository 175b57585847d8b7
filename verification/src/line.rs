//! A line: a straight segment between two points, with a thickness.

use vstd::prelude::*;
use raster::Image;
use crate::color::Color;
use crate::drawable::Drawable;
use crate::point::Point;
use crate::random::pick;
use crate::segment::{draw_segment, lemma_segment_plots_both_ends, segment_plots};
use crate::surface::Plot;

verus! {

/// A segment from `start` to `end`, drawn `thickness` pixels wide in `color`.
#[derive(Debug, Clone, Copy)]
pub struct Line {
    pub start: Point,
    pub end: Point,
    pub thickness: i32,
    pub color: Color,
}

impl Line {
    /// A line between two points, with a random thickness in `2..5` and a
    /// random colour, each channel in `50..200`.
    pub fn new(p1: &Point, p2: &Point) -> (line: Line)
        ensures
            line.start == *p1,
            line.end == *p2,
            2 <= line.thickness < 5,
            line.color.in_band(50, 200),
    {
        Line { start: *p1, end: *p2, thickness: pick(2, 5), color: Color::random(50, 200) }
    }

    /// A line between two random points of a `width` by `height` grid, with a
    /// random thickness in `2..5` and a random colour, each channel in
    /// `50..200`.
    pub fn random(width: i32, height: i32) -> (line: Line)
        requires
            0 < width,
            0 < height,
        ensures
            0 <= line.start.x < width,
            0 <= line.start.y < height,
            0 <= line.end.x < width,
            0 <= line.end.y < height,
            line.start.color.in_band(50, 200),
            line.end.color.in_band(50, 200),
            2 <= line.thickness < 5,
            line.color.in_band(50, 200),
    {
        let start = Point::random(width, height);
        let end = Point::random(width, height);
        Line { start, end, thickness: pick(2, 5), color: Color::random(50, 200) }
    }

    /// The line between two points with the given thickness and colour.
    pub fn from_points(p1: &Point, p2: &Point, thickness: i32, color: Color) -> (line: Line)
        ensures
            line == (Line { start: *p1, end: *p2, thickness, color }),
    {
        Line { start: *p1, end: *p2, thickness, color }
    }
}

/// A line at least one pixel thick plots both of its end points.
pub proof fn lemma_line_plots_both_ends(line: Line)
    requires
        1 <= line.thickness,
    ensures
        line.plots().contains(
            Plot { x: line.start.x as int, y: line.start.y as int, color: line.color },
        ),
        line.plots().contains(
            Plot { x: line.end.x as int, y: line.end.y as int, color: line.color },
        ),
{
    lemma_segment_plots_both_ends(
        line.start.x as int,
        line.start.y as int,
        line.end.x as int,
        line.end.y as int,
        line.thickness as int,
        line.color,
    );
}

impl Drawable for Line {
    open spec fn plots(&self) -> Seq<Plot> {
        segment_plots(
            self.start.x as int,
            self.start.y as int,
            self.end.x as int,
            self.end.y as int,
            self.thickness as int,
            self.color,
        )
    }

    /// Draws the line. The colours of its two end points play no part.
    fn draw(&self, image: &mut Image) {
        draw_segment(
            image,
            self.start.x as i64,
            self.start.y as i64,
            self.end.x as i64,
            self.end.y as i64,
            self.thickness,
            self.color,
        );
    }

    /// The line's colour.
    fn color(&self) -> (c: Color)
        ensures
            c == self.color,
    {
        self.color
    }
}

} // verus!
