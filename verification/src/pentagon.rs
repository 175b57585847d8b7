//! A regular pentagon, given by its centre and the radius of the circle
//! through its corners.
//!
//! Where the corners lie on the grid is a matter of trigonometry in floating
//! point, which this library leaves to its caller: it joins five corners that
//! it is handed.

use vstd::prelude::*;
use raster::Image;
use crate::color::Color;
use crate::line::Line;
use crate::outline::{draw_lines, lines_plots};
use crate::point::Point;
use crate::random::pick;
use crate::surface::canvas;

verus! {

/// One or more pentagons, each with a centre, a radius and its own colour.
#[derive(Debug)]
pub struct Pentagon {
    pub pentagons: Vec<(Point, i32, Color)>,
}

/// The five edges of the pentagon with the given corners, two pixels thick:
/// each corner is joined to the next one, and the last to the first.
pub open spec fn pentagon_edges(corners: Seq<Point>, color: Color) -> Seq<Line> {
    Seq::new(
        5,
        |i: int| Line { start: corners[i], end: corners[(i + 1) % 5], thickness: 2, color },
    )
}

impl Pentagon {
    /// A pentagon with the given centre and radius, and a random colour, each
    /// channel in `100..255`.
    pub fn new(center: &Point, radius: i32) -> (pentagon: Pentagon)
        ensures
            pentagon.pentagons@.len() == 1,
            pentagon.pentagons@[0].0 == *center,
            pentagon.pentagons@[0].1 == radius,
            pentagon.pentagons@[0].2.in_band(100, 255),
    {
        let mut pentagons = Vec::new();
        let color = Color::random(100, 255);
        pentagons.push((*center, radius, color));
        Pentagon { pentagons }
    }

    /// A pentagon around a random point of a `width` by `height` grid, with a
    /// random radius in `30..80` and a random colour, each channel in
    /// `100..255`.
    pub fn random(width: i32, height: i32) -> (pentagon: Pentagon)
        requires
            0 < width,
            0 < height,
        ensures
            pentagon.pentagons@.len() == 1,
            0 <= pentagon.pentagons@[0].0.x < width,
            0 <= pentagon.pentagons@[0].0.y < height,
            pentagon.pentagons@[0].0.color.in_band(50, 200),
            30 <= pentagon.pentagons@[0].1 < 80,
            pentagon.pentagons@[0].2.in_band(100, 255),
    {
        let mut pentagons = Vec::new();
        let center = Point::random(width, height);
        let radius = pick(30, 80);
        let color = Color::random(100, 255);
        pentagons.push((center, radius, color));
        Pentagon { pentagons }
    }

    /// The five edges of the pentagon with the given corners.
    pub fn edges(corners: &[Point; 5], color: Color) -> (lines: [Line; 5])
        ensures
            lines@ == pentagon_edges(corners@, color),
    {
        let lines = [
            Line::from_points(&corners[0], &corners[1], 2, color),
            Line::from_points(&corners[1], &corners[2], 2, color),
            Line::from_points(&corners[2], &corners[3], 2, color),
            Line::from_points(&corners[3], &corners[4], 2, color),
            Line::from_points(&corners[4], &corners[0], 2, color),
        ];
        assert(lines@ =~= pentagon_edges(corners@, color));
        lines
    }

    /// Draws the pentagon with the given corners, edge by edge.
    pub fn draw_outline(corners: &[Point; 5], color: Color, image: &mut Image)
        ensures
            canvas(*final(image)) == canvas(*old(image)).paint(
                lines_plots(pentagon_edges(corners@, color)),
            ),
    {
        let lines = Pentagon::edges(corners, color);
        draw_lines(&lines, image);
    }

    /// Black, whatever the colours of the pentagons.
    pub fn color(&self) -> (c: Color)
        ensures
            c == (Color { r: 0, g: 0, b: 0, a: 255 }),
    {
        Color::rgb(0, 0, 0)
    }
}

} // verus!
