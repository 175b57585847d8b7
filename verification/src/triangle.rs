//! A triangle: three corner points joined by thin lines.

use vstd::prelude::*;
use raster::Image;
use crate::color::Color;
use crate::drawable::Drawable;
use crate::line::Line;
use crate::outline::{draw_lines, lines_plots};
use crate::point::Point;
use crate::random::pick;
use crate::surface::{canvas, lemma_paint_concat, Plot};

verus! {

/// One or more triangles, each with three corners and its own colour.
pub struct Triangle {
    pub tris: Vec<(Point, Point, Point, Color)>,
}

/// The three edges of the triangle `a`, `b`, `c`, one pixel thick: from `a`
/// to `b`, from `b` to `c`, and from `c` back to `a`.
pub open spec fn triangle_edges(a: Point, b: Point, c: Point, color: Color) -> Seq<Line> {
    seq![
        Line { start: a, end: b, thickness: 1, color },
        Line { start: b, end: c, thickness: 1, color },
        Line { start: c, end: a, thickness: 1, color },
    ]
}

/// The plots of several triangles, one triangle after the other.
pub open spec fn triangles_plots(tris: Seq<(Point, Point, Point, Color)>) -> Seq<Plot>
    decreases tris.len(),
{
    if tris.len() == 0 {
        Seq::empty()
    } else {
        let last = tris.last();
        triangles_plots(tris.drop_last()) + lines_plots(
            triangle_edges(last.0, last.1, last.2, last.3),
        )
    }
}

impl Triangle {
    /// The triangle with the three given corners and a random colour, each
    /// channel in `150..255`.
    pub fn new(a: &Point, b: &Point, c: &Point) -> (triangle: Triangle)
        ensures
            triangle.tris@.len() == 1,
            triangle.tris@[0].0 == *a,
            triangle.tris@[0].1 == *b,
            triangle.tris@[0].2 == *c,
            triangle.tris@[0].3.in_band(150, 255),
    {
        let mut tris = Vec::new();
        let color = Color::random(150, 255);
        tris.push((*a, *b, *c, color));
        Triangle { tris }
    }

    /// A triangle that stands on a level base: the base starts at a random
    /// point of a grid of 800 by 800 and runs right for a random width in
    /// `60..150`; the top lies above the middle of the base, at a random
    /// height in `80..180`. The colour is random, each channel in
    /// `150..255`. The three points given play no part.
    pub fn random(_a: &Point, _b: &Point, _c: &Point) -> (triangle: Triangle)
        ensures
            triangle.tris@.len() == 1,
            ({
                let (base, right, top, color) = triangle.tris@[0];
                &&& 0 <= base.x < 800
                &&& 0 <= base.y < 800
                &&& right.y == base.y
                &&& 60 <= right.x - base.x < 150
                &&& top.x == base.x + (right.x - base.x) / 2
                &&& 80 <= base.y - top.y < 180
                &&& base.color.in_band(50, 200)
                &&& right.color.in_band(50, 200)
                &&& top.color.in_band(50, 200)
                &&& color.in_band(150, 255)
            }),
    {
        let mut tris = Vec::new();
        let base = Point::random(800, 800);
        let height = pick(80, 180);
        let width = pick(60, 150);
        let color = Color::random(150, 255);
        tris.push(
            (
                base,
                Point::new(base.x + width, base.y),
                Point::new(base.x + width / 2, base.y - height),
                color,
            ),
        );
        Triangle { tris }
    }

    /// The three edges of the triangle `a`, `b`, `c`.
    pub fn edges(a: &Point, b: &Point, c: &Point, color: Color) -> (lines: [Line; 3])
        ensures
            lines@ == triangle_edges(*a, *b, *c, color),
    {
        let lines = [
            Line::from_points(a, b, 1, color),
            Line::from_points(b, c, 1, color),
            Line::from_points(c, a, 1, color),
        ];
        assert(lines@ =~= triangle_edges(*a, *b, *c, color));
        lines
    }
}

impl Drawable for Triangle {
    open spec fn plots(&self) -> Seq<Plot> {
        triangles_plots(self.tris@)
    }

    /// Draws the three edges of each triangle, in the triangle's colour.
    fn draw(&self, image: &mut Image) {
        let ghost base = canvas(*image);
        let mut i: usize = 0;
        assert(self.tris@.take(0) =~= Seq::<(Point, Point, Point, Color)>::empty());
        while i < self.tris.len()
            invariant
                0 <= i <= self.tris.len(),
                canvas(*image) == base.paint(triangles_plots(self.tris@.take(i as int))),
            decreases self.tris.len() - i,
        {
            let a = self.tris[i].0;
            let b = self.tris[i].1;
            let c = self.tris[i].2;
            let color = self.tris[i].3;
            let lines = Triangle::edges(&a, &b, &c, color);
            draw_lines(&lines, image);
            proof {
                let next = self.tris@.take(i + 1);
                assert(next.drop_last() =~= self.tris@.take(i as int));
                assert(next.last() == self.tris@[i as int]);
                lemma_paint_concat(
                    base,
                    triangles_plots(self.tris@.take(i as int)),
                    lines_plots(triangle_edges(a, b, c, color)),
                );
            }
            i = i + 1;
        }
        assert(self.tris@.take(i as int) =~= self.tris@);
    }

    /// Black, whatever the colours of the triangles.
    fn color(&self) -> (c: Color)
        ensures
            c == (Color { r: 0, g: 0, b: 0, a: 255 }),
    {
        Color::rgb(0, 0, 0)
    }
}

} // verus!
