//! A rectangle: an axis-aligned box between two corner points.

use vstd::prelude::*;
use raster::Image;
use crate::color::Color;
use crate::drawable::Drawable;
use crate::line::Line;
use crate::outline::{draw_lines, lines_plots};
use crate::point::Point;
use crate::random::pick;
use crate::surface::{canvas, lemma_paint_concat, Plot};

verus! {

/// One or more boxes, each with two opposite corners and its own colour.
#[derive(Debug)]
pub struct Rectangle {
    pub rects: Vec<(Point, Point, Color)>,
}

/// The four edges of the box with opposite corners `p1` and `p2`, two pixels
/// thick. They run from `p1` along its row, then along `p2`'s column to `p2`,
/// back along `p2`'s row, and along `p1`'s column to `p1` again.
pub open spec fn box_edges(p1: Point, p2: Point, color: Color) -> Seq<Line> {
    let beside = Point { x: p2.x, y: p1.y, color };
    let below = Point { x: p1.x, y: p2.y, color };
    seq![
        Line { start: p1, end: beside, thickness: 2, color },
        Line { start: beside, end: p2, thickness: 2, color },
        Line { start: p2, end: below, thickness: 2, color },
        Line { start: below, end: p1, thickness: 2, color },
    ]
}

/// The plots of several boxes, one box after the other.
pub open spec fn boxes_plots(rects: Seq<(Point, Point, Color)>) -> Seq<Plot>
    decreases rects.len(),
{
    if rects.len() == 0 {
        Seq::empty()
    } else {
        let last = rects.last();
        boxes_plots(rects.drop_last()) + lines_plots(box_edges(last.0, last.1, last.2))
    }
}

impl Rectangle {
    /// The box with opposite corners `p1` and `p2`, with a random colour, each
    /// channel in `100..255`.
    pub fn new(p1: &Point, p2: &Point) -> (rectangle: Rectangle)
        ensures
            rectangle.rects@.len() == 1,
            rectangle.rects@[0].0 == *p1,
            rectangle.rects@[0].1 == *p2,
            rectangle.rects@[0].2.in_band(100, 255),
    {
        let mut rects = Vec::new();
        let color = Color::random(100, 255);
        rects.push((*p1, *p2, color));
        Rectangle { rects }
    }

    /// A box with a random corner on a grid of 800 by 800, a random width in
    /// `100..250`, a random height in `80..180` and a random colour, each
    /// channel in `100..255`. The two points given play no part.
    pub fn random(_p1: &Point, _p2: &Point) -> (rectangle: Rectangle)
        ensures
            rectangle.rects@.len() == 1,
            0 <= rectangle.rects@[0].0.x < 800,
            0 <= rectangle.rects@[0].0.y < 800,
            100 <= rectangle.rects@[0].1.x - rectangle.rects@[0].0.x < 250,
            80 <= rectangle.rects@[0].1.y - rectangle.rects@[0].0.y < 180,
            rectangle.rects@[0].0.color.in_band(50, 200),
            rectangle.rects@[0].1.color.in_band(50, 200),
            rectangle.rects@[0].2.in_band(100, 255),
    {
        let mut rects = Vec::new();
        let width = pick(100, 250);
        let height = pick(80, 180);
        let pos = Point::random(800, 800);
        let color = Color::random(100, 255);
        rects.push((pos, Point::new(pos.x + width, pos.y + height), color));
        Rectangle { rects }
    }

    /// The four edges of the box with opposite corners `p1` and `p2`.
    pub fn edges(p1: &Point, p2: &Point, color: Color) -> (lines: [Line; 4])
        ensures
            lines@ == box_edges(*p1, *p2, color),
    {
        let beside = Point { x: p2.x, y: p1.y, color };
        let below = Point { x: p1.x, y: p2.y, color };
        let lines = [
            Line::from_points(p1, &beside, 2, color),
            Line::from_points(&beside, p2, 2, color),
            Line::from_points(p2, &below, 2, color),
            Line::from_points(&below, p1, 2, color),
        ];
        assert(lines@ =~= box_edges(*p1, *p2, color));
        lines
    }
}

impl Drawable for Rectangle {
    open spec fn plots(&self) -> Seq<Plot> {
        boxes_plots(self.rects@)
    }

    /// Draws the four edges of each box, in the box's colour.
    fn draw(&self, image: &mut Image) {
        let ghost base = canvas(*image);
        let mut i: usize = 0;
        assert(self.rects@.take(0) =~= Seq::<(Point, Point, Color)>::empty());
        while i < self.rects.len()
            invariant
                0 <= i <= self.rects.len(),
                canvas(*image) == base.paint(boxes_plots(self.rects@.take(i as int))),
            decreases self.rects.len() - i,
        {
            let p1 = self.rects[i].0;
            let p2 = self.rects[i].1;
            let color = self.rects[i].2;
            let lines = Rectangle::edges(&p1, &p2, color);
            draw_lines(&lines, image);
            proof {
                let next = self.rects@.take(i + 1);
                assert(next.drop_last() =~= self.rects@.take(i as int));
                assert(next.last() == self.rects@[i as int]);
                lemma_paint_concat(
                    base,
                    boxes_plots(self.rects@.take(i as int)),
                    lines_plots(box_edges(p1, p2, color)),
                );
            }
            i = i + 1;
        }
        assert(self.rects@.take(i as int) =~= self.rects@);
    }

    /// Black, whatever the colours of the boxes.
    fn color(&self) -> (c: Color)
        ensures
            c == (Color { r: 0, g: 0, b: 0, a: 255 }),
    {
        Color::black()
    }
}

} // verus!
