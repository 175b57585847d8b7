//! A point: a position with a colour, drawn as a small square.

use vstd::prelude::*;
use vstd::std_specs::cmp::PartialEqSpecImpl;
use raster::Image;
use crate::color::Color;
use crate::drawable::Drawable;
use crate::random::pick;
use crate::surface::{canvas, plot_next, Plot};

verus! {

/// A position on the grid, with a colour.
#[derive(Debug, Clone, Copy)]
pub struct Point {
    pub x: i32,
    pub y: i32,
    pub color: Color,
}

impl PartialEq for Point {
    /// Two points are equal when they stand at the same position, whatever
    /// their colours.
    fn eq(&self, other: &Point) -> (same: bool) {
        self.x == other.x && self.y == other.y
    }
}

impl PartialEqSpecImpl for Point {
    open spec fn obeys_eq_spec() -> bool {
        true
    }

    open spec fn eq_spec(&self, other: &Point) -> bool {
        self.x == other.x && self.y == other.y
    }
}

/// The nine plots of the square of side three around `(x, y)`, column by
/// column and downward in each.
pub open spec fn square_plots(x: int, y: int, color: Color) -> Seq<Plot> {
    Seq::new(9, |i: int| Plot { x: x + i / 3 - 1, y: y + i % 3 - 1, color })
}

impl Point {
    /// A point at `(x, y)` with a random colour, each channel in `50..200`.
    pub fn new(x: i32, y: i32) -> (p: Point)
        ensures
            p.x == x,
            p.y == y,
            p.color.in_band(50, 200),
    {
        Point { x, y, color: Color::random(50, 200) }
    }

    /// A point at a random position of a `width` by `height` grid, with a
    /// random colour, each channel in `50..200`.
    pub fn random(width: i32, height: i32) -> (p: Point)
        requires
            0 < width,
            0 < height,
        ensures
            0 <= p.x < width,
            0 <= p.y < height,
            p.color.in_band(50, 200),
    {
        let x = pick(0, width);
        let y = pick(0, height);
        Point { x, y, color: Color::random(50, 200) }
    }
}

impl Drawable for Point {
    open spec fn plots(&self) -> Seq<Plot> {
        square_plots(self.x as int, self.y as int, self.color)
    }

    /// Draws the point as a square of three by three pixels around it.
    fn draw(&self, image: &mut Image) {
        let ghost base = canvas(*image);
        let ghost all = self.plots();
        let mut i: i64 = 0;
        assert(all.take(0) =~= Seq::<Plot>::empty());
        while i < 9
            invariant
                0 <= i <= 9,
                all == self.plots(),
                canvas(*image) == base.paint(all.take(i as int)),
            decreases 9 - i,
        {
            plot_next(
                image,
                self.x as i64 + i / 3 - 1,
                self.y as i64 + i % 3 - 1,
                self.color,
                Ghost(base),
                Ghost(all),
                Ghost(i as int),
            );
            i = i + 1;
        }
        assert(all.take(9) =~= all);
    }

    /// The point's colour.
    fn color(&self) -> (c: Color)
        ensures
            c == self.color,
    {
        self.color
    }
}

} // verus!
