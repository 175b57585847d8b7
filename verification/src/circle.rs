//! A circle outline, drawn by the midpoint method.
//!
//! One eighth of the ring is walked row by row, starting on the horizontal
//! axis: the column starts at the radius and moves one pixel inward whenever
//! an error term says that the ring has curved away. Each pixel found is
//! mirrored into the other seven eighths, and each mirrored pixel is drawn
//! together with its neighbours to the right and below.

use vstd::prelude::*;
use raster::Image;
use crate::color::Color;
use crate::drawable::Drawable;
use crate::point::Point;
use crate::random::{chance, pick};
use crate::surface::{canvas, lemma_paint_concat, plot_next, Plot};

verus! {

/// The column and the error term of the walk when it stands on row `k`.
pub open spec fn ring(radius: int, k: int) -> (int, int)
    decreases k,
{
    if k <= 0 {
        (radius, 0)
    } else {
        let (x, err) = ring(radius, k - 1);
        let raised = err + 1 + 2 * k;
        if 2 * (raised - x) + 1 > 0 {
            (x - 1, raised + 1 - 2 * (x - 1))
        } else {
            (x, raised)
        }
    }
}

/// The column of the ring on row `k` of the walked eighth.
pub open spec fn ring_x(radius: int, k: int) -> int {
    ring(radius, k).0
}

/// The first row, from row `k` on, where the column has fallen behind the
/// row: there the walk ends.
pub open spec fn ring_end(radius: int, k: int) -> int
    decreases radius + 1 - k,
{
    if k > radius || ring_x(radius, k) < k {
        k
    } else {
        ring_end(radius, k + 1)
    }
}

/// The number of rows that the walk draws.
pub open spec fn ring_rows(radius: int) -> int {
    ring_end(radius, 0)
}

/// The offset `(x, y)` mirrored into the eighth of the plane numbered `m`.
pub open spec fn mirror(x: int, y: int, m: int) -> (int, int) {
    if m == 0 {
        (x, y)
    } else if m == 1 {
        (y, x)
    } else if m == 2 {
        (-y, x)
    } else if m == 3 {
        (-x, y)
    } else if m == 4 {
        (-x, -y)
    } else if m == 5 {
        (-y, -x)
    } else if m == 6 {
        (y, -x)
    } else {
        (x, -y)
    }
}

/// Where pixel number `j` of the ring lies, seen from the centre. Each row of
/// the walked eighth gives eight pixels, one in each mirroring.
pub open spec fn ring_pixel(radius: int, j: int) -> (int, int) {
    mirror(ring_x(radius, j / 8), j / 8, j % 8)
}

/// Plot number `i` of a circle. Each pixel of the ring gives three plots: the
/// pixel itself, the pixel to its right and the pixel below it.
pub open spec fn circle_plot(cx: int, cy: int, radius: int, color: Color, i: int) -> Plot {
    let (dx, dy) = ring_pixel(radius, i / 3);
    Plot {
        x: cx + dx + if i % 3 == 1 { 1int } else { 0int },
        y: cy + dy + if i % 3 == 2 { 1int } else { 0int },
        color,
    }
}

/// Every plot of the circle around `(cx, cy)`, in the order made. A negative
/// radius gives no plot.
pub open spec fn circle_plots(cx: int, cy: int, radius: int, color: Color) -> Seq<Plot> {
    Seq::new(
        (24 * ring_rows(radius)) as nat,
        |i: int| circle_plot(cx, cy, radius, color, i),
    )
}

/// The plots of several circles of one colour, one circle after the other.
pub open spec fn circles_plots(circles: Seq<(Point, i32)>, color: Color) -> Seq<Plot>
    decreases circles.len(),
{
    if circles.len() == 0 {
        Seq::empty()
    } else {
        let last = circles.last();
        circles_plots(circles.drop_last(), color) + circle_plots(
            last.0.x as int,
            last.0.y as int,
            last.1 as int,
            color,
        )
    }
}

/// The walk does not end before the row it is asked from.
pub proof fn lemma_ring_end_is_later(radius: int, k: int)
    ensures
        ring_end(radius, k) >= k,
    decreases radius + 1 - k,
{
    if !(k > radius || ring_x(radius, k) < k) {
        lemma_ring_end_is_later(radius, k + 1);
    }
}

/// A row that the walk draws lies within the radius, and the ring's column
/// on it is not behind the row.
pub proof fn lemma_drawn_row(radius: int, from: int, k: int)
    requires
        from <= k < ring_end(radius, from),
    ensures
        k <= ring_x(radius, k) && k <= radius,
    decreases k - from,
{
    if k > from {
        lemma_drawn_row(radius, from + 1, k);
    }
}

/// What holds of the walk whenever it reaches row `k`: the error term is the
/// excess of the pixel's squared distance over the squared radius, plus twice
/// the number of steps taken; it is never below minus the column; and a
/// pixel that gets drawn lies no further out than `radius * radius + radius`.
proof fn lemma_ring_state(radius: int, k: int)
    requires
        0 <= radius,
        0 <= k <= ring_rows(radius),
    ensures
        ({
            let (x, err) = ring(radius, k);
            &&& err == x * x + k * k - radius * radius + 2 * k + 2 * radius - 2 * x
            &&& -x <= err
            &&& x <= radius
            &&& k <= x ==> x * x + k * k <= radius * radius + radius
        }),
    decreases k,
{
    if k > 0 {
        lemma_ring_state(radius, k - 1);
        lemma_drawn_row(radius, 0, k - 1);
        let (x, err) = ring(radius, k - 1);
        let raised = err + 1 + 2 * k;
        assert(k * k == (k - 1) * (k - 1) + 2 * k - 1) by (nonlinear_arith);
        assert((x - 1) * (x - 1) == x * x - 2 * x + 1) by (nonlinear_arith);
    }
}

/// Every pixel of the ring lies close to the circle: its squared distance
/// from the centre is between `r * r - 3 * r` and `r * r + r`. Where the
/// pixel is more than twice as far from the centre along one axis as along
/// the other, its distance is within one pixel of the radius.
pub proof fn lemma_ring_pixel_near_circle(radius: int, j: int)
    requires
        0 <= j < 8 * ring_rows(radius),
    ensures
        ({
            let (dx, dy) = ring_pixel(radius, j);
            let far = dx * dx + dy * dy;
            &&& radius * radius - 3 * radius <= far <= radius * radius + radius
            &&& 2 * (j / 8) < ring_x(radius, j / 8) ==> (radius - 1) * (radius - 1) <= far <= (
            radius + 1) * (radius + 1)
        }),
{
    let k = j / 8;
    let x = ring_x(radius, k);
    lemma_drawn_row(radius, 0, k);
    lemma_ring_state(radius, k);
    let (dx, dy) = ring_pixel(radius, j);
    assert(dx * dx + dy * dy == x * x + k * k) by {
        assert((-x) * (-x) == x * x) by (nonlinear_arith);
        assert((-k) * (-k) == k * k) by (nonlinear_arith);
    }
    assert((radius - 1) * (radius - 1) == radius * radius - 2 * radius + 1) by (nonlinear_arith);
    assert((radius + 1) * (radius + 1) == radius * radius + 2 * radius + 1) by (nonlinear_arith);
}

/// Every plot of a circle has the circle's colour and lies close to the
/// circle: a plot at a pixel of the ring as that pixel does, and a plot at
/// the neighbour of one at most one pixel away from it, so that its squared
/// distance from the centre is between `r * r - 5 * r - 1` and
/// `r * r + 3 * r + 1`.
pub proof fn lemma_circle_plot_near_circle(cx: int, cy: int, radius: int, color: Color, i: int)
    requires
        0 <= i < circle_plots(cx, cy, radius, color).len(),
    ensures
        ({
            let p = circle_plots(cx, cy, radius, color)[i];
            let far = (p.x - cx) * (p.x - cx) + (p.y - cy) * (p.y - cy);
            &&& p.color == color
            &&& radius * radius - 5 * radius - 1 <= far <= radius * radius + 3 * radius + 1
            &&& i % 3 == 0 ==> radius * radius - 3 * radius <= far <= radius * radius + radius
        }),
{
    let j = i / 3;
    let k = j / 8;
    let (dx, dy) = ring_pixel(radius, j);
    lemma_ring_end_is_later(radius, 0);
    lemma_ring_pixel_near_circle(radius, j);
    lemma_drawn_row(radius, 0, k);
    lemma_ring_state(radius, k);
    assert(-radius <= dx <= radius && -radius <= dy <= radius);
    assert((dx + 1) * (dx + 1) == dx * dx + 2 * dx + 1) by (nonlinear_arith);
    assert((dy + 1) * (dy + 1) == dy * dy + 2 * dy + 1) by (nonlinear_arith);
}

/// The offset `(x, y)` in the eighth numbered `m`.
fn mirrored(x: i64, y: i64, m: i64) -> (offset: (i64, i64))
    requires
        -0x1_0000_0000 <= x <= 0x1_0000_0000,
        -0x1_0000_0000 <= y <= 0x1_0000_0000,
    ensures
        (offset.0 as int, offset.1 as int) == mirror(x as int, y as int, m as int),
{
    if m == 0 {
        (x, y)
    } else if m == 1 {
        (y, x)
    } else if m == 2 {
        (-y, x)
    } else if m == 3 {
        (-x, y)
    } else if m == 4 {
        (-x, -y)
    } else if m == 5 {
        (-y, -x)
    } else if m == 6 {
        (y, -x)
    } else {
        (x, -y)
    }
}

/// Draws the circle of the given radius around `(cx, cy)`.
pub(crate) fn draw_circle(image: &mut Image, cx: i32, cy: i32, radius: i32, color: Color)
    ensures
        canvas(*final(image)) == canvas(*old(image)).paint(
            circle_plots(cx as int, cy as int, radius as int, color),
        ),
{
    let ghost base = canvas(*image);
    let ghost all = circle_plots(cx as int, cy as int, radius as int, color);
    if radius < 0 {
        assert(all =~= Seq::<Plot>::empty());
        return ;
    }
    let mut x: i64 = radius as i64;
    let mut y: i64 = 0;
    let mut err: i64 = 0;
    proof {
        lemma_ring_end_is_later(radius as int, 0);
        assert(all.take(0) =~= Seq::<Plot>::empty());
    }
    while x >= y
        invariant
            all == circle_plots(cx as int, cy as int, radius as int, color),
            0 <= y,
            y - 2 <= x <= radius,
            -x <= err <= radius + 6 * y,
            (x as int, err as int) == ring(radius as int, y as int),
            ring_rows(radius as int) == ring_end(radius as int, y as int),
            canvas(*image) == base.paint(all.take(24 * y)),
        decreases x - y + 2,
    {
        proof {
            lemma_ring_end_is_later(radius as int, y + 1);
        }
        let mut m: i64 = 0;
        while m < 8
            invariant
                all == circle_plots(cx as int, cy as int, radius as int, color),
                0 <= m <= 8,
                0 <= y <= x <= radius,
                x == ring_x(radius as int, y as int),
                all.len() >= 24 * (y + 1),
                canvas(*image) == base.paint(all.take(24 * y + 3 * m)),
            decreases 8 - m,
        {
            let (dx, dy) = mirrored(x, y, m);
            let px: i64 = cx as i64 + dx;
            let py: i64 = cy as i64 + dy;
            let ghost done: int = 24 * y + 3 * m;
            plot_next(image, px, py, color, Ghost(base), Ghost(all), Ghost(done));
            plot_next(image, px + 1, py, color, Ghost(base), Ghost(all), Ghost(done + 1));
            plot_next(image, px, py + 1, color, Ghost(base), Ghost(all), Ghost(done + 2));
            m = m + 1;
        }
        y = y + 1;
        err = err + 1 + 2 * y;
        if 2 * (err - x) + 1 > 0 {
            x = x - 1;
            err = err + 1 - 2 * x;
        }
    }
    proof {
        assert(all.take(24 * y) =~= all);
    }
}

/// One or more circles that share a colour.
#[derive(Debug)]
pub struct Circle {
    pub circles: Vec<(Point, i32)>,
    pub color: Color,
}

impl Circle {
    /// A circle with the given centre and radius, and a random colour, each
    /// channel in `50..200`.
    pub fn new(center: &Point, radius: i32) -> (circle: Circle)
        ensures
            circle.circles@ == seq![(*center, radius)],
            circle.color.in_band(50, 200),
    {
        let color = Color::random(50, 200);
        let mut circles = Vec::new();
        circles.push((*center, radius));
        Circle { circles, color }
    }

    /// With seven chances in ten a circle around a random point of a `width`
    /// by `height` grid, else no circle at all; the colour is random, each
    /// channel in `50..200`. Three circles in ten are large, with a radius
    /// in `150..300`; the others have one in `50..150`.
    pub fn random(width: i32, height: i32) -> (circle: Circle)
        requires
            0 < width,
            0 < height,
        ensures
            circle.color.in_band(50, 200),
            circle.circles@.len() <= 1,
            circle.circles@.len() == 1 ==> {
                let (center, radius) = circle.circles@[0];
                &&& 0 <= center.x < width
                &&& 0 <= center.y < height
                &&& center.color.in_band(50, 200)
                &&& 50 <= radius < 300
            },
    {
        let color = Color::random(50, 200);
        let mut circles = Vec::new();
        if chance(7, 10) {
            let radius = if chance(3, 10) {
                pick(150, 300)
            } else {
                pick(50, 150)
            };
            circles.push((Point::random(width, height), radius));
        }
        Circle { circles, color }
    }
}

impl Drawable for Circle {
    open spec fn plots(&self) -> Seq<Plot> {
        circles_plots(self.circles@, self.color)
    }

    /// Draws each circle in turn, in the shared colour.
    fn draw(&self, image: &mut Image) {
        let ghost base = canvas(*image);
        let mut i: usize = 0;
        assert(self.circles@.take(0) =~= Seq::<(Point, i32)>::empty());
        while i < self.circles.len()
            invariant
                0 <= i <= self.circles.len(),
                canvas(*image) == base.paint(
                    circles_plots(self.circles@.take(i as int), self.color),
                ),
            decreases self.circles.len() - i,
        {
            let center = self.circles[i].0;
            let radius = self.circles[i].1;
            draw_circle(image, center.x, center.y, radius, self.color);
            proof {
                let next = self.circles@.take(i + 1);
                assert(next.drop_last() =~= self.circles@.take(i as int));
                assert(next.last() == self.circles@[i as int]);
                lemma_paint_concat(
                    base,
                    circles_plots(self.circles@.take(i as int), self.color),
                    circle_plots(center.x as int, center.y as int, radius as int, self.color),
                );
            }
            i = i + 1;
        }
        assert(self.circles@.take(i as int) =~= self.circles@);
    }

    /// The colour shared by the circles.
    fn color(&self) -> (c: Color)
        ensures
            c == self.color,
    {
        self.color
    }
}

} // verus!
