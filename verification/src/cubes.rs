//! A cube, drawn as a wire frame in a fixed slanted projection.

use vstd::prelude::*;
use raster::Image;
use crate::color::Color;
use crate::drawable::Drawable;
use crate::point::Point;
use crate::random::pick;
use crate::segment::{draw_segment, segment_plots};
use crate::surface::{canvas, lemma_paint_concat, Plot};

verus! {

/// One or more cubes, each with a centre, a size and its own colour.
#[derive(Debug)]
pub struct Cubes {
    pub cubes: Vec<(Point, i32, Color)>,
}

/// Half of `s`, rounded toward zero.
pub open spec fn half(s: int) -> int {
    if s >= 0 {
        s / 2
    } else {
        -((-s) / 2)
    }
}

/// Corner number `i` of the cube of size `s` around `(cx, cy)`. Corners 0 to
/// 3 are those of the front face, a box `2 * s` wide; corners 4 to 7 are
/// those of the back face, a box half as wide that starts `s` above the
/// centre and ends level with it.
pub open spec fn cube_vertex(cx: int, cy: int, s: int, i: int) -> (int, int) {
    if i == 0 {
        (cx - s, cy - half(s))
    } else if i == 1 {
        (cx + s, cy - half(s))
    } else if i == 2 {
        (cx - s, cy + half(s))
    } else if i == 3 {
        (cx + s, cy + half(s))
    } else if i == 4 {
        (cx - half(s), cy - s)
    } else if i == 5 {
        (cx + half(s), cy - s)
    } else if i == 6 {
        (cx - half(s), cy)
    } else {
        (cx + half(s), cy)
    }
}

/// The two corners that edge number `e` joins: four edges round the front
/// face, four round the back face, and four from each front corner to the
/// back corner of the same number.
pub open spec fn cube_edge(e: int) -> (int, int) {
    if e == 0 {
        (0, 1)
    } else if e == 1 {
        (1, 3)
    } else if e == 2 {
        (3, 2)
    } else if e == 3 {
        (2, 0)
    } else if e == 4 {
        (4, 5)
    } else if e == 5 {
        (5, 7)
    } else if e == 6 {
        (7, 6)
    } else if e == 7 {
        (6, 4)
    } else if e == 8 {
        (0, 4)
    } else if e == 9 {
        (1, 5)
    } else if e == 10 {
        (2, 6)
    } else {
        (3, 7)
    }
}

/// The plots of the first `count` edges of a cube, each two pixels thick.
pub open spec fn cube_edges_plots(cx: int, cy: int, s: int, color: Color, count: int) -> Seq<Plot>
    decreases count,
{
    if count <= 0 {
        Seq::empty()
    } else {
        let (from, to) = cube_edge(count - 1);
        let (x0, y0) = cube_vertex(cx, cy, s, from);
        let (x1, y1) = cube_vertex(cx, cy, s, to);
        cube_edges_plots(cx, cy, s, color, count - 1) + segment_plots(x0, y0, x1, y1, 2, color)
    }
}

/// The plots of several cubes, one cube after the other, twelve edges each.
pub open spec fn cubes_plots(cubes: Seq<(Point, i32, Color)>) -> Seq<Plot>
    decreases cubes.len(),
{
    if cubes.len() == 0 {
        Seq::empty()
    } else {
        let last = cubes.last();
        cubes_plots(cubes.drop_last()) + cube_edges_plots(
            last.0.x as int,
            last.0.y as int,
            last.1 as int,
            last.2,
            12,
        )
    }
}

/// Every corner of the cube has coordinates that fit in 32 bits.
pub open spec fn cube_fits(cx: int, cy: int, s: int) -> bool {
    &&& i32::MIN <= cx - s <= i32::MAX
    &&& i32::MIN <= cx + s <= i32::MAX
    &&& i32::MIN <= cy - s <= i32::MAX
    &&& i32::MIN <= cy - half(s) <= i32::MAX
    &&& i32::MIN <= cy + half(s) <= i32::MAX
}

/// No corner of a cube of size `s`, where `s` is not negative, lies further
/// than `s` from the centre along either axis.
pub proof fn lemma_cube_vertices_within_size(cx: int, cy: int, s: int, i: int)
    requires
        0 <= s,
        0 <= i < 8,
    ensures
        -s <= cube_vertex(cx, cy, s, i).0 - cx <= s,
        -s <= cube_vertex(cx, cy, s, i).1 - cy <= s,
{
}

/// Half of `s`, rounded toward zero.
fn halved(s: i64) -> (h: i64)
    requires
        -0x1_0000_0000 <= s <= 0x1_0000_0000,
    ensures
        h == half(s as int),
{
    if s >= 0 {
        s / 2
    } else {
        -((-s) / 2)
    }
}

/// Corner number `i` of the cube of size `s` around `(cx, cy)`.
fn corner(cx: i64, cy: i64, s: i64, i: usize) -> (at: (i64, i64))
    requires
        -0x1_0000_0000 <= cx <= 0x1_0000_0000,
        -0x1_0000_0000 <= cy <= 0x1_0000_0000,
        -0x1_0000_0000 <= s <= 0x1_0000_0000,
    ensures
        (at.0 as int, at.1 as int) == cube_vertex(cx as int, cy as int, s as int, i as int),
        -0x3_0000_0000 <= at.0 <= 0x3_0000_0000,
        -0x3_0000_0000 <= at.1 <= 0x3_0000_0000,
{
    let h = halved(s);
    if i == 0 {
        (cx - s, cy - h)
    } else if i == 1 {
        (cx + s, cy - h)
    } else if i == 2 {
        (cx - s, cy + h)
    } else if i == 3 {
        (cx + s, cy + h)
    } else if i == 4 {
        (cx - h, cy - s)
    } else if i == 5 {
        (cx + h, cy - s)
    } else if i == 6 {
        (cx - h, cy)
    } else {
        (cx + h, cy)
    }
}

/// The two corners that edge number `e` joins.
fn edge(e: usize) -> (ends: (usize, usize))
    ensures
        (ends.0 as int, ends.1 as int) == cube_edge(e as int),
{
    if e == 0 {
        (0, 1)
    } else if e == 1 {
        (1, 3)
    } else if e == 2 {
        (3, 2)
    } else if e == 3 {
        (2, 0)
    } else if e == 4 {
        (4, 5)
    } else if e == 5 {
        (5, 7)
    } else if e == 6 {
        (7, 6)
    } else if e == 7 {
        (6, 4)
    } else if e == 8 {
        (0, 4)
    } else if e == 9 {
        (1, 5)
    } else if e == 10 {
        (2, 6)
    } else {
        (3, 7)
    }
}

/// Draws the twelve edges of one cube.
fn draw_cube(image: &mut Image, center: &Point, size: i32, color: Color)
    ensures
        canvas(*final(image)) == canvas(*old(image)).paint(
            cube_edges_plots(center.x as int, center.y as int, size as int, color, 12),
        ),
{
    let ghost base = canvas(*image);
    let cx = center.x as i64;
    let cy = center.y as i64;
    let s = size as i64;
    let mut e: usize = 0;
    while e < 12
        invariant
            0 <= e <= 12,
            cx == center.x,
            cy == center.y,
            s == size,
            canvas(*image) == base.paint(
                cube_edges_plots(cx as int, cy as int, s as int, color, e as int),
            ),
        decreases 12 - e,
    {
        let (from, to) = edge(e);
        let (x0, y0) = corner(cx, cy, s, from);
        let (x1, y1) = corner(cx, cy, s, to);
        draw_segment(image, x0, y0, x1, y1, 2, color);
        proof {
            lemma_paint_concat(
                base,
                cube_edges_plots(cx as int, cy as int, s as int, color, e as int),
                segment_plots(x0 as int, y0 as int, x1 as int, y1 as int, 2, color),
            );
        }
        e = e + 1;
    }
}

impl Cubes {
    /// A cube with the given centre and size, and a random colour, each
    /// channel in `50..200`.
    pub fn new(center: &Point, size: i32) -> (cubes: Cubes)
        ensures
            cubes.cubes@.len() == 1,
            cubes.cubes@[0].0 == *center,
            cubes.cubes@[0].1 == size,
            cubes.cubes@[0].2.in_band(50, 200),
    {
        let mut cubes = Vec::new();
        let color = Color::random(50, 200);
        cubes.push((*center, size, color));
        Cubes { cubes }
    }

    /// A cube around a random point of a `width` by `height` grid, with a
    /// random size in `30..80` and a random colour, each channel in
    /// `150..255`.
    pub fn random(width: i32, height: i32) -> (cubes: Cubes)
        requires
            0 < width,
            0 < height,
        ensures
            cubes.cubes@.len() == 1,
            0 <= cubes.cubes@[0].0.x < width,
            0 <= cubes.cubes@[0].0.y < height,
            cubes.cubes@[0].0.color.in_band(50, 200),
            30 <= cubes.cubes@[0].1 < 80,
            cubes.cubes@[0].2.in_band(150, 255),
    {
        let mut cubes = Vec::new();
        let center = Point::random(width, height);
        let size = pick(30, 80);
        let color = Color::random(150, 255);
        cubes.push((center, size, color));
        Cubes { cubes }
    }

    /// The eight corners of the cube of the given size around `center`, each
    /// with a random colour, each channel in `50..200`.
    pub fn get_isometric_projection(center: &Point, size: i32) -> (corners: [Point; 8])
        requires
            cube_fits(center.x as int, center.y as int, size as int),
        ensures
            forall|i: int|
                0 <= i < 8 ==> {
                    &&& (corners@[i].x as int, corners@[i].y as int) == cube_vertex(
                        center.x as int,
                        center.y as int,
                        size as int,
                        i,
                    )
                    &&& (#[trigger] corners@[i]).color.in_band(50, 200)
                },
    {
        let cx = center.x as i64;
        let cy = center.y as i64;
        let s = size as i64;
        let c0 = corner(cx, cy, s, 0);
        let c1 = corner(cx, cy, s, 1);
        let c2 = corner(cx, cy, s, 2);
        let c3 = corner(cx, cy, s, 3);
        let c4 = corner(cx, cy, s, 4);
        let c5 = corner(cx, cy, s, 5);
        let c6 = corner(cx, cy, s, 6);
        let c7 = corner(cx, cy, s, 7);
        [
            Point::new(c0.0 as i32, c0.1 as i32),
            Point::new(c1.0 as i32, c1.1 as i32),
            Point::new(c2.0 as i32, c2.1 as i32),
            Point::new(c3.0 as i32, c3.1 as i32),
            Point::new(c4.0 as i32, c4.1 as i32),
            Point::new(c5.0 as i32, c5.1 as i32),
            Point::new(c6.0 as i32, c6.1 as i32),
            Point::new(c7.0 as i32, c7.1 as i32),
        ]
    }
}

impl Drawable for Cubes {
    open spec fn plots(&self) -> Seq<Plot> {
        cubes_plots(self.cubes@)
    }

    /// Draws the twelve edges of each cube, in the cube's colour.
    fn draw(&self, image: &mut Image) {
        let ghost base = canvas(*image);
        let mut i: usize = 0;
        assert(self.cubes@.take(0) =~= Seq::<(Point, i32, Color)>::empty());
        while i < self.cubes.len()
            invariant
                0 <= i <= self.cubes.len(),
                canvas(*image) == base.paint(cubes_plots(self.cubes@.take(i as int))),
            decreases self.cubes.len() - i,
        {
            let center = self.cubes[i].0;
            let size = self.cubes[i].1;
            let color = self.cubes[i].2;
            draw_cube(image, &center, size, color);
            proof {
                let next = self.cubes@.take(i + 1);
                assert(next.drop_last() =~= self.cubes@.take(i as int));
                assert(next.last() == self.cubes@[i as int]);
                lemma_paint_concat(
                    base,
                    cubes_plots(self.cubes@.take(i as int)),
                    cube_edges_plots(center.x as int, center.y as int, size as int, color, 12),
                );
            }
            i = i + 1;
        }
        assert(self.cubes@.take(i as int) =~= self.cubes@);
    }

    /// Black, whatever the colours of the cubes.
    fn color(&self) -> (c: Color)
        ensures
            c == (Color { r: 0, g: 0, b: 0, a: 255 }),
    {
        Color::rgb(0, 0, 0)
    }
}

} // verus!
