//! The pixel surface that shapes draw onto.
//!
//! The surface is a `raster::Image`. Its contents are modelled by a [`Canvas`]:
//! a width, a height and a byte buffer that holds four bytes per pixel, row
//! after row. A pixel write outside the part of the grid that the buffer
//! holds changes nothing.

use vstd::prelude::*;
use raster::Image;
use crate::color::Color;

verus! {

/// `raster::Image`, a pixel buffer with a width and a height.
#[verifier::external_type_specification]
#[verifier::external_body]
pub struct ExImage(raster::Image);

/// The bytes of an image's buffer, four per pixel, row after row.
pub uninterp spec fn image_bytes(image: Image) -> Seq<u8>;

/// The width, in pixels, that an image declares.
pub uninterp spec fn image_width(image: Image) -> i32;

/// The height, in pixels, that an image declares.
pub uninterp spec fn image_height(image: Image) -> i32;

/// One pixel write: a position and the colour to put there.
pub struct Plot {
    pub x: int,
    pub y: int,
    pub color: Color,
}

/// What an image holds, as plain values.
pub struct Canvas {
    pub width: int,
    pub height: int,
    pub bytes: Seq<u8>,
}

/// The contents of an image.
pub open spec fn canvas(image: Image) -> Canvas {
    Canvas {
        width: image_width(image) as int,
        height: image_height(image) as int,
        bytes: image_bytes(image),
    }
}

impl Canvas {
    /// Where the four bytes of the pixel at `(x, y)` start in the buffer.
    pub open spec fn offset(self, x: int, y: int) -> int {
        4 * (y * self.width + x)
    }

    /// The pixel at `(x, y)` lies on the grid, and the buffer holds its bytes
    /// at an offset that a 32-bit index reaches.
    pub open spec fn holds(self, x: int, y: int) -> bool {
        &&& 0 <= x < self.width
        &&& 0 <= y < self.height
        &&& self.offset(x, y) + 4 <= self.bytes.len()
        &&& self.offset(x, y) + 3 <= i32::MAX
    }

    /// The colour stored for the pixel at `(x, y)`.
    pub open spec fn pixel(self, x: int, y: int) -> Color {
        let o = self.offset(x, y);
        Color { r: self.bytes[o], g: self.bytes[o + 1], b: self.bytes[o + 2], a: self.bytes[o + 3] }
    }

    /// The canvas after one pixel write. A write to a pixel that the canvas
    /// does not hold changes nothing.
    pub open spec fn put(self, x: int, y: int, color: Color) -> Canvas {
        if self.holds(x, y) {
            let o = self.offset(x, y);
            Canvas {
                width: self.width,
                height: self.height,
                bytes: self.bytes.update(o, color.r).update(o + 1, color.g).update(
                    o + 2,
                    color.b,
                ).update(o + 3, color.a),
            }
        } else {
            self
        }
    }

    /// The canvas after a sequence of pixel writes, made in order.
    pub open spec fn paint(self, plots: Seq<Plot>) -> Canvas
        decreases plots.len(),
    {
        if plots.len() == 0 {
            self
        } else {
            let last = plots.last();
            self.paint(plots.drop_last()).put(last.x, last.y, last.color)
        }
    }
}

/// Reads the field `width` of a `raster::Image`.
#[verifier::external_body]
fn width_of(image: &Image) -> (w: i32)
    ensures
        w == image_width(*image),
{
    image.width
}

/// Reads the field `height` of a `raster::Image`.
#[verifier::external_body]
fn height_of(image: &Image) -> (h: i32)
    ensures
        h == image_height(*image),
{
    image.height
}

/// Calls `Vec::len` on the field `bytes` of a `raster::Image`.
#[verifier::external_body]
fn buffer_len(image: &Image) -> (n: usize)
    ensures
        n == image_bytes(*image).len(),
{
    image.bytes.len()
}

/// Calls `raster::Image::set_pixel`. For a pixel on the grid whose four bytes
/// the buffer holds, at an offset that fits in an `i32`, that function
/// overwrites those four bytes with the colour's channels and changes nothing
/// else.
#[verifier::external_body]
fn set_pixel(image: &mut Image, x: i32, y: i32, color: Color)
    requires
        canvas(*old(image)).holds(x as int, y as int),
    ensures
        image_width(*final(image)) == image_width(*old(image)),
        image_height(*final(image)) == image_height(*old(image)),
        image_bytes(*final(image)) == image_bytes(*old(image)).update(
            canvas(*old(image)).offset(x as int, y as int),
            color.r,
        ).update(canvas(*old(image)).offset(x as int, y as int) + 1, color.g).update(
            canvas(*old(image)).offset(x as int, y as int) + 2,
            color.b,
        ).update(canvas(*old(image)).offset(x as int, y as int) + 3, color.a),
{
    let _ = image.set_pixel(x, y, raster::Color { r: color.r, g: color.g, b: color.b, a: color.a });
}

/// A surface that can show single pixels.
pub trait Displayable {
    /// Sets the colour of the pixel at `(x, y)`.
    fn display(&mut self, x: i32, y: i32, color: Color);
}

impl Displayable for Image {
    /// Writes one pixel. A position off the grid, or one whose bytes the
    /// buffer does not hold, is ignored.
    fn display(&mut self, x: i32, y: i32, color: Color)
        ensures
            canvas(*final(self)) == canvas(*old(self)).put(x as int, y as int, color),
    {
        let w = width_of(self);
        let h = height_of(self);
        let n = buffer_len(self);
        if 0 <= x && x < w && 0 <= y && y < h {
            assert(0 <= y * w <= 0x8000_0000 * 0x8000_0000) by (nonlinear_arith)
                requires
                    0 <= y < 0x8000_0000,
                    0 <= w <= 0x8000_0000,
            ;
            let cell: i64 = y as i64 * w as i64 + x as i64;
            if cell <= 536_870_911 && 4 * cell as u64 + 4 <= n as u64 {
                set_pixel(self, x, y, color);
            }
        }
    }
}

/// Writes one pixel whose position is given in 64 bits. A position that no
/// 32-bit coordinate names lies off every surface and is ignored.
pub(crate) fn plot(image: &mut Image, x: i64, y: i64, color: Color)
    ensures
        canvas(*final(image)) == canvas(*old(image)).put(x as int, y as int, color),
{
    if -0x8000_0000 <= x && x <= 0x7fff_ffff && -0x8000_0000 <= y && y <= 0x7fff_ffff {
        image.display(x as i32, y as i32, color);
    }
}

/// Makes the next plot of a sequence whose first `done` plots are already on
/// the image.
pub(crate) fn plot_next(
    image: &mut Image,
    x: i64,
    y: i64,
    color: Color,
    Ghost(base): Ghost<Canvas>,
    Ghost(all): Ghost<Seq<Plot>>,
    Ghost(done): Ghost<int>,
)
    requires
        0 <= done < all.len(),
        all[done] == (Plot { x: x as int, y: y as int, color }),
        canvas(*old(image)) == base.paint(all.take(done)),
    ensures
        canvas(*final(image)) == base.paint(all.take(done + 1)),
{
    plot(image, x, y, color);
    proof {
        assert(all.take(done + 1) =~= all.take(done).push(all[done]));
        lemma_paint_push(base, all.take(done), all[done]);
    }
}

/// Painting one more plot is painting the others and then putting that one.
pub proof fn lemma_paint_push(c: Canvas, plots: Seq<Plot>, p: Plot)
    ensures
        c.paint(plots.push(p)) == c.paint(plots).put(p.x, p.y, p.color),
{
    assert(plots.push(p).drop_last() =~= plots);
}

/// Painting two sequences one after the other is painting their concatenation.
pub proof fn lemma_paint_concat(c: Canvas, first: Seq<Plot>, second: Seq<Plot>)
    ensures
        c.paint(first + second) == c.paint(first).paint(second),
    decreases second.len(),
{
    if second.len() == 0 {
        assert(first + second =~= first);
    } else {
        lemma_paint_concat(c, first, second.drop_last());
        assert((first + second).drop_last() =~= first + second.drop_last());
    }
}

/// Channel number `j` of a colour, in the order in which the buffer holds them.
spec fn channel(color: Color, j: int) -> u8 {
    if j == 0 {
        color.r
    } else if j == 1 {
        color.g
    } else if j == 2 {
        color.b
    } else {
        color.a
    }
}

/// The byte that the plots leave at index `i` of a buffer laid out like that
/// of `c`, or `None` where none of them writes.
spec fn written(c: Canvas, plots: Seq<Plot>, i: int) -> Option<u8>
    decreases plots.len(),
{
    if plots.len() == 0 {
        None
    } else {
        let last = plots.last();
        let o = c.offset(last.x, last.y);
        if c.holds(last.x, last.y) && o <= i < o + 4 {
            Some(channel(last.color, i - o))
        } else {
            written(c, plots.drop_last(), i)
        }
    }
}

/// Painting keeps the layout of the canvas, and leaves at each index of the
/// buffer the byte that the plots write there, or the byte that was there.
proof fn lemma_paint_bytes(c: Canvas, plots: Seq<Plot>)
    ensures
        c.paint(plots).width == c.width,
        c.paint(plots).height == c.height,
        c.paint(plots).bytes.len() == c.bytes.len(),
        forall|i: int|
            0 <= i < c.bytes.len() ==> #[trigger] c.paint(plots).bytes[i] == (match written(
                c,
                plots,
                i,
            ) {
                Some(byte) => byte,
                None => c.bytes[i],
            }),
    decreases plots.len(),
{
    if plots.len() > 0 {
        let last = plots.last();
        let before = c.paint(plots.drop_last());
        lemma_paint_bytes(c, plots.drop_last());
        if c.holds(last.x, last.y) {
            assert(0 <= last.y * c.width) by (nonlinear_arith)
                requires
                    0 <= last.y,
                    0 <= c.width,
            ;
        }
    }
}

/// What the plots write depends on the layout of the canvas alone.
proof fn lemma_written_by_layout(a: Canvas, b: Canvas, plots: Seq<Plot>, i: int)
    requires
        a.width == b.width,
        a.height == b.height,
        a.bytes.len() == b.bytes.len(),
    ensures
        written(a, plots, i) == written(b, plots, i),
    decreases plots.len(),
{
    if plots.len() > 0 {
        lemma_written_by_layout(a, b, plots.drop_last(), i);
    }
}

/// Drawing is repeatable: the picture that a sequence of plots leaves depends
/// on nothing but the canvas it is painted on and the plots, so the same plots
/// on equal canvases give equal pictures; and painting the same plots once
/// more onto the picture changes nothing.
pub proof fn lemma_painting_repeats(first: Canvas, second: Canvas, plots: Seq<Plot>)
    requires
        first == second,
    ensures
        first.paint(plots) == second.paint(plots),
        first.paint(plots).paint(plots) == first.paint(plots),
{
    let once = first.paint(plots);
    let twice = once.paint(plots);
    lemma_paint_bytes(first, plots);
    lemma_paint_bytes(once, plots);
    assert forall|i: int| 0 <= i < once.bytes.len() implies twice.bytes[i] == once.bytes[i] by {
        lemma_written_by_layout(first, once, plots, i);
    }
    assert(twice.bytes =~= once.bytes);
}

/// One of the plots is at `(x, y)`.
pub open spec fn plotted(plots: Seq<Plot>, x: int, y: int) -> bool {
    exists|i: int| 0 <= i < plots.len() && (#[trigger] plots[i]).x == x && plots[i].y == y
}

/// Two different pixels of a grid `width` wide have different cells.
proof fn lemma_cells_differ(width: int, x: int, y: int, x2: int, y2: int)
    requires
        0 <= x < width,
        0 <= x2 < width,
        x != x2 || y != y2,
    ensures
        y * width + x != y2 * width + x2,
{
    if y < y2 {
        assert(y2 * width >= y * width + width) by (nonlinear_arith)
            requires
                y < y2,
                0 < width,
        ;
    } else if y2 < y {
        assert(y * width >= y2 * width + width) by (nonlinear_arith)
            requires
                y2 < y,
                0 < width,
        ;
    }
}

/// One pixel write changes the pixel it names, where the canvas holds it, and
/// no other pixel that the canvas holds.
pub proof fn lemma_put_pixel(c: Canvas, x: int, y: int, color: Color, x2: int, y2: int)
    requires
        c.holds(x2, y2),
    ensures
        c.put(x, y, color).holds(x2, y2),
        c.put(x, y, color).pixel(x2, y2) == if x == x2 && y == y2 {
            color
        } else {
            c.pixel(x2, y2)
        },
{
    assert(0 <= y2 * c.width) by (nonlinear_arith)
        requires
            0 <= y2,
            0 <= c.width,
    ;
    if c.holds(x, y) {
        assert(0 <= y * c.width) by (nonlinear_arith)
            requires
                0 <= y,
                0 <= c.width,
        ;
        if x != x2 || y != y2 {
            lemma_cells_differ(c.width, x, y, x2, y2);
        }
    }
}

/// After plots of one colour have been painted, a pixel that the canvas
/// holds shows that colour if one of the plots is at it, and the colour it
/// had before if none is.
pub proof fn lemma_painted_pixel(c: Canvas, plots: Seq<Plot>, color: Color, x: int, y: int)
    requires
        c.holds(x, y),
        forall|i: int| 0 <= i < plots.len() ==> (#[trigger] plots[i]).color == color,
    ensures
        c.paint(plots).holds(x, y),
        c.paint(plots).pixel(x, y) == if plotted(plots, x, y) {
            color
        } else {
            c.pixel(x, y)
        },
    decreases plots.len(),
{
    if plots.len() > 0 {
        let last = plots.last();
        let rest = plots.drop_last();
        lemma_painted_pixel(c, rest, color, x, y);
        lemma_put_pixel(c.paint(rest), last.x, last.y, last.color, x, y);
        if plotted(rest, x, y) {
            let i = choose|i: int| 0 <= i < rest.len() && (#[trigger] rest[i]).x == x && rest[i].y == y;
            assert(plots[i].x == x && plots[i].y == y);
        }
        if last.x == x && last.y == y {
            assert(plots[plots.len() - 1].x == x && plots[plots.len() - 1].y == y);
        }
        if plotted(plots, x, y) && !(last.x == x && last.y == y) {
            let i = choose|i: int|
                0 <= i < plots.len() && (#[trigger] plots[i]).x == x && plots[i].y == y;
            assert(rest[i].x == x && rest[i].y == y);
        }
    }
}

} // verus!
