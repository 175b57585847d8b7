//! Rasterising a straight segment between two grid positions.
//!
//! A segment is walked one pixel at a time along its longer axis; the other
//! coordinate follows at the nearest grid line, a tie going to the one nearer
//! the start. A thick segment is the same walk repeated, each time shifted by
//! one more pixel across the shorter axis.

use vstd::prelude::*;
use vstd::arithmetic::div_mod::lemma_fundamental_div_mod_converse;
use raster::Image;
use crate::color::Color;
use crate::surface::{canvas, lemma_paint_concat, plot_next, Plot};

verus! {

/// The largest magnitude of a coordinate that the rasteriser takes.
pub const REACH: i64 = 0x100_0000_0000;

/// How far apart two coordinates are.
pub open spec fn gap(a: int, b: int) -> int {
    if a <= b {
        b - a
    } else {
        a - b
    }
}

/// The coordinate `by` steps away from `from`, on the side where `to` lies.
pub open spec fn toward(from: int, to: int, by: int) -> int {
    if from < to {
        from + by
    } else {
        from - by
    }
}

/// How far the shorter axis has come after `k` steps along the longer one:
/// `k * minor / major` rounded to the nearest integer, a half rounded down.
pub open spec fn lag(k: int, minor: int, major: int) -> int {
    if major == 0 {
        0
    } else {
        (2 * k * minor + major - 1) / (2 * major)
    }
}

/// The number of steps from one end of a segment to the other.
pub open spec fn span(x0: int, y0: int, x1: int, y1: int) -> int {
    if gap(x0, x1) > gap(y0, y1) {
        gap(x0, x1)
    } else {
        gap(y0, y1)
    }
}

/// The segment runs flatter than the diagonal.
pub open spec fn flat(x0: int, y0: int, x1: int, y1: int) -> bool {
    gap(x0, x1) > gap(y0, y1)
}

/// The column of the pixel reached after `k` steps.
pub open spec fn walk_x(x0: int, y0: int, x1: int, y1: int, k: int) -> int {
    if flat(x0, y0, x1, y1) {
        toward(x0, x1, k)
    } else {
        toward(x0, x1, lag(k, gap(x0, x1), gap(y0, y1)))
    }
}

/// The row of the pixel reached after `k` steps.
pub open spec fn walk_y(x0: int, y0: int, x1: int, y1: int, k: int) -> int {
    if flat(x0, y0, x1, y1) {
        toward(y0, y1, lag(k, gap(y0, y1), gap(x0, x1)))
    } else {
        toward(y0, y1, k)
    }
}

/// The plot made at step `k` of a walk that is shifted by `shift` pixels: down
/// where the segment is flat, to the right where it is not.
pub open spec fn pass_plot(
    x0: int,
    y0: int,
    x1: int,
    y1: int,
    shift: int,
    color: Color,
    k: int,
) -> Plot {
    if flat(x0, y0, x1, y1) {
        Plot { x: walk_x(x0, y0, x1, y1, k), y: walk_y(x0, y0, x1, y1, k) + shift, color }
    } else {
        Plot { x: walk_x(x0, y0, x1, y1, k) + shift, y: walk_y(x0, y0, x1, y1, k), color }
    }
}

/// One shifted walk from `(x0, y0)` to `(x1, y1)`, both ends included.
pub open spec fn pass(x0: int, y0: int, x1: int, y1: int, shift: int, color: Color) -> Seq<Plot> {
    Seq::new(
        (span(x0, y0, x1, y1) + 1) as nat,
        |k: int| pass_plot(x0, y0, x1, y1, shift, color, k),
    )
}

/// The first `count` walks of a segment of the given thickness. Walk `t` is
/// shifted by `t - thickness / 2`.
pub open spec fn passes(
    x0: int,
    y0: int,
    x1: int,
    y1: int,
    thickness: int,
    count: int,
    color: Color,
) -> Seq<Plot>
    decreases count,
{
    if count <= 0 {
        Seq::empty()
    } else {
        passes(x0, y0, x1, y1, thickness, count - 1, color) + pass(
            x0,
            y0,
            x1,
            y1,
            count - 1 - thickness / 2,
            color,
        )
    }
}

/// Every plot of a segment of the given thickness, in the order made. A
/// thickness below one gives no plot.
pub open spec fn segment_plots(
    x0: int,
    y0: int,
    x1: int,
    y1: int,
    thickness: int,
    color: Color,
) -> Seq<Plot> {
    passes(x0, y0, x1, y1, thickness, thickness, color)
}

/// A count `c` within half a step of `k * minor / major` is the lag.
proof fn lemma_lag(k: int, minor: int, major: int, c: int)
    requires
        major > 0,
        -major < 2 * (k * minor) - 2 * (c * major) <= major,
    ensures
        lag(k, minor, major) == c,
{
    let x = 2 * k * minor + major - 1;
    let r = x - c * (2 * major);
    assert(2 * k * minor == 2 * (k * minor)) by (nonlinear_arith);
    assert(c * (2 * major) == 2 * (c * major)) by (nonlinear_arith);
    lemma_fundamental_div_mod_converse(x, 2 * major, c, r);
}

/// A walk starts on the first end of its segment and stops on the second,
/// each shifted as the walk is.
pub proof fn lemma_pass_runs_end_to_end(
    x0: int,
    y0: int,
    x1: int,
    y1: int,
    shift: int,
    color: Color,
)
    ensures
        pass(x0, y0, x1, y1, shift, color).len() == span(x0, y0, x1, y1) + 1,
        pass(x0, y0, x1, y1, shift, color).first() == if flat(x0, y0, x1, y1) {
            Plot { x: x0, y: y0 + shift, color }
        } else {
            Plot { x: x0 + shift, y: y0, color }
        },
        pass(x0, y0, x1, y1, shift, color).last() == if flat(x0, y0, x1, y1) {
            Plot { x: x1, y: y1 + shift, color }
        } else {
            Plot { x: x1 + shift, y: y1, color }
        },
{
    let dx = gap(x0, x1);
    let dy = gap(y0, y1);
    assert(dx * dy == dy * dx) by (nonlinear_arith);
    assert(0 * dx == 0 && 0 * dy == 0);
    if dx > dy {
        lemma_lag(0, dy, dx, 0);
        lemma_lag(dx, dy, dx, dy);
    } else if dy > 0 {
        lemma_lag(0, dx, dy, 0);
        lemma_lag(dy, dx, dy, dx);
    }
}

/// What one of the first `count` walks plots, the walks together plot.
proof fn lemma_passes_hold_each_pass(
    x0: int,
    y0: int,
    x1: int,
    y1: int,
    thickness: int,
    count: int,
    color: Color,
    t: int,
    p: Plot,
)
    requires
        0 <= t < count,
        pass(x0, y0, x1, y1, t - thickness / 2, color).contains(p),
    ensures
        passes(x0, y0, x1, y1, thickness, count, color).contains(p),
    decreases count,
{
    let before = passes(x0, y0, x1, y1, thickness, count - 1, color);
    let latest = pass(x0, y0, x1, y1, count - 1 - thickness / 2, color);
    if t == count - 1 {
        let i = choose|i: int| 0 <= i < latest.len() && latest[i] == p;
        assert((before + latest)[before.len() + i] == p);
    } else {
        lemma_passes_hold_each_pass(x0, y0, x1, y1, thickness, count - 1, color, t, p);
        let i = choose|i: int| 0 <= i < before.len() && before[i] == p;
        assert((before + latest)[i] == p);
    }
}

/// A segment at least one pixel thick plots both of its ends.
pub proof fn lemma_segment_plots_both_ends(
    x0: int,
    y0: int,
    x1: int,
    y1: int,
    thickness: int,
    color: Color,
)
    requires
        1 <= thickness,
    ensures
        segment_plots(x0, y0, x1, y1, thickness, color).contains(Plot { x: x0, y: y0, color }),
        segment_plots(x0, y0, x1, y1, thickness, color).contains(Plot { x: x1, y: y1, color }),
{
    let t = thickness / 2;
    let middle = pass(x0, y0, x1, y1, 0, color);
    lemma_pass_runs_end_to_end(x0, y0, x1, y1, 0, color);
    assert(middle[0] == middle.first());
    assert(middle[middle.len() - 1] == middle.last());
    lemma_passes_hold_each_pass(x0, y0, x1, y1, thickness, thickness, color, t, middle.first());
    lemma_passes_hold_each_pass(x0, y0, x1, y1, thickness, thickness, color, t, middle.last());
}

/// Walks once from `(x0, y0)` to `(x1, y1)` and plots each pixel on the way,
/// shifted by `shift`.
fn draw_pass(image: &mut Image, x0: i64, y0: i64, x1: i64, y1: i64, shift: i64, color: Color)
    requires
        -REACH <= x0 <= REACH,
        -REACH <= y0 <= REACH,
        -REACH <= x1 <= REACH,
        -REACH <= y1 <= REACH,
        -REACH <= shift <= REACH,
    ensures
        canvas(*final(image)) == canvas(*old(image)).paint(
            pass(x0 as int, y0 as int, x1 as int, y1 as int, shift as int, color),
        ),
{
    let dx: i64 = if x0 <= x1 { x1 - x0 } else { x0 - x1 };
    let dy: i64 = if y0 <= y1 { y1 - y0 } else { y0 - y1 };
    let sx: i64 = if x0 < x1 { 1 } else { -1 };
    let sy: i64 = if y0 < y1 { 1 } else { -1 };
    let mut err: i64 = dx - dy;
    let mut x: i64 = x0;
    let mut y: i64 = y0;
    let ghost base = canvas(*image);
    let ghost all = pass(x0 as int, y0 as int, x1 as int, y1 as int, shift as int, color);
    let ghost n: int = if dx > dy { dx as int } else { dy as int };
    let ghost mut k: int = 0;
    let ghost mut a: int = 0;
    let ghost mut b: int = 0;
    assert(0 * (dy as int) == 0 && 0 * (dx as int) == 0);
    assert(all.take(0) =~= Seq::<Plot>::empty());
    loop
        invariant_except_break
            canvas(*image) == base.paint(all.take(k)),
        invariant
            -REACH <= x0 <= REACH,
            -REACH <= y0 <= REACH,
            -REACH <= x1 <= REACH,
            -REACH <= y1 <= REACH,
            -REACH <= shift <= REACH,
            dx == gap(x0 as int, x1 as int),
            dy == gap(y0 as int, y1 as int),
            sx == (if x0 < x1 { 1i64 } else { -1i64 }),
            sy == (if y0 < y1 { 1i64 } else { -1i64 }),
            n == span(x0 as int, y0 as int, x1 as int, y1 as int),
            all == pass(x0 as int, y0 as int, x1 as int, y1 as int, shift as int, color),
            0 <= k <= n,
            0 <= a <= k,
            0 <= b <= k,
            x == toward(x0 as int, x1 as int, a),
            y == toward(y0 as int, y1 as int, b),
            err == dx - dy - a * dy + b * dx,
            dx > dy ==> a == k && dx - 2 * dy <= 2 * err < 3 * dx - 2 * dy,
            dx < dy ==> b == k && 2 * dx - 3 * dy < 2 * err <= 2 * dx - dy,
            dx == dy ==> a == k && b == k && err == 0,
        ensures
            canvas(*image) == base.paint(all),
        decreases n - k,
    {
        proof {
            if dx > dy {
                lemma_lag(k, dy as int, dx as int, b);
            } else if dy > 0 {
                lemma_lag(k, dx as int, dy as int, a);
            }
        }
        if dx > dy {
            plot_next(image, x, y + shift, color, Ghost(base), Ghost(all), Ghost(k));
        } else {
            plot_next(image, x + shift, y, color, Ghost(base), Ghost(all), Ghost(k));
        }
        proof {
            if k == n {
                if dx > dy {
                    assert(b == dy) by (nonlinear_arith)
                        requires
                            dx > 0,
                            dx - 2 * dy <= 2 * (dx - dy - dx * dy + b * dx) < 3 * dx - 2 * dy,
                    ;
                } else if dx < dy {
                    assert(a == dx) by (nonlinear_arith)
                        requires
                            dy > 0,
                            2 * dx - 3 * dy < 2 * (dx - dy - a * dy + dy * dx) <= 2 * dx - dy,
                    ;
                }
            }
        }
        if x == x1 && y == y1 {
            assert(all.take(k + 1) =~= all);
            break ;
        }
        let e2: i64 = 2 * err;
        proof {
            assert((a + 1) * dy == a * dy + dy) by (nonlinear_arith);
            assert((b + 1) * dx == b * dx + dx) by (nonlinear_arith);
        }
        if e2 > -dy {
            err = err - dy;
            x = x + sx;
            proof {
                a = a + 1;
            }
        }
        if e2 < dx {
            err = err + dx;
            y = y + sy;
            proof {
                b = b + 1;
            }
        }
        proof {
            k = k + 1;
        }
    }
}

/// Draws the segment from `(x0, y0)` to `(x1, y1)` with the given thickness.
pub(crate) fn draw_segment(
    image: &mut Image,
    x0: i64,
    y0: i64,
    x1: i64,
    y1: i64,
    thickness: i32,
    color: Color,
)
    requires
        -REACH <= x0 <= REACH,
        -REACH <= y0 <= REACH,
        -REACH <= x1 <= REACH,
        -REACH <= y1 <= REACH,
    ensures
        canvas(*final(image)) == canvas(*old(image)).paint(
            segment_plots(x0 as int, y0 as int, x1 as int, y1 as int, thickness as int, color),
        ),
{
    let ghost base = canvas(*image);
    let half: i32 = thickness / 2;
    let mut t: i32 = 0;
    while t < thickness
        invariant
            -REACH <= x0 <= REACH,
            -REACH <= y0 <= REACH,
            -REACH <= x1 <= REACH,
            -REACH <= y1 <= REACH,
            0 <= t,
            t <= thickness || (thickness < 0 && t == 0),
            thickness > 0 ==> half == thickness as int / 2,
            canvas(*image) == base.paint(
                passes(x0 as int, y0 as int, x1 as int, y1 as int, thickness as int, t as int, color),
            ),
        decreases thickness - t,
    {
        let ghost before = passes(
            x0 as int,
            y0 as int,
            x1 as int,
            y1 as int,
            thickness as int,
            t as int,
            color,
        );
        let shift: i64 = t as i64 - half as i64;
        draw_pass(image, x0, y0, x1, y1, shift, color);
        proof {
            lemma_paint_concat(
                base,
                before,
                pass(x0 as int, y0 as int, x1 as int, y1 as int, shift as int, color),
            );
        }
        t = t + 1;
    }
    proof {
        if thickness < 0 {
            assert(passes(x0 as int, y0 as int, x1 as int, y1 as int, thickness as int, 0, color)
                == passes(
                x0 as int,
                y0 as int,
                x1 as int,
                y1 as int,
                thickness as int,
                thickness as int,
                color,
            ));
        }
    }
}

} // verus!
