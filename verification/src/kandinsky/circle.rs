use vstd::prelude::*;
use crate::kandinsky::color::Color;
use crate::kandinsky::geometry::{Point, Rect};
use crate::kandinsky::surface::{
    numbered, pixel_writes, set_pixel, stage, Canvas, Request, Surface,
};

verus! {

/// The limit against which the arc of a circle of radius `r` is decided, as a
/// squared distance in half pixels: `(2r + 1)^2 + 1`, less eight times the
/// sixteenth of `r`, rounded down.
pub open spec fn arc_limit(r: int) -> int {
    4 * (r * r) + 4 * r + 2 - 8 * (r / 16)
}

/// Whether the arc moves one column inwards on reaching row `i`, coming from
/// column `x`: whether the upper corner of the pixel `(x, i)` on the side of
/// the centre, which is `(x - 1/2, i + 1/2)` from the centre, lies on or
/// outside the limit.
pub open spec fn arc_turns_in(r: int, x: int, i: int) -> bool {
    (2 * x - 1) * (2 * x - 1) + (2 * i + 1) * (2 * i + 1) >= arc_limit(r)
}

/// The column of the arc in row `i`, for the arc that starts at `(r, 0)` and
/// climbs one row at a time.
pub open spec fn arc_x(r: int, i: int) -> int
    decreases i,
{
    if i <= 0 {
        r
    } else {
        let x = arc_x(r, i - 1);
        if arc_turns_in(r, x, i) {
            x - 1
        } else {
            x
        }
    }
}

/// The number of rows from row `i` on in which the arc has not yet crossed
/// the diagonal.
pub open spec fn arc_rows_from(r: int, i: int) -> nat
    decreases r - i + 1,
{
    if 0 <= i <= r && arc_x(r, i) >= i {
        1 + arc_rows_from(r, i + 1)
    } else {
        0
    }
}

/// The number of rows of the arc between the x axis and the diagonal.
pub open spec fn arc_rows(r: int) -> nat {
    arc_rows_from(r, 0)
}

/// The pixel at `(dx, dy)` from `center`.
pub open spec fn offset_point(center: Point, dx: int, dy: int) -> Point {
    Point { x: (center.x + dx) as i16, y: (center.y + dy) as i16 }
}

/// The eight pixels that mirror the offset `(x, y)` from `center` into every
/// octant, in the order they are painted.
pub open spec fn octant_points(center: Point, x: int, y: int) -> Seq<Point> {
    seq![
        offset_point(center, x, y),
        offset_point(center, -x, y),
        offset_point(center, -x, -y),
        offset_point(center, x, -y),
        offset_point(center, -y, x),
        offset_point(center, -y, -x),
        offset_point(center, y, -x),
        offset_point(center, y, x),
    ]
}

/// The `j`-th pixel painted for the circle of radius `r` around `center`:
/// eight for each row of the arc.
pub open spec fn circle_point(center: Point, r: int, j: int) -> Point {
    octant_points(center, arc_x(r, j / 8), j / 8)[j % 8]
}

/// The pixels painted for the circle of the given radius around `center`, in
/// the order they are painted. A radius beyond the largest coordinate gives
/// no pixels.
pub open spec fn circle_path(center: Point, radius: u16) -> Seq<Point> {
    if radius > i16::MAX {
        Seq::empty()
    } else {
        Seq::new(8 * arc_rows(radius as int), |j: int| circle_point(center, radius as int, j))
    }
}

/// Whether every pixel of the circle around `center` has coordinates in range.
pub open spec fn circle_fits(center: Point, radius: u16) -> bool {
    radius <= i16::MAX ==> {
        &&& i16::MIN <= center.x - radius
        &&& center.x + radius <= i16::MAX
        &&& i16::MIN <= center.y - radius
        &&& center.y + radius <= i16::MAX
    }
}

/// Twice the decision term of the circle algorithm at column `x` of row `i`.
#[verifier::opaque]
spec fn arc_term(r: int, x: int, i: int) -> int {
    2 * (r / 16) + i * i + i + x * x + x - r * r - r
}

/// Climbing one row adds twice the new row to the doubled decision term, and
/// the arc turns in exactly when the result reaches twice the column.
proof fn lemma_arc_term_climb(r: int, x: int, i: int)
    ensures
        arc_term(r, x, i + 1) == arc_term(r, x, i) + 2 * (i + 1),
        arc_term(r, x - 1, i) == arc_term(r, x, i) - 2 * x,
        arc_turns_in(r, x, i + 1) <==> arc_term(r, x, i) + 2 * (i + 1) - 2 * x >= 0,
        arc_term(r, r, 0) == 2 * (r / 16),
{
    reveal(arc_term);
    assert((i + 1) * (i + 1) == i * i + 2 * i + 1) by (nonlinear_arith);
    assert((x - 1) * (x - 1) == x * x - 2 * x + 1) by (nonlinear_arith);
    assert((2 * x - 1) * (2 * x - 1) == 4 * (x * x) - 4 * x + 1) by (nonlinear_arith);
    assert((2 * (i + 1) + 1) * (2 * (i + 1) + 1) == 4 * (i * i) + 12 * i + 9) by (nonlinear_arith);
}

/// Paints the eight pixels that mirror the offset `(x, y)` from `center`, by
/// eight calls of the surface's `push_rect_uniform`.
fn draw_octants<S: Surface>(canvas: &mut Canvas<S>, center: Point, x: i16, y: i16, color: Color)
    requires
        0 <= x,
        0 <= y,
        i16::MIN <= center.x - x && center.x + x <= i16::MAX,
        i16::MIN <= center.x - y && center.x + y <= i16::MAX,
        i16::MIN <= center.y - x && center.y + x <= i16::MAX,
        i16::MIN <= center.y - y && center.y + y <= i16::MAX,
    ensures
        final(canvas).requests() == old(canvas).requests() + pixel_writes(
            octant_points(center, x as int, y as int),
            color,
        ),
        final(canvas).states().len() == old(canvas).states().len() + 8,
        final(canvas).states().take(old(canvas).states().len() as int) == old(canvas).states(),
        final(canvas).backing() == final(canvas).states().last(),
        forall|i: int|
            #[trigger] numbered(i, 8) ==> exists|m: &mut S|
                mut_ref_current(m) == stage(
                    old(canvas).backing(),
                    final(canvas).states(),
                    old(canvas).states().len() as int,
                    i,
                )
                    && mut_ref_future(m) == final(canvas).states()[old(canvas).states().len() + i]
                    && #[trigger] call_ensures(
                        S::push_rect_uniform,
                        (
                            m,
                            (Rect {
                                point: octant_points(center, x as int, y as int)[i],
                                w: 1,
                                h: 1,
                            }),
                            color,
                        ),
                        (),
                    ),
{
    let ghost before = canvas.requests();
    let ghost earlier = canvas.states();
    let ghost base = canvas.states().len() as int;
    let ghost points = octant_points(center, x as int, y as int);
    let ghost b0 = canvas.backing();
    let mut sx: i16 = x;
    let mut sy: i16 = y;
    set_pixel(canvas, center + [sx, sy], color);
    let ghost b1 = canvas.backing();
    sx = -sx;
    set_pixel(canvas, center + [sx, sy], color);
    let ghost b2 = canvas.backing();
    sy = -sy;
    set_pixel(canvas, center + [sx, sy], color);
    let ghost b3 = canvas.backing();
    sx = -sx;
    set_pixel(canvas, center + [sx, sy], color);
    let ghost b4 = canvas.backing();
    let swapped: i16 = sx;
    sx = sy;
    sy = swapped;
    set_pixel(canvas, center + [sx, sy], color);
    let ghost b5 = canvas.backing();
    sy = -sy;
    set_pixel(canvas, center + [sx, sy], color);
    let ghost b6 = canvas.backing();
    sx = -sx;
    set_pixel(canvas, center + [sx, sy], color);
    let ghost b7 = canvas.backing();
    sy = -sy;
    set_pixel(canvas, center + [sx, sy], color);
    proof {
        let states = canvas.states();
        let b8 = canvas.backing();
        assert(canvas.requests() =~= before + pixel_writes(points, color));
        assert(states =~= earlier.push(b1).push(b2).push(b3).push(b4).push(b5).push(b6).push(
            b7,
        ).push(b8));
        assert(states.take(base) =~= earlier);
        assert forall|i: int| #[trigger] numbered(i, 8) implies exists|m: &mut S|
            mut_ref_current(m) == stage(b0, states, base, i)
                && mut_ref_future(m) == states[base + i]
                && #[trigger] call_ensures(
                    S::push_rect_uniform,
                    (m, (Rect { point: points[i], w: 1, h: 1 }), color),
                    (),
                ) by {
            assert(0 <= i < 8);
            if i == 0 {
                assert(stage(b0, states, base, i) == b0 && states[base + i] == b1);
            } else if i == 1 {
                assert(stage(b0, states, base, i) == b1 && states[base + i] == b2);
            } else if i == 2 {
                assert(stage(b0, states, base, i) == b2 && states[base + i] == b3);
            } else if i == 3 {
                assert(stage(b0, states, base, i) == b3 && states[base + i] == b4);
            } else if i == 4 {
                assert(stage(b0, states, base, i) == b4 && states[base + i] == b5);
            } else if i == 5 {
                assert(stage(b0, states, base, i) == b5 && states[base + i] == b6);
            } else if i == 6 {
                assert(stage(b0, states, base, i) == b6 && states[base + i] == b7);
            } else {
                assert(stage(b0, states, base, i) == b7 && states[base + i] == b8);
            }
        }
    }
}

/// Painting a row of the circle extends what has been painted by the eight
/// pixels of that row.
proof fn lemma_next_row(
    before: Seq<Request>,
    center: Point,
    radius: u16,
    i: int,
    color: Color,
)
    requires
        radius <= i16::MAX,
        0 <= i < arc_rows(radius as int),
    ensures
        before + pixel_writes(circle_path(center, radius).take(8 * i), color) + pixel_writes(
            octant_points(center, arc_x(radius as int, i), i),
            color,
        ) == before + pixel_writes(circle_path(center, radius).take(8 * i + 8), color),
{
    let path = circle_path(center, radius);
    let row = octant_points(center, arc_x(radius as int, i), i);
    let left = before + pixel_writes(path.take(8 * i), color) + pixel_writes(row, color);
    let right = before + pixel_writes(path.take(8 * i + 8), color);
    assert(left.len() == right.len());
    assert forall|j: int| 0 <= j < left.len() implies left[j] == right[j] by {
        if j >= before.len() + 8 * i {
            let m = j - before.len() - 8 * i;
            assert((8 * i + m) / 8 == i && (8 * i + m) % 8 == m);
            assert(path[8 * i + m] == row[m]);
        }
    }
    assert(left =~= right);
}

/// Draws the circle of the given radius around `center`: eight pixels for
/// each row of its arc, from the x axis up to the diagonal.
///
/// The arc is found by adding up a decision term that starts at a sixteenth
/// of the radius; its pixels are those of [`circle_path`], which decides
/// each turn of the arc by a squared distance. Each pixel is painted by one
/// call of the surface's `push_rect_uniform` with the rectangle of that
/// pixel, and the surface is called for nothing else. The radius is read as a
/// signed coordinate, so a radius beyond the largest coordinate draws nothing.
pub fn draw_circle<S: Surface>(canvas: &mut Canvas<S>, center: Point, radius: u16, color: Color)
    requires
        circle_fits(center, radius),
    ensures
        final(canvas).requests() == old(canvas).requests() + pixel_writes(
            circle_path(center, radius),
            color,
        ),
        final(canvas).states().len() == old(canvas).states().len() + circle_path(
            center,
            radius,
        ).len(),
        final(canvas).states().take(old(canvas).states().len() as int) == old(canvas).states(),
        final(canvas).backing() == stage(
            old(canvas).backing(),
            final(canvas).states(),
            old(canvas).states().len() as int,
            circle_path(center, radius).len() as int,
        ),
        forall|i: int|
            #[trigger] numbered(i, circle_path(center, radius).len() as int) ==> exists|
                m: &mut S,
            |
                mut_ref_current(m) == stage(
                    old(canvas).backing(),
                    final(canvas).states(),
                    old(canvas).states().len() as int,
                    i,
                )
                    && mut_ref_future(m) == final(canvas).states()[old(canvas).states().len() + i]
                    && #[trigger] call_ensures(
                        S::push_rect_uniform,
                        (m, (Rect { point: circle_path(center, radius)[i], w: 1, h: 1 }), color),
                        (),
                    ),
{
    let signed: i16 = #[verifier::truncate] (radius as i16);
    assert(radius <= 0x7FFF ==> (radius as i16) == radius) by (bit_vector);
    assert(radius > 0x7FFF ==> (radius as i16) < 0) by (bit_vector);
    let mut sx: i32 = signed as i32;
    let mut t1: i32 = sx >> 4;
    assert(sx >= 0 ==> sx >> 4 == sx / 16) by (bit_vector);
    let mut sy: i32 = 0;

    let ghost before = canvas.requests();
    let ghost first = canvas.backing();
    let ghost earlier = canvas.states();
    let ghost base = canvas.states().len() as int;
    let ghost path = circle_path(center, radius);
    let ghost r = radius as int;
    proof {
        assert(pixel_writes(path.take(0), color) =~= Seq::<Request>::empty());
        assert(before + Seq::<Request>::empty() =~= before);
        assert(earlier.take(base) =~= earlier);
        if radius <= i16::MAX {
            lemma_arc_term_climb(r, r, 0);
        } else {
            assert(path.take(0) =~= path);
        }
    }
    while sx >= sy
        invariant
            r == radius,
            path == circle_path(center, radius),
            circle_fits(center, radius),
            radius > i16::MAX ==> sx < 0 && sy == 0,
            radius <= i16::MAX ==> {
                &&& 0 <= sy <= r + 1
                &&& sx == arc_x(r, sy as int)
                &&& sy - 2 <= sx <= r
                &&& 2 * t1 == arc_term(r, sx as int, sy as int)
                &&& 0 <= t1 <= r + sy
                &&& arc_rows(r) == sy + arc_rows_from(r, sy as int)
            },
            8 * sy <= path.len(),
            canvas.requests() == before + pixel_writes(path.take(8 * sy), color),
            base == earlier.len(),
            canvas.states().len() == base + 8 * sy,
            canvas.states().take(base) == earlier,
            canvas.backing() == stage(first, canvas.states(), base, 8 * sy),
            forall|i: int|
                #[trigger] numbered(i, 8 * sy) ==> exists|m: &mut S|
                    mut_ref_current(m) == stage(first, canvas.states(), base, i)
                        && mut_ref_future(m) == canvas.states()[base + i]
                        && #[trigger] call_ensures(
                            S::push_rect_uniform,
                            (m, (Rect { point: path[i], w: 1, h: 1 }), color),
                            (),
                        ),
        decreases r + 2 - sy,
    {
        let ghost states0 = canvas.states();
        let ghost back0 = canvas.backing();
        let ghost row = octant_points(center, sx as int, sy as int);
        let ghost done = 8 * sy;
        proof {
            assert(arc_rows_from(r, sy as int) == 1 + arc_rows_from(r, sy + 1));
            lemma_next_row(before, center, radius, sy as int, color);
            lemma_arc_term_climb(r, sx as int, sy as int);
            lemma_arc_term_climb(r, sx as int, sy + 1);
        }
        draw_octants(canvas, center, sx as i16, sy as i16, color);
        proof {
            let states1 = canvas.states();
            assert(states1.take(base) =~= earlier) by {
                assert forall|j: int| 0 <= j < base implies states1.take(base)[j] == earlier[j] by {
                    assert(states1.take(base + done)[j] == states0[j]);
                    assert(states0.take(base)[j] == earlier[j]);
                }
            }
            assert forall|i: int| #[trigger] numbered(i, done + 8) implies exists|m: &mut S|
                mut_ref_current(m) == stage(first, states1, base, i)
                    && mut_ref_future(m) == states1[base + i]
                    && #[trigger] call_ensures(
                        S::push_rect_uniform,
                        (m, (Rect { point: path[i], w: 1, h: 1 }), color),
                        (),
                    ) by {
                if i < done {
                    assert(numbered(i, done));
                    assert(states1.take(base + done)[base + i] == states0[base + i]);
                    if i > 0 {
                        assert(states1.take(base + done)[base + i - 1] == states0[base + i - 1]);
                    }
                } else {
                    let j = i - done;
                    assert(numbered(j, 8));
                    assert((done + j) / 8 == sy && (done + j) % 8 == j);
                    assert(path[i] == row[j]);
                    if done + j > 0 && j == 0 {
                        assert(states1.take(base + done)[base + done - 1] == states0[base + done
                            - 1]);
                    }
                    assert(stage(back0, states1, base + done, j) == stage(first, states1, base, i));
                }
            }
        }

        sy += 1;
        t1 += sy;

        let t2: i32 = t1 - sx;

        if t2 >= 0 {
            t1 = t2;
            sx -= 1;
        }
    }
    proof {
        if radius <= i16::MAX {
            assert(arc_rows_from(r, sy as int) == 0);
        }
        assert(path.take(8 * sy) =~= path);
    }
}

/// In every row of the arc up to the diagonal, the doubled decision term is
/// at least zero and below twice the column, and the column lies between the
/// row and the radius.
proof fn lemma_arc_row(r: int, i: int)
    requires
        1 <= r,
        0 <= i <= arc_x(r, i),
    ensures
        i <= arc_x(r, i) <= r,
        0 <= arc_term(r, arc_x(r, i), i) < 2 * arc_x(r, i),
        i > 0 ==> i - 1 <= arc_x(r, i - 1),
    decreases i,
{
    lemma_arc_term_climb(r, r, 0);
    if i > 0 {
        let x = arc_x(r, i - 1);
        lemma_arc_row(r, i - 1);
        lemma_arc_term_climb(r, x, i - 1);
        lemma_arc_term_climb(r, x, i);
    }
}

/// The arc follows the limit as closely as the pixel grid allows: in every
/// row up to the diagonal, the upper corner of the arc's pixel on the side of
/// the centre lies inside the limit, and its upper corner on the far side
/// lies on the limit or outside.
pub proof fn lemma_arc_follows_limit(r: int, i: int)
    requires
        1 <= r,
        0 <= i <= arc_x(r, i),
    ensures
        !arc_turns_in(r, arc_x(r, i), i),
        arc_turns_in(r, arc_x(r, i) + 1, i),
{
    let x = arc_x(r, i);
    lemma_arc_row(r, i);
    reveal(arc_term);
    assert((2 * x - 1) * (2 * x - 1) + (2 * i + 1) * (2 * i + 1) - arc_limit(r) == 4 * (arc_term(
        r,
        x,
        i,
    ) - 2 * x)) by (nonlinear_arith)
        requires
            arc_limit(r) == 4 * (r * r) + 4 * r + 2 - 8 * (r / 16),
            arc_term(r, x, i) == 2 * (r / 16) + i * i + i + x * x + x - r * r - r,
    ;
    assert((2 * (x + 1) - 1) * (2 * (x + 1) - 1) + (2 * i + 1) * (2 * i + 1) - arc_limit(r) == 4
        * arc_term(r, x, i)) by (nonlinear_arith)
        requires
            arc_limit(r) == 4 * (r * r) + 4 * r + 2 - 8 * (r / 16),
            arc_term(r, x, i) == 2 * (r / 16) + i * i + i + x * x + x - r * r - r,
    ;
}

/// A row that is painted lies within the radius, and so do the rows below.
proof fn lemma_arc_rows_painted(r: int, from: int, i: int)
    requires
        0 <= from <= i < from + arc_rows_from(r, from),
    ensures
        0 <= i <= arc_x(r, i),
        i <= r,
    decreases i - from,
{
    if i > from {
        lemma_arc_rows_painted(r, from + 1, i);
    }
}

/// The row of the arc, and the place within the row, of the `j`-th pixel.
pub proof fn lemma_circle_rows(center: Point, radius: u16, j: int)
    requires
        0 <= j < circle_path(center, radius).len(),
    ensures
        radius <= i16::MAX,
        0 <= j / 8 <= arc_x(radius as int, j / 8) <= radius,
        circle_path(center, radius)[j] == octant_points(
            center,
            arc_x(radius as int, j / 8),
            j / 8,
        )[j % 8],
        circle_path(center, radius).subrange(8 * (j / 8), 8 * (j / 8) + 8) == octant_points(
            center,
            arc_x(radius as int, j / 8),
            j / 8,
        ),
{
    let r = radius as int;
    let i = j / 8;
    let path = circle_path(center, radius);
    lemma_arc_rows_painted(r, 0, i);
    if r >= 1 {
        lemma_arc_row(r, i);
    }
    let row = octant_points(center, arc_x(r, i), i);
    assert forall|m: int| 0 <= m < 8 implies #[trigger] path.subrange(8 * i, 8 * i + 8)[m]
        == row[m] by {
        assert((8 * i + m) / 8 == i && (8 * i + m) % 8 == m);
    }
    assert(path.subrange(8 * i, 8 * i + 8) =~= row);
}

/// A circle of radius zero is its centre, painted once for each octant.
pub proof fn lemma_circle_of_radius_zero(center: Point)
    ensures
        circle_path(center, 0) == Seq::new(8, |j: int| center),
        circle_path(center, 0).to_set() == set![center],
{
    let path = circle_path(center, 0);
    assert(arc_x(0, 0) == 0);
    assert(arc_turns_in(0, 0, 1)) by (nonlinear_arith);
    assert(arc_x(0, 1) == -1) by {
        reveal_with_fuel(arc_x, 2);
    }
    assert(arc_rows(0) == 1) by {
        reveal_with_fuel(arc_rows_from, 2);
    }
    assert forall|j: int| 0 <= j < 8 implies #[trigger] path[j] == center by {
        assert(j / 8 == 0);
        assert(octant_points(center, 0, 0)[j % 8] == center);
    }
    assert(path =~= Seq::new(8, |j: int| center));
    assert(path[0] == center);
    assert(path.to_set() =~= set![center]);
}

/// The squared distance between two pixels.
pub open spec fn squared_distance(a: Point, b: Point) -> int {
    (b.x - a.x) * (b.x - a.x) + (b.y - a.y) * (b.y - a.y)
}

/// Whether `s` is the square root of `d` rounded to the nearest integer:
/// whether `d` lies between the squares of `s - 1/2` and `s + 1/2`.
pub open spec fn is_rounded_root(s: int, d: int) -> bool {
    &&& 0 <= s
    &&& 4 * d < (2 * s + 1) * (2 * s + 1)
    &&& s == 0 || (2 * s - 1) * (2 * s - 1) <= 4 * d
}

/// A point of the arc lies less than a pixel and a half from the ideal circle.
proof fn lemma_arc_distance(r: int, x: int, i: int)
    requires
        0 <= i <= x <= r,
        r == 0 ==> x == 0,
        r >= 1 ==> 0 <= arc_term(r, x, i) < 2 * x,
    ensures
        4 * (x * x + i * i) < (2 * r + 3) * (2 * r + 3),
        r >= 2 ==> (2 * r - 3) * (2 * r - 3) <= 4 * (x * x + i * i),
{
    let d = x * x + i * i;
    let c = r / 16;
    reveal(arc_term);
    if r == 0 {
        assert(d == 0);
    } else {
        assert(r * r + r - 2 * c - i - x <= d < r * r + r - 2 * c - i + x);
    }
    assert(4 * d < (2 * r + 3) * (2 * r + 3)) by (nonlinear_arith)
        requires
            0 <= r,
            d <= r * r + 2 * r,
    ;
    if r >= 2 {
        assert((2 * r - 3) * (2 * r - 3) <= 4 * d) by (nonlinear_arith)
            requires
                2 <= r,
                8 * d >= 8 * (r * r) - 8 * r - r,
        ;
    }
}

/// The pixel at `(dx, dy)` from `center` is as far from it as `(dx, dy)` is
/// long, wherever the signs point.
proof fn lemma_offset_distance(center: Point, dx: int, dy: int, x: int, y: int)
    requires
        i16::MIN <= center.x + dx <= i16::MAX,
        i16::MIN <= center.y + dy <= i16::MAX,
        dx == x || dx == -x,
        dy == y || dy == -y,
    ensures
        squared_distance(center, offset_point(center, dx, dy)) == x * x + y * y,
{
    let p = offset_point(center, dx, dy);
    assert(p.x - center.x == dx);
    assert(p.y - center.y == dy);
    assert(dx * dx == x * x) by (nonlinear_arith)
        requires
            dx == x || dx == -x,
    ;
    assert(dy * dy == y * y) by (nonlinear_arith)
        requires
            dy == y || dy == -y,
    ;
}

/// Each of the eight pixels that mirror the offset `(x, y)` is as far from
/// the centre as `(x, y)` is long.
proof fn lemma_octant_distance(center: Point, x: int, y: int, m: int)
    requires
        0 <= m < 8,
        i16::MIN <= center.x - x && center.x + x <= i16::MAX,
        i16::MIN <= center.x - y && center.x + y <= i16::MAX,
        i16::MIN <= center.y - x && center.y + x <= i16::MAX,
        i16::MIN <= center.y - y && center.y + y <= i16::MAX,
        0 <= x,
        0 <= y,
    ensures
        squared_distance(center, octant_points(center, x, y)[m]) == x * x + y * y,
{
    if m == 0 {
        lemma_offset_distance(center, x, y, x, y);
    } else if m == 1 {
        lemma_offset_distance(center, -x, y, x, y);
    } else if m == 2 {
        lemma_offset_distance(center, -x, -y, x, y);
    } else if m == 3 {
        lemma_offset_distance(center, x, -y, x, y);
    } else if m == 4 {
        lemma_offset_distance(center, -y, x, y, x);
    } else if m == 5 {
        lemma_offset_distance(center, -y, -x, y, x);
    } else if m == 6 {
        lemma_offset_distance(center, y, -x, y, x);
    } else {
        lemma_offset_distance(center, y, x, y, x);
    }
}

/// Every pixel of a circle lies less than a pixel and a half from the ideal
/// circle: its distance from the centre is below the radius plus three
/// halves, and not below the radius less three halves.
pub proof fn lemma_circle_keeps_its_radius(center: Point, radius: u16, j: int)
    requires
        circle_fits(center, radius),
        0 <= j < circle_path(center, radius).len(),
    ensures
        4 * squared_distance(center, circle_path(center, radius)[j]) < (2 * radius + 3) * (2
            * radius + 3),
        radius >= 2 ==> (2 * radius - 3) * (2 * radius - 3) <= 4 * squared_distance(
            center,
            circle_path(center, radius)[j],
        ),
{
    let r = radius as int;
    let i = j / 8;
    let x = arc_x(r, i);
    lemma_circle_rows(center, radius, j);
    lemma_arc_rows_painted(r, 0, i);
    if r >= 1 {
        lemma_arc_row(r, i);
    }
    lemma_octant_distance(center, x, i, j % 8);
    lemma_arc_distance(r, x, i);
}

/// The distance of every pixel of a circle from the centre, rounded to the
/// nearest integer, differs from the radius by one at most.
pub proof fn lemma_circle_rounded_distance(center: Point, radius: u16, j: int, s: int)
    requires
        circle_fits(center, radius),
        0 <= j < circle_path(center, radius).len(),
        is_rounded_root(s, squared_distance(center, circle_path(center, radius)[j])),
    ensures
        radius - 1 <= s <= radius + 1,
{
    let r = radius as int;
    let d = squared_distance(center, circle_path(center, radius)[j]);
    lemma_circle_keeps_its_radius(center, radius, j);
    assert(s <= r + 1) by (nonlinear_arith)
        requires
            0 <= s,
            0 <= r,
            s == 0 || (2 * s - 1) * (2 * s - 1) <= 4 * d,
            4 * d < (2 * r + 3) * (2 * r + 3),
    ;
    assert(s >= r - 1) by (nonlinear_arith)
        requires
            0 <= s,
            0 <= r,
            4 * d < (2 * s + 1) * (2 * s + 1),
            r >= 2 ==> (2 * r - 3) * (2 * r - 3) <= 4 * d,
    ;
}

} // verus!
