use vstd::prelude::*;
use crate::kandinsky::color::Color;
use crate::kandinsky::geometry::{magnitude, Point, Rect};
use crate::kandinsky::rounding::{
    is_tie, lead, lemma_share_bounds, lemma_share_exact, lemma_share_mirror, lemma_share_step,
    rounded_share,
};
use crate::kandinsky::surface::{
    numbered, pixel_write, pixel_writes, set_pixel, stage, Canvas, Request, Surface,
};

verus! {

/// `origin` moved by `k` towards `target`.
pub open spec fn stepped(origin: int, target: int, k: int) -> int {
    if target > origin {
        origin + k
    } else if target < origin {
        origin - k
    } else {
        origin
    }
}

/// The direction of `v`: 1, -1, or 0 for zero.
pub open spec fn direction(v: int) -> int {
    if v > 0 {
        1
    } else if v < 0 {
        -1
    } else {
        0
    }
}

/// The number of steps a line takes from `start` to `end`: the larger of its
/// extents along the two axes.
pub open spec fn line_steps(start: Point, end: Point) -> int {
    let w = magnitude(end.x - start.x);
    let h = magnitude(end.y - start.y);
    if w >= h {
        w
    } else {
        h
    }
}

/// The pixel a line from `start` to `end` reaches after `k` steps.
///
/// Each step moves by one along the axis with the larger extent. Along the
/// other axis the pixel is the one nearest to the ideal line, and where the
/// ideal line passes exactly between two pixels, the one farther from
/// `start`.
pub open spec fn line_point(start: Point, end: Point, k: int) -> Point {
    let w = magnitude(end.x - start.x);
    let h = magnitude(end.y - start.y);
    if w >= h {
        Point {
            x: stepped(start.x as int, end.x as int, k) as i16,
            y: stepped(start.y as int, end.y as int, rounded_share(k, h, w)) as i16,
        }
    } else {
        Point {
            x: stepped(start.x as int, end.x as int, rounded_share(k, w, h)) as i16,
            y: stepped(start.y as int, end.y as int, k) as i16,
        }
    }
}

/// The pixels of the line from `start` to `end`, in the order they are drawn.
pub open spec fn line_path(start: Point, end: Point) -> Seq<Point> {
    Seq::new((line_steps(start, end) + 1) as nat, |k: int| line_point(start, end, k))
}

/// The error term of the line algorithm after `k` steps.
spec fn line_error(start: Point, end: Point, k: int) -> int {
    let w = magnitude(end.x - start.x);
    let h = magnitude(end.y - start.y);
    if w >= h {
        w - h + lead(k, h, w)
    } else {
        w - h - lead(k, w, h)
    }
}

/// A line starts at `start`, with the error term at the sum of its signed
/// extents, and ends at `end`.
proof fn lemma_line_ends(start: Point, end: Point)
    ensures
        line_point(start, end, 0) == start,
        line_point(start, end, line_steps(start, end)) == end,
        line_error(start, end, 0) == magnitude(end.x - start.x) - magnitude(end.y - start.y),
{
    let w = magnitude(end.x - start.x);
    let h = magnitude(end.y - start.y);
    if w >= h {
        if w > 0 {
            lemma_share_exact(0, h, w);
            lemma_share_bounds(w, h, w);
        }
    } else {
        lemma_share_exact(0, w, h);
        lemma_share_bounds(h, w, h);
    }
}

/// What one round of the line algorithm does: which axes advance, given the
/// error term, and what the error term becomes.
proof fn lemma_line_step(start: Point, end: Point, k: int)
    requires
        0 <= k < line_steps(start, end),
    ensures
        ({
            let w = magnitude(end.x - start.x);
            let h = magnitude(end.y - start.y);
            let e = line_error(start, end, k);
            let here = line_point(start, end, k);
            let next = line_point(start, end, k + 1);
            let along_x = 2 * e >= -h;
            let along_y = 2 * e <= w;
            &&& !(here.x == end.x && here.y == end.y)
            &&& -3 * 0xFFFF <= 2 * e <= 3 * 0xFFFF
            &&& along_x ==> here.x != end.x
            &&& along_y ==> here.y != end.y
            &&& next.x == here.x + (if along_x {
                direction(end.x - start.x)
            } else {
                0
            })
            &&& next.y == here.y + (if along_y {
                direction(end.y - start.y)
            } else {
                0
            })
            &&& line_error(start, end, k + 1) == e - (if along_x {
                h
            } else {
                0
            }) + (if along_y {
                w
            } else {
                0
            })
        }),
{
    let w = magnitude(end.x - start.x);
    let h = magnitude(end.y - start.y);
    if w >= h {
        lemma_share_step(k, h, w);
    } else {
        lemma_share_step(k, w, h);
    }
}

/// Draws the line from `start` to `end`, both included, one pixel at a time
/// and in order from `start`.
///
/// The pixels are found by adding up an error term, without division; they
/// are the pixels of [`line_path`], which names each of them directly. Each
/// pixel is painted by one call of the surface's `push_rect_uniform` with the
/// rectangle of that pixel, and the surface is called for nothing else.
pub fn draw_line<S: Surface>(canvas: &mut Canvas<S>, start: Point, end: Point, color: Color)
    ensures
        final(canvas).requests() == old(canvas).requests() + pixel_writes(
            line_path(start, end),
            color,
        ),
        final(canvas).states().len() == old(canvas).states().len() + line_path(start, end).len(),
        final(canvas).states().take(old(canvas).states().len() as int) == old(canvas).states(),
        final(canvas).backing() == stage(
            old(canvas).backing(),
            final(canvas).states(),
            old(canvas).states().len() as int,
            line_path(start, end).len() as int,
        ),
        forall|i: int|
            #[trigger] numbered(i, line_path(start, end).len() as int) ==> exists|m: &mut S|
                mut_ref_current(m) == stage(
                    old(canvas).backing(),
                    final(canvas).states(),
                    old(canvas).states().len() as int,
                    i,
                )
                    && mut_ref_future(m) == final(canvas).states()[old(canvas).states().len() + i]
                    && #[trigger] call_ensures(
                        S::push_rect_uniform,
                        (m, (Rect { point: line_path(start, end)[i], w: 1, h: 1 }), color),
                        (),
                    ),
{
    let run: i32 = end.x as i32 - start.x as i32;
    let rise: i32 = end.y as i32 - start.y as i32;
    let sx: i16 = if run > 0 {
        1
    } else if run < 0 {
        -1
    } else {
        0
    };
    let sy: i16 = if rise > 0 {
        1
    } else if rise < 0 {
        -1
    } else {
        0
    };
    let dx: i32 = if run < 0 {
        -run
    } else {
        run
    };
    let dy: i32 = if rise < 0 {
        rise
    } else {
        -rise
    };
    let mut e: i32 = dx + dy;
    let mut at = start;

    let ghost before = canvas.requests();
    let ghost first = canvas.backing();
    let ghost earlier = canvas.states();
    let ghost base = canvas.states().len() as int;
    let ghost path = line_path(start, end);
    let ghost n = line_steps(start, end);
    let ghost mut k: int = 0;
    proof {
        lemma_line_ends(start, end);
        assert(pixel_writes(path.take(0), color) =~= Seq::<Request>::empty());
        assert(before + Seq::<Request>::empty() =~= before);
        assert(earlier.take(base) =~= earlier);
    }
    loop
        invariant_except_break
            0 <= k <= n,
            n == line_steps(start, end),
            path == line_path(start, end),
            at == line_point(start, end, k),
            e == line_error(start, end, k),
            dx == magnitude(end.x - start.x),
            dy == -magnitude(end.y - start.y),
            sx == direction(end.x - start.x),
            sy == direction(end.y - start.y),
            canvas.requests() == before + pixel_writes(path.take(k), color),
            base == earlier.len(),
            canvas.states().len() == base + k,
            canvas.states().take(base) == earlier,
            canvas.backing() == stage(first, canvas.states(), base, k),
            forall|i: int|
                #[trigger] numbered(i, k) ==> exists|m: &mut S|
                    mut_ref_current(m) == stage(first, canvas.states(), base, i)
                        && mut_ref_future(m) == canvas.states()[base + i]
                        && #[trigger] call_ensures(
                            S::push_rect_uniform,
                            (m, (Rect { point: path[i], w: 1, h: 1 }), color),
                            (),
                        ),
        ensures
            canvas.requests() == before + pixel_writes(path, color),
            canvas.states().len() == base + path.len(),
            canvas.states().take(base) == earlier,
            canvas.backing() == stage(first, canvas.states(), base, path.len() as int),
            forall|i: int|
                #[trigger] numbered(i, path.len() as int) ==> exists|m: &mut S|
                    mut_ref_current(m) == stage(first, canvas.states(), base, i)
                        && mut_ref_future(m) == canvas.states()[base + i]
                        && #[trigger] call_ensures(
                            S::push_rect_uniform,
                            (m, (Rect { point: path[i], w: 1, h: 1 }), color),
                            (),
                        ),
        decreases n - k,
    {
        let ghost states0 = canvas.states();
        set_pixel(canvas, at, color);
        proof {
            assert(path.take(k + 1) =~= path.take(k).push(at));
            assert(pixel_writes(path.take(k + 1), color) =~= pixel_writes(path.take(k), color).push(
                pixel_write(at, color),
            ));
            assert(canvas.requests() =~= before + pixel_writes(path.take(k + 1), color));
            let states1 = canvas.states();
            assert(states1.take(base) =~= earlier) by {
                assert(states0.take(base) == earlier);
                assert forall|j: int| 0 <= j < base implies states1.take(base)[j] == earlier[j] by {
                    assert(states0.take(base)[j] == states0[j]);
                }
            }
            assert forall|i: int| #[trigger] numbered(i, k + 1) implies exists|m: &mut S|
                mut_ref_current(m) == stage(first, states1, base, i)
                    && mut_ref_future(m) == states1[base + i]
                    && #[trigger] call_ensures(
                        S::push_rect_uniform,
                        (m, (Rect { point: path[i], w: 1, h: 1 }), color),
                        (),
                    ) by {
                if i < k {
                    assert(numbered(i, k));
                    assert(stage(first, states0, base, i) == stage(first, states1, base, i));
                    assert(states0[base + i] == states1[base + i]);
                } else {
                    assert(stage(first, states1, base, i) == stage(first, states0, base, k));
                    assert(path[i] == at);
                }
            }
        }

        if at.x == end.x && at.y == end.y {
            proof {
                if k < n {
                    lemma_line_step(start, end, k);
                }
                assert(path.take(k + 1) =~= path);
            }
            break;
        }
        proof {
            lemma_line_ends(start, end);
            lemma_line_step(start, end, k);
        }

        let e2: i32 = 2 * e;

        if e2 >= dy {
            // Never taken: the error term asks no axis to move that has
            // arrived already.
            if at.x == end.x {
                break;
            }
            e += dy;
            at.x += sx;
        }
        if e2 <= dx {
            // Never taken, for the same reason.
            if at.y == end.y {
                break;
            }
            e += dx;
            at.y += sy;
        }
        proof {
            k = k + 1;
        }
    }
}

/// The shorter of a line's extents along the two axes.
pub open spec fn line_minor(start: Point, end: Point) -> int {
    let w = magnitude(end.x - start.x);
    let h = magnitude(end.y - start.y);
    if w >= h {
        h
    } else {
        w
    }
}

/// Whether the ideal line from `start` to `end` passes, at some step, exactly
/// halfway between two pixels.
pub open spec fn line_has_tie(start: Point, end: Point) -> bool {
    exists|k: int|
        0 <= k <= line_steps(start, end) && #[trigger] is_tie(
            k,
            line_minor(start, end),
            line_steps(start, end),
        )
}

/// A line has one pixel more than it has steps. It begins at `start` and
/// finishes at `end`.
pub proof fn lemma_line_endpoints(start: Point, end: Point)
    ensures
        line_path(start, end).len() == line_steps(start, end) + 1,
        line_path(start, end).first() == start,
        line_path(start, end).last() == end,
{
    lemma_line_ends(start, end);
}

/// A line from a point to itself is that one pixel.
pub proof fn lemma_line_to_itself(p: Point)
    ensures
        line_path(p, p) == seq![p],
        line_path(p, p).to_set() == set![p],
{
    lemma_line_ends(p, p);
    assert(line_path(p, p) =~= seq![p]);
    assert(seq![p][0] == p);
    assert(seq![p].to_set() =~= set![p]);
}

/// The pixel after `k` steps in plain terms: `k` along the longer axis, the
/// rounded share of `k` along the shorter, each between `start` and `end`.
pub proof fn lemma_line_point_coordinates(start: Point, end: Point, k: int)
    requires
        0 <= k <= line_steps(start, end),
    ensures
        ({
            let w = magnitude(end.x - start.x);
            let h = magnitude(end.y - start.y);
            let here = line_point(start, end, k);
            if w >= h {
                &&& here.x == stepped(start.x as int, end.x as int, k)
                &&& here.y == stepped(start.y as int, end.y as int, rounded_share(k, h, w))
                &&& 0 <= rounded_share(k, h, w) <= h
            } else {
                &&& here.x == stepped(start.x as int, end.x as int, rounded_share(k, w, h))
                &&& here.y == stepped(start.y as int, end.y as int, k)
                &&& 0 <= rounded_share(k, w, h) <= w
            }
        }),
{
    let w = magnitude(end.x - start.x);
    let h = magnitude(end.y - start.y);
    if w >= h {
        if w > 0 {
            lemma_share_bounds(k, h, w);
        }
    } else {
        lemma_share_bounds(k, w, h);
    }
}

/// A horizontal, vertical or diagonal line is exactly straight: a coordinate
/// that `start` and `end` share stays fixed, and where the extents are equal
/// both coordinates move together.
pub proof fn lemma_line_straight(start: Point, end: Point, k: int)
    requires
        0 <= k <= line_steps(start, end),
    ensures
        end.y == start.y ==> line_point(start, end, k).y == start.y,
        end.x == start.x ==> line_point(start, end, k).x == start.x,
        magnitude(end.x - start.x) == magnitude(end.y - start.y) ==> {
            &&& line_point(start, end, k).x == stepped(start.x as int, end.x as int, k)
            &&& line_point(start, end, k).y == stepped(start.y as int, end.y as int, k)
        },
        line_point(start, end, k).x == stepped(start.x as int, end.x as int, k) || line_point(
            start,
            end,
            k,
        ).y == stepped(start.y as int, end.y as int, k),
{
    let w = magnitude(end.x - start.x);
    let h = magnitude(end.y - start.y);
    lemma_line_point_coordinates(start, end, k);
    if w >= h {
        if w > 0 {
            lemma_share_exact(k, h, w);
        }
    } else {
        lemma_share_exact(k, w, h);
    }
}

/// Every step moves towards `end` and never back: by one along the longer
/// axis, and by one or not at all along the shorter.
pub proof fn lemma_line_advances(start: Point, end: Point, k: int)
    requires
        0 <= k < line_steps(start, end),
    ensures
        ({
            let here = line_point(start, end, k);
            let next = line_point(start, end, k + 1);
            let towards_x = direction(end.x - start.x);
            let towards_y = direction(end.y - start.y);
            &&& next.x == here.x || next.x == here.x + towards_x
            &&& next.y == here.y || next.y == here.y + towards_y
            &&& if magnitude(end.x - start.x) >= magnitude(end.y - start.y) {
                next.x == here.x + towards_x
            } else {
                next.y == here.y + towards_y
            }
        }),
{
    lemma_line_step(start, end, k);
}

/// No pixel of a line is drawn twice.
pub proof fn lemma_line_never_repeats(start: Point, end: Point, i: int, j: int)
    requires
        0 <= i < j <= line_steps(start, end),
    ensures
        line_path(start, end)[i] != line_path(start, end)[j],
{
    lemma_line_point_coordinates(start, end, i);
    lemma_line_point_coordinates(start, end, j);
}

/// After `j` steps the line from `end` back to `start` is where the line from
/// `start` to `end` is with `j` steps to go, unless the ideal line passes
/// exactly between two pixels there.
proof fn lemma_line_point_reversed(start: Point, end: Point, j: int)
    requires
        0 <= j <= line_steps(start, end),
    ensures
        line_steps(end, start) == line_steps(start, end),
        line_minor(end, start) == line_minor(start, end),
        !is_tie(j, line_minor(start, end), line_steps(start, end)) ==> line_point(end, start, j)
            == line_point(start, end, line_steps(start, end) - j),
        is_tie(j, line_minor(start, end), line_steps(start, end)) ==> line_point(end, start, j)
            != line_point(start, end, line_steps(start, end) - j),
{
    let n = line_steps(start, end);
    let m = line_minor(start, end);
    lemma_line_point_coordinates(end, start, j);
    lemma_line_point_coordinates(start, end, n - j);
    if n > 0 {
        lemma_share_mirror(j, m, n);
    }
}

/// Drawn from `end` to `start`, a line visits the same pixels in the opposite
/// order, provided the ideal line never passes exactly halfway between two
/// pixels.
pub proof fn lemma_line_reversed(start: Point, end: Point)
    requires
        !line_has_tie(start, end),
    ensures
        line_path(end, start) == line_path(start, end).reverse(),
        line_path(end, start).to_set() == line_path(start, end).to_set(),
{
    let n = line_steps(start, end);
    let forth = line_path(start, end);
    let back = line_path(end, start);
    lemma_line_point_reversed(start, end, 0);
    assert forall|j: int| 0 <= j < back.len() implies back[j] == forth.reverse()[j] by {
        lemma_line_point_reversed(start, end, j);
        assert(!is_tie(j, line_minor(start, end), n));
    }
    assert(back =~= forth.reverse());
    assert forall|p: Point| back.to_set().contains(p) <==> forth.to_set().contains(p) by {
        if back.contains(p) {
            let j = choose|j: int| 0 <= j < back.len() && back[j] == p;
            assert(forth[n - j] == p);
        }
        if forth.contains(p) {
            let j = choose|j: int| 0 <= j < forth.len() && forth[j] == p;
            assert(back[n - j] == p);
        }
    }
    assert(back.to_set() =~= forth.to_set());
}

/// Where the ideal line does pass exactly halfway between two pixels, the
/// line drawn from `end` to `start` takes the other of the two, so the two
/// directions give different sets of pixels.
pub proof fn lemma_line_tie_shows(start: Point, end: Point)
    requires
        line_has_tie(start, end),
    ensures
        line_path(end, start).to_set() != line_path(start, end).to_set(),
{
    let n = line_steps(start, end);
    let m = line_minor(start, end);
    let forth = line_path(start, end);
    let back = line_path(end, start);
    let k = choose|k: int| 0 <= k <= n && #[trigger] is_tie(k, m, n);
    lemma_line_point_reversed(start, end, k);
    let p = back[k];
    assert(back.contains(p));
    assert(!forth.contains(p)) by {
        assert forall|j: int| 0 <= j < forth.len() implies forth[j] != p by {
            lemma_line_point_coordinates(start, end, j);
            lemma_line_point_coordinates(start, end, n - k);
            lemma_line_point_coordinates(end, start, k);
        }
    }
    assert(back.to_set().contains(p));
    assert(!forth.to_set().contains(p));
}

} // verus!
