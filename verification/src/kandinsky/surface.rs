use vstd::prelude::*;
use crate::kandinsky::color::Color;
use crate::kandinsky::geometry::{Point, Rect};

verus! {

/// A display surface: what the drawing functions send their pixels to.
///
/// Nothing is asked of an implementation, and nothing is assumed of it. What
/// a surface shows after a call, and what it does with coordinates that lie
/// outside it or with a buffer that does not match the rectangle, is its own
/// business. The contracts of the drawing functions say which of these
/// methods they call, with which arguments and in which order, so whatever an
/// implementation promises of a call holds of the surface afterwards.
pub trait Surface {
    /// Paints every pixel of `rect` with `color`.
    fn push_rect_uniform(&mut self, rect: Rect, color: Color);

    /// Copies `pixels`, row by row, into `rect`.
    fn push_rect(&mut self, rect: Rect, pixels: &[Color]);

    /// Reads the pixels of `rect`, row by row, into `pixels`.
    fn pull_rect(&mut self, rect: Rect, pixels: &mut [Color]);

    /// Waits for the surface to finish showing a frame, and says whether
    /// that happened.
    fn wait_for_vblank(&mut self) -> bool;
}

/// One request made of a surface.
pub enum Request {
    /// Paint every pixel of `rect` with `color`.
    Fill { rect: Rect, color: Color },
    /// Copy `pixels`, row by row, into `rect`.
    Write { rect: Rect, pixels: Seq<Color> },
    /// Read the pixels of `rect` back.
    Read { rect: Rect },
    /// Wait until a frame has been shown.
    Sync,
}

/// The request that paints the single pixel at `point` with `color`.
pub open spec fn pixel_write(point: Point, color: Color) -> Request {
    Request::Fill { rect: Rect { point, w: 1, h: 1 }, color }
}

/// The surface as it was before request number `i` of a run of requests,
/// counted from zero: `first` before the run, and afterwards what the request
/// before left. `states` holds the surface as each request left it, and the
/// run begins after the first `base` of them.
pub open spec fn stage<S>(first: S, states: Seq<S>, base: int, i: int) -> S {
    if i <= 0 {
        first
    } else {
        states[base + i - 1]
    }
}

/// Whether `i` is the number of a request in a run of `n`, counted from zero.
pub open spec fn numbered(i: int, n: int) -> bool {
    0 <= i < n
}

/// The requests that paint each of `points`, in order, with `color`.
pub open spec fn pixel_writes(points: Seq<Point>, color: Color) -> Seq<Request> {
    Seq::new(points.len(), |i: int| pixel_write(points[i], color))
}

/// A surface together with the record of what was asked of it through this
/// canvas: every request, and the surface as each request left it.
///
/// The drawing functions take a canvas. Their contracts say which requests
/// they add to the record, and that each request is one call of the surface
/// that takes it from the state before to the state after.
pub struct Canvas<S: Surface> {
    surface: S,
    sent: Ghost<Seq<Request>>,
    seen: Ghost<Seq<S>>,
}

impl<S: Surface> Canvas<S> {
    /// Every request made so far, oldest first.
    pub closed spec fn requests(&self) -> Seq<Request> {
        self.sent@
    }

    /// The surface behind the canvas, as it is now.
    pub closed spec fn backing(&self) -> S {
        self.surface
    }

    /// The surface as each request made so far left it, oldest first.
    pub closed spec fn states(&self) -> Seq<S> {
        self.seen@
    }

    /// A canvas on `surface`, with nothing requested yet.
    pub fn new(surface: S) -> (canvas: Canvas<S>)
        ensures
            canvas.requests() == Seq::<Request>::empty(),
            canvas.states() == Seq::<S>::empty(),
            canvas.backing() == surface,
    {
        Canvas { surface, sent: Ghost(Seq::empty()), seen: Ghost(Seq::empty()) }
    }

    /// The surface behind the canvas.
    pub fn surface(&self) -> (surface: &S)
        ensures
            *surface == self.backing(),
    {
        &self.surface
    }

    /// Gives the surface back.
    pub fn into_surface(self) -> (surface: S)
        ensures
            surface == self.backing(),
    {
        self.surface
    }
}

/// Paints every pixel of `rect` with `color`: one call of the surface's
/// `push_rect_uniform`, with `rect` and `color`.
pub fn fill_rect<S: Surface>(canvas: &mut Canvas<S>, rect: Rect, color: Color)
    ensures
        final(canvas).states() == old(canvas).states().push(final(canvas).backing()),
        final(canvas).requests() == old(canvas).requests().push(Request::Fill { rect, color }),
        exists|m: &mut S|
            mut_ref_current(m) == old(canvas).backing()
                && mut_ref_future(m) == final(canvas).backing()
                && #[trigger] call_ensures(S::push_rect_uniform, (m, rect, color), ()),
{
    canvas.surface.push_rect_uniform(rect, color);
    proof {
        canvas.sent@ = canvas.sent@.push(Request::Fill { rect, color });
        canvas.seen@ = canvas.seen@.push(canvas.surface);
    }
}

/// Paints the pixel at `point` with `color`: one call of the surface's
/// `push_rect_uniform`, with the rectangle of that one pixel.
pub fn set_pixel<S: Surface>(canvas: &mut Canvas<S>, point: Point, color: Color)
    ensures
        final(canvas).states() == old(canvas).states().push(final(canvas).backing()),
        final(canvas).requests() == old(canvas).requests().push(pixel_write(point, color)),
        exists|m: &mut S|
            mut_ref_current(m) == old(canvas).backing()
                && mut_ref_future(m) == final(canvas).backing()
                && #[trigger] call_ensures(
                    S::push_rect_uniform,
                    (m, (Rect { point, w: 1, h: 1 }), color),
                    (),
                ),
{
    fill_rect(canvas, Rect { point, w: 1, h: 1 }, color);
}

/// Copies `pixels` into `rect`, unless there are more of them than `rect`
/// has room for. Returns whether the surface was asked: if so, by one call
/// of its `push_rect` with `rect` and `pixels`; if not, the surface is left
/// as it was.
pub fn try_draw_rect<S: Surface>(
    canvas: &mut Canvas<S>,
    rect: Rect,
    pixels: &[Color],
) -> (done: bool)
    ensures
        done == (pixels@.len() <= rect.area()),
        done ==> final(canvas).states() == old(canvas).states().push(final(canvas).backing()),
        done ==> final(canvas).requests() == old(canvas).requests().push(
            Request::Write { rect, pixels: pixels@ },
        ),
        done ==> exists|m: &mut S|
            mut_ref_current(m) == old(canvas).backing()
                && mut_ref_future(m) == final(canvas).backing()
                && #[trigger] call_ensures(S::push_rect, (m, rect, pixels), ()),
        !done ==> final(canvas).requests() == old(canvas).requests(),
        !done ==> final(canvas).states() == old(canvas).states(),
        !done ==> final(canvas).backing() == old(canvas).backing(),
{
    if pixels.len() > rect.surface_area() as usize {
        return false;
    }
    canvas.surface.push_rect(rect, pixels);
    proof {
        canvas.sent@ = canvas.sent@.push(Request::Write { rect, pixels: pixels@ });
        canvas.seen@ = canvas.seen@.push(canvas.surface);
    }
    true
}

/// Copies `pixels` into `rect`, by one call of the surface's `push_rect`.
/// There must not be more of them than `rect` has room for.
pub fn draw_rect<S: Surface>(canvas: &mut Canvas<S>, rect: Rect, pixels: &[Color])
    requires
        pixels@.len() <= rect.area(),
    ensures
        final(canvas).states() == old(canvas).states().push(final(canvas).backing()),
        final(canvas).requests() == old(canvas).requests().push(
            Request::Write { rect, pixels: pixels@ },
        ),
        exists|m: &mut S|
            mut_ref_current(m) == old(canvas).backing()
                && mut_ref_future(m) == final(canvas).backing()
                && #[trigger] call_ensures(S::push_rect, (m, rect, pixels), ()),
{
    let done = try_draw_rect(canvas, rect, pixels);
    assert(done);
}

/// Has the surface read the pixels of `rect` into `pixels`, by one call of
/// its `pull_rect`.
fn read_rect<S: Surface>(canvas: &mut Canvas<S>, rect: Rect, pixels: &mut [Color])
    ensures
        final(canvas).states() == old(canvas).states().push(final(canvas).backing()),
        final(canvas).requests() == old(canvas).requests().push(Request::Read { rect }),
        exists|m: &mut S, b: &mut [Color]|
            mut_ref_current(m) == old(canvas).backing()
                && mut_ref_future(m) == final(canvas).backing()
                && (*b)@ == old(pixels)@
                && (*final(b))@ == final(pixels)@
                && #[trigger] call_ensures(S::pull_rect, (m, rect, b), ()),
{
    canvas.surface.pull_rect(rect, pixels);
    proof {
        canvas.sent@ = canvas.sent@.push(Request::Read { rect });
        canvas.seen@ = canvas.seen@.push(canvas.surface);
    }
}

/// Reads the pixels of `rect` into `pixels`, unless `pixels` is longer than
/// `rect` has pixels. Returns whether the surface was asked: if so, by one
/// call of its `pull_rect` with `rect` and `pixels`, which then holds what
/// that call left in it; if not, the surface and `pixels` are left as they
/// were.
pub fn try_pull_rect<S: Surface>(
    canvas: &mut Canvas<S>,
    rect: Rect,
    pixels: &mut [Color],
) -> (done: bool)
    ensures
        done == (old(pixels)@.len() <= rect.area()),
        done ==> final(canvas).states() == old(canvas).states().push(final(canvas).backing()),
        done ==> final(canvas).requests() == old(canvas).requests().push(Request::Read { rect }),
        done ==> exists|m: &mut S, b: &mut [Color]|
            mut_ref_current(m) == old(canvas).backing()
                && mut_ref_future(m) == final(canvas).backing()
                && (*b)@ == old(pixels)@
                && (*final(b))@ == final(pixels)@
                && #[trigger] call_ensures(S::pull_rect, (m, rect, b), ()),
        !done ==> final(canvas).requests() == old(canvas).requests(),
        !done ==> final(canvas).states() == old(canvas).states(),
        !done ==> final(canvas).backing() == old(canvas).backing(),
        !done ==> final(pixels)@ == old(pixels)@,
{
    if pixels.len() > rect.surface_area() as usize {
        return false;
    }
    read_rect(canvas, rect, pixels);
    true
}

/// Reads the pixels of `rect` into `pixels`, by one call of the surface's
/// `pull_rect`; `pixels` then holds what that call left in it. It must not
/// be longer than `rect` has pixels.
pub fn pull_rect<S: Surface>(canvas: &mut Canvas<S>, rect: Rect, pixels: &mut [Color])
    requires
        old(pixels)@.len() <= rect.area(),
    ensures
        final(canvas).states() == old(canvas).states().push(final(canvas).backing()),
        final(canvas).requests() == old(canvas).requests().push(Request::Read { rect }),
        exists|m: &mut S, b: &mut [Color]|
            mut_ref_current(m) == old(canvas).backing()
                && mut_ref_future(m) == final(canvas).backing()
                && (*b)@ == old(pixels)@
                && (*final(b))@ == final(pixels)@
                && #[trigger] call_ensures(S::pull_rect, (m, rect, b), ()),
{
    let done = try_pull_rect(canvas, rect, pixels);
    assert(done);
}

/// Asks the surface for the colour of the pixel at `point`: one call of its
/// `pull_rect` with the rectangle of that one pixel and a buffer of one black
/// pixel. Returns what the call left in the buffer.
pub fn get_pixel<S: Surface>(canvas: &mut Canvas<S>, point: Point) -> (color: Color)
    ensures
        final(canvas).states() == old(canvas).states().push(final(canvas).backing()),
        final(canvas).requests() == old(canvas).requests().push(
            Request::Read { rect: Rect { point, w: 1, h: 1 } },
        ),
        exists|m: &mut S, b: &mut [Color]|
            mut_ref_current(m) == old(canvas).backing()
                && mut_ref_future(m) == final(canvas).backing()
                && (*b)@ == seq![Color(0)]
                && (*final(b))@.len() > 0
                && (*final(b))@[0] == color
                && #[trigger] call_ensures(
                    S::pull_rect,
                    (m, (Rect { point, w: 1, h: 1 }), b),
                    (),
                ),
{
    let mut buffer: [Color; 1] = [Color(0)];
    read_rect(canvas, Rect { point, w: 1, h: 1 }, &mut buffer);
    buffer[0]
}

/// Waits for the surface to finish showing a frame: one call of its
/// `wait_for_vblank`, whose answer is returned.
pub fn wait_for_vblank<S: Surface>(canvas: &mut Canvas<S>) -> (shown: bool)
    ensures
        final(canvas).states() == old(canvas).states().push(final(canvas).backing()),
        final(canvas).requests() == old(canvas).requests().push(Request::Sync),
        exists|m: &mut S|
            mut_ref_current(m) == old(canvas).backing()
                && mut_ref_future(m) == final(canvas).backing()
                && #[trigger] call_ensures(S::wait_for_vblank, (m,), shown),
{
    let shown = canvas.surface.wait_for_vblank();
    proof {
        canvas.sent@ = canvas.sent@.push(Request::Sync);
        canvas.seen@ = canvas.seen@.push(canvas.surface);
    }
    shown
}

} // verus!
