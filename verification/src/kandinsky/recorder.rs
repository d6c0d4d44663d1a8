use vstd::prelude::*;
use vstd::slice::slice_to_vec;
use crate::kandinsky::color::Color;
use crate::kandinsky::geometry::{Point, Rect};
use crate::kandinsky::surface::{numbered, pixel_write, pixel_writes, stage, Request, Surface};

verus! {

/// A call as a [`Recorder`] keeps it.
#[derive(PartialEq, Eq, Debug)]
pub enum Recorded {
    Fill { rect: Rect, color: Color },
    Write { rect: Rect, pixels: Vec<Color> },
    Read { rect: Rect },
    Sync,
}

impl View for Recorded {
    type V = Request;

    open spec fn view(&self) -> Request {
        match *self {
            Recorded::Fill { rect, color } => Request::Fill { rect, color },
            Recorded::Write { rect, pixels } => Request::Write { rect, pixels: pixels@ },
            Recorded::Read { rect } => Request::Read { rect },
            Recorded::Sync => Request::Sync,
        }
    }
}

/// A surface without a picture, for trying the drawing functions: it keeps
/// every call made of it, in order. It answers a read by leaving the buffer
/// as it was, and a wait with yes.
pub struct Recorder {
    pub log: Vec<Recorded>,
}

impl View for Recorder {
    type V = Seq<Request>;

    open spec fn view(&self) -> Seq<Request> {
        self.log@.map_values(|r: Recorded| r@)
    }
}

impl Recorder {
    /// A recorder of which nothing has been asked yet.
    pub fn new() -> (recorder: Recorder)
        ensures
            recorder@ == Seq::<Request>::empty(),
    {
        Recorder { log: Vec::new() }
    }
}

impl Surface for Recorder {
    fn push_rect_uniform(&mut self, rect: Rect, color: Color)
        ensures
            final(self)@ == old(self)@.push(Request::Fill { rect, color }),
    {
        self.log.push(Recorded::Fill { rect, color });
    }

    fn push_rect(&mut self, rect: Rect, pixels: &[Color])
        ensures
            final(self)@ == old(self)@.push(Request::Write { rect, pixels: pixels@ }),
    {
        let kept = slice_to_vec(pixels);
        self.log.push(Recorded::Write { rect, pixels: kept });
    }

    fn pull_rect(&mut self, rect: Rect, pixels: &mut [Color])
        ensures
            final(self)@ == old(self)@.push(Request::Read { rect }),
            final(pixels)@ == old(pixels)@,
    {
        self.log.push(Recorded::Read { rect });
    }

    fn wait_for_vblank(&mut self) -> (shown: bool)
        ensures
            shown,
            final(self)@ == old(self)@.push(Request::Sync),
    {
        self.log.push(Recorded::Sync);
        true
    }
}

/// A recorder that has answered the first `k` of a run of pixel writes holds
/// those, in order, after what it held before.
proof fn lemma_recorder_after(
    first: Recorder,
    states: Seq<Recorder>,
    base: int,
    points: Seq<Point>,
    color: Color,
    k: int,
)
    requires
        0 <= base,
        base + points.len() <= states.len(),
        0 <= k <= points.len(),
        forall|i: int|
            #[trigger] numbered(i, points.len() as int) ==> exists|m: &mut Recorder|
                mut_ref_current(m) == stage(first, states, base, i)
                    && mut_ref_future(m) == states[base + i]
                    && #[trigger] call_ensures(
                        Recorder::push_rect_uniform,
                        (m, (Rect { point: points[i], w: 1, h: 1 }), color),
                        (),
                    ),
    ensures
        stage(first, states, base, k)@ == first@ + pixel_writes(points.take(k), color),
    decreases k,
{
    if k == 0 {
        assert(pixel_writes(points.take(0), color) =~= Seq::<Request>::empty());
        assert(first@ + Seq::<Request>::empty() =~= first@);
    } else {
        lemma_recorder_after(first, states, base, points, color, k - 1);
        assert(numbered(k - 1, points.len() as int));
        assert(points.take(k) =~= points.take(k - 1).push(points[k - 1]));
        assert(pixel_writes(points.take(k), color) =~= pixel_writes(points.take(k - 1), color).push(
            pixel_write(points[k - 1], color),
        ));
        assert(stage(first, states, base, k) == states[base + k - 1]);
        assert(stage(first, states, base, k)@ =~= first@ + pixel_writes(points.take(k), color));
    }
}

/// What the contracts of `draw_line` and `draw_circle` mean for a recorder:
/// where each of `points` was painted by one call of `push_rect_uniform`, one
/// after the other, the recorder holds those pixel writes, in order, after
/// what it held before.
pub proof fn lemma_recorder_keeps_pixel_writes(
    first: Recorder,
    states: Seq<Recorder>,
    base: int,
    points: Seq<Point>,
    color: Color,
)
    requires
        0 <= base,
        base + points.len() <= states.len(),
        forall|i: int|
            #[trigger] numbered(i, points.len() as int) ==> exists|m: &mut Recorder|
                mut_ref_current(m) == stage(first, states, base, i)
                    && mut_ref_future(m) == states[base + i]
                    && #[trigger] call_ensures(
                        Recorder::push_rect_uniform,
                        (m, (Rect { point: points[i], w: 1, h: 1 }), color),
                        (),
                    ),
    ensures
        stage(first, states, base, points.len() as int)@ == first@ + pixel_writes(points, color),
{
    lemma_recorder_after(first, states, base, points, color, points.len() as int);
    assert(points.take(points.len() as int) =~= points);
}

} // verus!
