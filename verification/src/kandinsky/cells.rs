use vstd::prelude::*;
use core::cell::Cell;
use crate::kandinsky::color::Color;
use crate::kandinsky::geometry::Rect;
use crate::kandinsky::surface::{try_pull_rect, Canvas, Request, Surface};

verus! {

/// A memory cell of the standard library, whose content can be replaced
/// through a shared reference. Its content is not visible to contracts.
#[verifier::external_type_specification]
#[verifier::external_body]
#[verifier::reject_recursive_types(T)]
pub struct ExCell<T: ?Sized>(core::cell::Cell<T>);

/// `Cell::get`: a copy of what the cell holds. Nothing is claimed of it.
#[verifier::external_body]
fn cell_get(cell: &Cell<Color>) -> (color: Color) {
    cell.get()
}

/// `Cell::set`: replaces what the cell holds. Nothing is claimed of it.
#[verifier::external_body]
fn cell_set(cell: &Cell<Color>, color: Color) {
    cell.set(color)
}

/// Reads the pixels of `rect` into the cells of `pixels`, unless there are
/// more cells than `rect` has pixels. Returns whether the surface was asked:
/// if so, by one call of its `pull_rect` with `rect` and a buffer of one
/// pixel for each cell; if not, the surface is left as it was and no cell is
/// read or written.
///
/// The buffer handed to the surface holds what the cells held, and each cell
/// then takes what the surface left at its place in the buffer.
pub fn try_pull_rect_cell<S: Surface>(
    canvas: &mut Canvas<S>,
    rect: Rect,
    pixels: &[Cell<Color>],
) -> (done: bool)
    ensures
        done == (pixels@.len() <= rect.area()),
        done ==> final(canvas).states() == old(canvas).states().push(final(canvas).backing()),
        done ==> final(canvas).requests() == old(canvas).requests().push(Request::Read { rect }),
        done ==> exists|m: &mut S, b: &mut [Color]|
            mut_ref_current(m) == old(canvas).backing()
                && mut_ref_future(m) == final(canvas).backing()
                && (*b)@.len() == pixels@.len()
                && #[trigger] call_ensures(S::pull_rect, (m, rect, b), ()),
        !done ==> final(canvas).requests() == old(canvas).requests(),
        !done ==> final(canvas).states() == old(canvas).states(),
        !done ==> final(canvas).backing() == old(canvas).backing(),
{
    if pixels.len() > rect.surface_area() as usize {
        return false;
    }
    let mut buffer: Vec<Color> = Vec::new();
    let mut i: usize = 0;
    while i < pixels.len()
        invariant
            i <= pixels@.len(),
            buffer@.len() == i,
        decreases pixels@.len() - i,
    {
        buffer.push(cell_get(&pixels[i]));
        i += 1;
    }
    let done = try_pull_rect(canvas, rect, buffer.as_mut_slice());
    let mut j: usize = 0;
    while j < pixels.len() && j < buffer.len()
        invariant
            j <= pixels@.len(),
            j <= buffer@.len(),
        decreases pixels@.len() - j,
    {
        cell_set(&pixels[j], buffer[j]);
        j += 1;
    }
    done
}

/// Reads the pixels of `rect` into the cells of `pixels`, by one call of the
/// surface's `pull_rect` with a buffer of one pixel for each cell. There must
/// not be more cells than `rect` has pixels.
pub fn pull_rect_cell<S: Surface>(canvas: &mut Canvas<S>, rect: Rect, pixels: &[Cell<Color>])
    requires
        pixels@.len() <= rect.area(),
    ensures
        final(canvas).states() == old(canvas).states().push(final(canvas).backing()),
        final(canvas).requests() == old(canvas).requests().push(Request::Read { rect }),
        exists|m: &mut S, b: &mut [Color]|
            mut_ref_current(m) == old(canvas).backing()
                && mut_ref_future(m) == final(canvas).backing()
                && (*b)@.len() == pixels@.len()
                && #[trigger] call_ensures(S::pull_rect, (m, rect, b), ()),
{
    let done = try_pull_rect_cell(canvas, rect, pixels);
    assert(done);
}

} // verus!
