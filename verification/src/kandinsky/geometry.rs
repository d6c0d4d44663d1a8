use vstd::prelude::*;
use vstd::std_specs::ops::AddSpecImpl;

verus! {

/// A position on the display grid. Coordinates may lie off the surface.
#[derive(Clone, Copy, PartialEq, Eq, PartialOrd, Ord, Debug, Hash, Default, Structural)]
pub struct Point {
    pub x: i16,
    pub y: i16,
}

impl Point {
    /// Whether moving this point by `offset` stays within the coordinate range.
    pub open spec fn can_shift(self, offset: [i16; 2]) -> bool {
        &&& i16::MIN <= self.x + offset[0] <= i16::MAX
        &&& i16::MIN <= self.y + offset[1] <= i16::MAX
    }

    /// This point moved by `offset`, component by component.
    pub open spec fn shifted(self, offset: [i16; 2]) -> Point {
        Point { x: (self.x + offset[0]) as i16, y: (self.y + offset[1]) as i16 }
    }
}

impl core::ops::Add<[i16; 2]> for Point {
    type Output = Point;

    /// Moves the point by `offset[0]` along x and `offset[1]` along y.
    fn add(self, offset: [i16; 2]) -> (moved: Point) {
        Point { x: self.x + offset[0], y: self.y + offset[1] }
    }
}

impl AddSpecImpl<[i16; 2]> for Point {
    open spec fn obeys_add_spec() -> bool {
        true
    }

    open spec fn add_req(self, offset: [i16; 2]) -> bool {
        self.can_shift(offset)
    }

    open spec fn add_spec(self, offset: [i16; 2]) -> Point {
        self.shifted(offset)
    }
}

impl core::ops::AddAssign<[i16; 2]> for Point {
    /// Moves the point by `offset[0]` along x and `offset[1]` along y.
    fn add_assign(&mut self, offset: [i16; 2])
        requires
            old(self).can_shift(offset),
        ensures
            *final(self) == old(self).shifted(offset),
    {
        self.x = self.x + offset[0];
        self.y = self.y + offset[1];
    }
}

/// An axis-aligned rectangle: the corner with the smallest coordinates, and
/// the extent along each axis.
#[derive(Clone, Copy, PartialEq, Eq, Debug, Hash, Default, Structural)]
pub struct Rect {
    pub point: Point,
    pub w: u16,
    pub h: u16,
}

/// The smaller of `v` and zero.
pub open spec fn negative_part(v: int) -> int {
    if v < 0 {
        v
    } else {
        0
    }
}

/// The distance of `v` from zero.
pub open spec fn magnitude(v: int) -> int {
    if v < 0 {
        -v
    } else {
        v
    }
}

impl Rect {
    /// The number of pixels the rectangle covers.
    pub open spec fn area(self) -> int {
        self.w * self.h
    }

    /// The number of pixels the rectangle covers.
    pub fn surface_area(&self) -> (n: u32)
        ensures
            n == self.area(),
    {
        assert(self.w * self.h <= 0xFFFF * 0xFFFF) by (nonlinear_arith);
        self.w as u32 * self.h as u32
    }

    /// The rectangle that extends from `point` by `size[0]` along x and by
    /// `size[1]` along y, where a negative extent reaches towards smaller
    /// coordinates.
    pub fn signed(point: Point, size: [i16; 2]) -> (rect: Rect)
        requires
            point.x + negative_part(size[0] as int) >= i16::MIN,
            point.y + negative_part(size[1] as int) >= i16::MIN,
        ensures
            rect.point.x == point.x + negative_part(size[0] as int),
            rect.point.y == point.y + negative_part(size[1] as int),
            rect.w == magnitude(size[0] as int),
            rect.h == magnitude(size[1] as int),
    {
        let dx: i16 = if size[0] < 0 { size[0] } else { 0 };
        let dy: i16 = if size[1] < 0 { size[1] } else { 0 };
        let origin = point + [dx, dy];
        Rect { point: origin, w: distance_from_zero(size[0]), h: distance_from_zero(size[1]) }
    }
}

/// The distance of `v` from zero, which always fits the unsigned type.
fn distance_from_zero(v: i16) -> (d: u16)
    ensures
        d == magnitude(v as int),
{
    if v < 0 {
        (-(v as i32)) as u16
    } else {
        v as u16
    }
}

} // verus!
