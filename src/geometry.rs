//! Integer positions and the small offsets that the coordinate hash yields.
use vstd::prelude::*;

verus! {

/// A point of the integer grid.
#[derive(Clone, Copy, Debug, PartialEq, Eq, Structural)]
pub struct Position {
    pub x: i32,
    pub y: i32,
    pub z: i32,
}

/// A small displacement; each component normally lies in `-8..8`.
#[derive(Clone, Copy, Debug, PartialEq, Eq, Structural)]
pub struct Offset {
    pub x: i8,
    pub y: i8,
    pub z: i8,
}

/// Component-wise sum of two positions, wrapping at the bounds of `i32`.
pub open spec fn pos_add(a: Position, b: Position) -> Position {
    Position { x: a.x.wrapping_add(b.x), y: a.y.wrapping_add(b.y), z: a.z.wrapping_add(b.z) }
}

/// Component-wise difference of two positions, wrapping at the bounds of `i32`.
pub open spec fn pos_sub(a: Position, b: Position) -> Position {
    Position { x: a.x.wrapping_sub(b.x), y: a.y.wrapping_sub(b.y), z: a.z.wrapping_sub(b.z) }
}

/// Absolute difference of two integers.
pub open spec fn abs_diff(a: int, b: int) -> nat {
    if a >= b {
        (a - b) as nat
    } else {
        (b - a) as nat
    }
}

/// Sum over the three components of the absolute differences.
pub open spec fn offset_distance(a: Offset, b: Offset) -> nat {
    abs_diff(a.x as int, b.x as int) + abs_diff(a.y as int, b.y as int) + abs_diff(
        a.z as int,
        b.z as int,
    )
}

/// Sum of the absolute values of the three components.
pub open spec fn offset_magnitude(a: Offset) -> nat {
    abs_diff(a.x as int, 0) + abs_diff(a.y as int, 0) + abs_diff(a.z as int, 0)
}

/// Whether each component difference of `a` and `b` fits in an `i8`.
pub open spec fn offset_sub_fits(a: Offset, b: Offset) -> bool {
    &&& i8::MIN <= a.x - b.x <= i8::MAX
    &&& i8::MIN <= a.y - b.y <= i8::MAX
    &&& i8::MIN <= a.z - b.z <= i8::MAX
}

impl Position {
    /// Component-wise sum; coordinates wrap as two's-complement `i32`.
    pub fn add(self, other: Position) -> (r: Position)
        ensures
            r == pos_add(self, other),
    {
        Position {
            x: self.x.wrapping_add(other.x),
            y: self.y.wrapping_add(other.y),
            z: self.z.wrapping_add(other.z),
        }
    }

    /// Component-wise difference; coordinates wrap as two's-complement `i32`.
    pub fn sub(self, other: Position) -> (r: Position)
        ensures
            r == pos_sub(self, other),
    {
        Position {
            x: self.x.wrapping_sub(other.x),
            y: self.y.wrapping_sub(other.y),
            z: self.z.wrapping_sub(other.z),
        }
    }
}

impl Offset {
    /// Component-wise difference.
    pub fn sub(self, other: Offset) -> (r: Offset)
        requires
            offset_sub_fits(self, other),
        ensures
            r.x == self.x - other.x,
            r.y == self.y - other.y,
            r.z == self.z - other.z,
    {
        Offset { x: self.x - other.x, y: self.y - other.y, z: self.z - other.z }
    }

    /// Sum of the absolute values of the components.
    pub fn abs(&self) -> (r: u16)
        ensures
            r == offset_magnitude(*self),
    {
        let ax: i16 = if self.x < 0 { -(self.x as i16) } else { self.x as i16 };
        let ay: i16 = if self.y < 0 { -(self.y as i16) } else { self.y as i16 };
        let az: i16 = if self.z < 0 { -(self.z as i16) } else { self.z as i16 };
        (ax + ay + az) as u16
    }

    /// Sum over the components of the absolute differences to `other`;
    /// computed without any loss of range.
    pub fn distance(&self, other: &Offset) -> (r: u32)
        ensures
            r == offset_distance(*self, *other),
            r <= 3 * 255,
    {
        let dx: i16 = self.x as i16 - other.x as i16;
        let dy: i16 = self.y as i16 - other.y as i16;
        let dz: i16 = self.z as i16 - other.z as i16;
        let ax: u32 = if dx < 0 { (-dx) as u32 } else { dx as u32 };
        let ay: u32 = if dy < 0 { (-dy) as u32 } else { dy as u32 };
        let az: u32 = if dz < 0 { (-dz) as u32 } else { dz as u32 };
        ax + ay + az
    }
}

} // verus!
