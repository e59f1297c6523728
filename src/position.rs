use vstd::prelude::*;

verus! {

/// A tile coordinate on the map grid.
#[derive(Clone, Copy, Debug, Default, PartialEq, Eq, Structural)]
pub struct Position {
    pub x: i16,
    pub y: i16,
}

/// Whether an integer fits in an `i16` coordinate.
pub open spec fn fits_i16(v: int) -> bool {
    i16::MIN <= v <= i16::MAX
}

/// The sum of two positions, when both coordinates of it are representable.
pub open spec fn spec_sum(a: Position, b: Position) -> Option<Position> {
    if fits_i16(a.x + b.x) && fits_i16(a.y + b.y) {
        Some(Position { x: (a.x + b.x) as i16, y: (a.y + b.y) as i16 })
    } else {
        None
    }
}

impl Position {
    pub fn new(x: i16, y: i16) -> (r: Position)
        ensures
            r == (Position { x, y }),
    {
        Position { x, y }
    }

    /// One step towards smaller x.
    pub fn left() -> (r: Position)
        ensures
            r == (Position { x: -1i16, y: 0 }),
    {
        Position { x: -1, y: 0 }
    }

    /// One step towards larger x.
    pub fn right() -> (r: Position)
        ensures
            r == (Position { x: 1, y: 0 }),
    {
        Position { x: 1, y: 0 }
    }

    /// One step towards smaller y.
    pub fn up() -> (r: Position)
        ensures
            r == (Position { x: 0, y: -1i16 }),
    {
        Position { x: 0, y: -1 }
    }

    /// One step towards larger y.
    pub fn down() -> (r: Position)
        ensures
            r == (Position { x: 0, y: 1 }),
    {
        Position { x: 0, y: 1 }
    }

    /// Vector addition; `None` when a coordinate of the sum leaves the `i16`
    /// range (such a point lies outside every map).
    pub fn add(self, rhs: Position) -> (r: Option<Position>)
        ensures
            r == spec_sum(self, rhs),
    {
        let x: i32 = self.x as i32 + rhs.x as i32;
        let y: i32 = self.y as i32 + rhs.y as i32;
        if x < i16::MIN as i32 || x > i16::MAX as i32 || y < i16::MIN as i32 || y > i16::MAX as i32 {
            None
        } else {
            Some(Position { x: x as i16, y: y as i16 })
        }
    }
}

} // verus!
