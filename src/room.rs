use vstd::prelude::*;

verus! {

/// An axis-aligned rectangle used while carving the dungeon, with
/// `x2 == x1 + width` and `y2 == y1 + height`. Only the cells strictly
/// inside it become floor.
#[derive(Clone, Copy, Debug, PartialEq, Eq, Structural)]
pub struct Room {
    pub x1: i32,
    pub y1: i32,
    pub x2: i32,
    pub y2: i32,
}

/// Half of `n`, rounded toward zero.
pub open spec fn half(n: int) -> int {
    if n >= 0 {
        n / 2
    } else {
        -((-n) / 2)
    }
}

impl Room {
    /// The inclusive-edge overlap test: rooms that merely touch overlap too.
    pub open spec fn overlaps(self, r: Room) -> bool {
        self.x1 <= r.x2 && self.x2 >= r.x1 && self.y1 <= r.y2 && self.y2 >= r.y1
    }

    /// The cell lies strictly inside the rectangle.
    pub open spec fn interior(self, x: int, y: int) -> bool {
        self.x1 < x < self.x2 && self.y1 < y < self.y2
    }

    pub open spec fn center_x(self) -> int {
        half(self.x1 + self.x2)
    }

    pub open spec fn center_y(self) -> int {
        half(self.y1 + self.y2)
    }

    pub fn new(x: i32, y: i32, width: i32, height: i32) -> (r: Room)
        requires
            i32::MIN <= x + width <= i32::MAX,
            i32::MIN <= y + height <= i32::MAX,
        ensures
            r == (Room { x1: x, y1: y, x2: (x + width) as i32, y2: (y + height) as i32 }),
    {
        Room { x1: x, y1: y, x2: x + width, y2: y + height }
    }

    /// The center cell, rounding toward zero.
    pub fn center(&self) -> (r: (i32, i32))
        ensures
            r.0 == self.center_x(),
            r.1 == self.center_y(),
    {
        let sx = self.x1 as i64 + self.x2 as i64;
        let sy = self.y1 as i64 + self.y2 as i64;
        let center_x = (if sx >= 0 { sx / 2 } else { -((-sx) / 2) }) as i32;
        let center_y = (if sy >= 0 { sy / 2 } else { -((-sy) / 2) }) as i32;
        (center_x, center_y)
    }

    pub fn room_overlaps(&self, r: &Room) -> (b: bool)
        ensures
            b == self.overlaps(*r),
    {
        (self.x1 <= r.x2) && (self.x2 >= r.x1) && (self.y1 <= r.y2) && (self.y2 >= r.y1)
    }
}

} // verus!
