use vstd::prelude::*;

verus! {

/// A terminal cell position.
#[derive(Clone, Copy, PartialEq, Eq, Structural, Debug)]
pub struct Position {
    pub x: u16,
    pub y: u16,
}

/// A rectangle of terminal cells.
#[derive(Clone, Copy, PartialEq, Eq, Structural, Debug)]
pub struct Rect {
    pub x: u16,
    pub y: u16,
    pub width: u16,
    pub height: u16,
}

/// `a + b`, stopping at the largest `u16`.
pub open spec fn sat_add_u16(a: u16, b: u16) -> u16 {
    if a + b > u16::MAX {
        u16::MAX
    } else {
        (a + b) as u16
    }
}

/// `a - b`, stopping at zero.
pub open spec fn sat_sub_u16(a: u16, b: u16) -> u16 {
    if a < b {
        0
    } else {
        (a - b) as u16
    }
}

/// Whether `p` lies inside `r` (its right and bottom edges stop at the
/// largest coordinate).
pub open spec fn spec_contains(r: Rect, p: Position) -> bool {
    &&& p.x >= r.x
    &&& p.x < sat_add_u16(r.x, r.width)
    &&& p.y >= r.y
    &&& p.y < sat_add_u16(r.y, r.height)
}

impl Rect {
    pub fn right(self) -> (r: u16)
        ensures
            r == sat_add_u16(self.x, self.width),
    {
        self.x.saturating_add(self.width)
    }

    pub fn bottom(self) -> (r: u16)
        ensures
            r == sat_add_u16(self.y, self.height),
    {
        self.y.saturating_add(self.height)
    }

    pub fn contains(self, p: Position) -> (r: bool)
        ensures
            r == spec_contains(self, p),
    {
        p.x >= self.x && p.x < self.right() && p.y >= self.y && p.y < self.bottom()
    }
}

} // verus!
