use super::Rect;
use vstd::prelude::*;

verus! {

/// A cell of the grid.
#[derive(Debug, Clone, Copy, PartialEq, Eq, Structural, Hash, PartialOrd)]
pub struct Position {
    pub y: i32,
    pub x: i32,
}

pub open spec fn fits_i32(v: int) -> bool {
    i32::MIN <= v <= i32::MAX
}

/// The smaller of two integers.
pub open spec fn min_int(a: int, b: int) -> int {
    if a <= b {
        a
    } else {
        b
    }
}

/// The larger of two integers.
pub open spec fn max_int(a: int, b: int) -> int {
    if a >= b {
        a
    } else {
        b
    }
}

/// `p` clamped into the cells of `rect`.
pub open spec fn spec_clamp(p: Position, rect: Rect) -> Position {
    Position {
        x: min_int(max_int(p.x as int, rect.position.x as int), rect.position.x + rect.width - 1) as i32,
        y: min_int(max_int(p.y as int, rect.position.y as int), rect.position.y + rect.height - 1) as i32,
    }
}

/// A rectangle of at least one cell whose last cell is a valid position.
pub open spec fn clampable(rect: Rect) -> bool {
    &&& rect.width >= 1
    &&& rect.height >= 1
    &&& fits_i32(rect.position.x + rect.width)
    &&& fits_i32(rect.position.y + rect.height)
}

/// Clamping into a rectangle of at least one cell gives a cell of the
/// rectangle.
pub proof fn law_clamp_lands_inside(p: Position, rect: Rect)
    requires
        clampable(rect),
    ensures
        rect.position.x <= spec_clamp(p, rect).x <= rect.position.x + rect.width - 1,
        rect.position.y <= spec_clamp(p, rect).y <= rect.position.y + rect.height - 1,
{
}

/// A cell of the rectangle is left where it is by clamping.
pub proof fn law_clamp_keeps_inside(p: Position, rect: Rect)
    requires
        clampable(rect),
        rect.position.x <= p.x <= rect.position.x + rect.width - 1,
        rect.position.y <= p.y <= rect.position.y + rect.height - 1,
    ensures
        spec_clamp(p, rect) == p,
{
}

/// Clamping twice is clamping once.
pub proof fn law_clamp_idempotent(p: Position, rect: Rect)
    requires
        clampable(rect),
    ensures
        spec_clamp(spec_clamp(p, rect), rect) == spec_clamp(p, rect),
{
}

/// Subtracting what was added gives back the position.
pub proof fn law_add_then_subtract(p: Position, q: Position)
    requires
        fits_i32(p.x + q.x),
        fits_i32(p.y + q.y),
    ensures
        ((p.x + q.x) - q.x) == p.x,
        ((p.y + q.y) - q.y) == p.y,
{
}

impl Position {
    pub fn new(x: i32, y: i32) -> (p: Self)
        ensures
            p.x == x,
            p.y == y,
    {
        Position { x, y }
    }

    pub fn origin() -> (p: Self)
        ensures
            p.x == 0,
            p.y == 0,
    {
        Position { x: 0, y: 0 }
    }

    /// Moves to `pos`: the result is `pos`.
    pub fn move_to(self, pos: Self) -> (p: Self)
        ensures
            p == pos,
    {
        let mut s = self;
        s.x = pos.x;
        s.y = pos.y;
        s
    }

    /// Adds the coordinates of `pos`.
    pub fn add(self, pos: Self) -> (p: Self)
        requires
            fits_i32(self.x + pos.x),
            fits_i32(self.y + pos.y),
        ensures
            p.x == self.x + pos.x,
            p.y == self.y + pos.y,
    {
        let mut s = self;
        s.x = s.x + pos.x;
        s.y = s.y + pos.y;
        s
    }

    /// Subtracts the coordinates of `pos`.
    pub fn subtract(self, pos: Self) -> (p: Self)
        requires
            fits_i32(self.x - pos.x),
            fits_i32(self.y - pos.y),
        ensures
            p.x == self.x - pos.x,
            p.y == self.y - pos.y,
    {
        let mut s = self;
        s.x = s.x - pos.x;
        s.y = s.y - pos.y;
        s
    }

    /// Negates both coordinates.
    pub fn invert(self) -> (p: Self)
        requires
            self.x != i32::MIN,
            self.y != i32::MIN,
        ensures
            p.x == -self.x,
            p.y == -self.y,
    {
        let mut s = self;
        s.x = -s.x;
        s.y = -s.y;
        s
    }

    /// Whether `pos` lies in the 3 by 3 block centred on `pos` itself and
    /// differs from this position; the block always holds `pos`, so the
    /// answer is whether the two positions differ.
    pub fn is_adjacent(&self, pos: Self) -> (r: bool)
        requires
            i32::MIN < pos.x <= i32::MAX - 2,
            i32::MIN < pos.y <= i32::MAX - 2,
        ensures
            r == (pos != *self),
    {
        let rect = Rect::new(3, 3, Position::new(pos.x - 1, pos.y - 1));
        rect.intersect_position(pos) && !(pos.x == self.x && pos.y == self.y)
    }

    /// Clamps both coordinates into the cells of `rect`: x into
    /// `[rect.x, rect.x + width - 1]`, y into `[rect.y, rect.y + height - 1]`;
    /// the upper bound wins where the range is empty.
    pub fn clamp(self, rect: &Rect) -> (p: Self)
        requires
            fits_i32(rect.position.x + rect.width),
            fits_i32(rect.position.x + rect.width - 1),
            fits_i32(rect.position.y + rect.height),
            fits_i32(rect.position.y + rect.height - 1),
        ensures
            p == spec_clamp(self, *rect),
    {
        let x_min = rect.position.x;
        let x_max = rect.position.x + rect.width - 1;
        let y_min = rect.position.y;
        let y_max = rect.position.y + rect.height - 1;
        let mut s = self;
        let x = if s.x >= x_min { s.x } else { x_min };
        s.x = if x <= x_max { x } else { x_max };
        let y = if s.y >= y_min { s.y } else { y_min };
        s.y = if y <= y_max { y } else { y_max };
        s
    }
}

} // verus!
