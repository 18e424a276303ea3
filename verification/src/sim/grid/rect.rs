use super::Position;
use super::position::fits_i32;
use vstd::prelude::*;

verus! {

/// A rectangle of cells: its corner and its size.
#[derive(Debug, Clone, Copy)]
pub struct Rect {
    pub position: Position,
    pub width: i32,
    pub height: i32,
}

impl Rect {
    pub fn new(width: i32, height: i32, position: Position) -> (r: Self)
        ensures
            r.width == width,
            r.height == height,
            r.position == position,
    {
        Rect { position, width, height }
    }

    /// Whether the two rectangles overlap, their edges included.
    pub fn intersect(&self, rect: &Rect) -> (r: bool)
        requires
            fits_i32(self.position.x + self.width),
            fits_i32(rect.position.x + rect.width),
            fits_i32(self.position.y + self.height),
            fits_i32(rect.position.y + rect.height),
        ensures
            r == !(rect.position.x > self.position.x + self.width
                || rect.position.x + rect.width < self.position.x
                || rect.position.y > self.position.y + self.height
                || rect.position.y + rect.height < self.position.y),
    {
        !(rect.position.x > self.position.x + self.width
            || rect.position.x + rect.width < self.position.x
            || rect.position.y > self.position.y + self.height
            || rect.position.y + rect.height < self.position.y)
    }

    /// Whether `pos` lies in the rectangle, its far edges included.
    pub fn intersect_position(&self, pos: Position) -> (r: bool)
        requires
            fits_i32(self.position.x + self.width),
            fits_i32(self.position.y + self.height),
        ensures
            r == (self.position.x <= pos.x <= self.position.x + self.width
                && self.position.y <= pos.y <= self.position.y + self.height),
    {
        pos.x >= self.position.x && pos.x <= self.position.x + self.width && pos.y >= self.position.y
            && pos.y <= self.position.y + self.height
    }
}

} // verus!
