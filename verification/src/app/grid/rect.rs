use super::Position;
use vstd::prelude::*;

verus! {

/// A rectangle of the application grid: its corner and its size.
#[derive(Debug, Clone, Copy)]
pub struct Rect {
    pub position: Position,
    pub size: (i32, i32),
}

impl Rect {
    pub fn new(width: i32, height: i32, position: Position) -> (r: Self)
        ensures
            r.position == position,
            r.size == (width, height),
    {
        Rect { position, size: (width, height) }
    }

    /// Whether `pos` lies in the rectangle, its far edges included.
    pub fn intersects_position(&self, pos: &Position) -> (r: bool)
        requires
            i32::MIN <= self.position.x + self.size.0 <= i32::MAX,
            i32::MIN <= self.position.y + self.size.1 <= i32::MAX,
        ensures
            r == (self.position.x <= pos.x <= self.position.x + self.size.0
                && self.position.y <= pos.y <= self.position.y + self.size.1),
    {
        let (w, h) = self.size;
        pos.x >= self.position.x && pos.x <= self.position.x + w && pos.y >= self.position.y
            && pos.y <= self.position.y + h
    }
}

} // verus!
