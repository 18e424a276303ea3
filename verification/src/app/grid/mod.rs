//! Positions on the application grid.
pub mod connector;
pub mod entity;
pub mod grid;
pub mod rect;
pub mod walk;

pub use crate::sim::grid::Position;
pub use grid::Grid;



use vstd::prelude::*;

verus! {

/// A position on the grid, moved in place.
#[derive(Debug, Clone, Copy)]
pub struct GridPosition {
    pub x: i32,
    pub y: i32,
}

impl GridPosition {
    pub fn new(x: i32, y: i32) -> (p: Self)
        ensures
            p.x == x,
            p.y == y,
    {
        GridPosition { x, y }
    }

    /// Moves to `pos`.
    pub fn move_to(&mut self, pos: &Self) -> (r: &mut Self)
        ensures
            r.x == pos.x,
            r.y == pos.y,
            *final(self) == *final(r),
    {
        self.x = pos.x;
        self.y = pos.y;
        self
    }

    /// Moves by `pos`.
    pub fn add(&mut self, pos: &Self) -> (r: &mut Self)
        requires
            i32::MIN <= old(self).x + pos.x <= i32::MAX,
            i32::MIN <= old(self).y + pos.y <= i32::MAX,
        ensures
            r.x == old(self).x + pos.x,
            r.y == old(self).y + pos.y,
            *final(self) == *final(r),
    {
        self.x = self.x + pos.x;
        self.y = self.y + pos.y;
        self
    }
}

} // verus!
