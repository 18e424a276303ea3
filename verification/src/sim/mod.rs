//! The grid simulator: positions and rectangles on the grid, keyboard state,
//! bitmaps, images and glyphs.

pub mod audio;
pub mod entity;
pub mod glyphs;
pub mod grid;
pub mod input;
pub mod ui;



pub use grid::{Position, Rect};
pub use input::{Input, InputState};
pub use ui::{Bitmap, Color, Image, UserInterface};


