pub mod position;
pub mod rect;

pub use position::Position;
pub use rect::Rect;
