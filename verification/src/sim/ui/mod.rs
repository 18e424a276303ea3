pub mod bitmap;
pub mod color;
pub mod image;
pub mod interface;

pub use bitmap::Bitmap;
pub use color::Color;
pub use image::Image;
pub use interface::UserInterface;
