pub mod modifier;

pub use modifier::{ModType, Modifier};
