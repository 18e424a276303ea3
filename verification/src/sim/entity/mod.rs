//! The entities of the simulator grid.
pub mod signals;
pub mod step;
pub mod trigger;

pub use step::Step;
pub use trigger::Trigger;
