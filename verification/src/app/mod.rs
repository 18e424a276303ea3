//! The grid sequencer application: key bindings, messages and the grid.
pub mod command;
pub mod entities;
pub mod grid;
pub mod input_state;
pub mod keys;
pub mod message;
pub mod state;
pub mod user_interface;



