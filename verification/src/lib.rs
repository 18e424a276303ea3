use vstd::prelude::*;

pub mod app;
pub mod effects;
pub mod sample;
pub mod sim;
pub mod state;
pub mod stream;
pub mod track;
pub mod ui;
pub mod wave;
mod text;

verus! {
} // verus!
