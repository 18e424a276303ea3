//! The audio engine of the simulator: a tracker with room for a fixed number
//! of sources, and the left and right main outputs that the program plays.
use crate::sim::entity::signals::{
    create_main_out, engine_with_sources, initialized_input, next_source_id, source_limit, tracker_inputs,
};
use screech::{Input, Output, Screech};
use vstd::prelude::*;

verus! {

/// How many sources the engine keeps signals for, its own among them.
pub const SOURCES: usize = 256;

/// The inputs of the main outputs `left_out` and `right_out`, which belong
/// to the engine's own source, zero; nothing is connected to them yet.
pub open spec fn main_inputs() -> Map<Input, Seq<Output>> {
    Map::<Input, Seq<Output>>::empty().insert(initialized_input(0, "left_out"@), Seq::empty()).insert(
        initialized_input(0, "right_out"@),
        Seq::empty(),
    )
}

/// A new engine for `SOURCES` sources with buffers of `buffer_size`
/// samples, with its left and right main outputs; the next source id it
/// hands out is one.
pub fn new_engine(sample_rate: usize, buffer_size: usize) -> (r: Screech)
    ensures
        source_limit(r) == SOURCES,
        next_source_id(r) == 1,
        tracker_inputs(r) == main_inputs(),
{
    let mut screech = engine_with_sources::<SOURCES>(buffer_size, sample_rate);
    assert(tracker_inputs(screech) =~= Map::<Input, Seq<Output>>::empty());
    create_main_out(&mut screech, "left_out");
    create_main_out(&mut screech, "right_out");
    screech
}

} // verus!
