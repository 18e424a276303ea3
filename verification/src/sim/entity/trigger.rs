//! A trigger: a source of pulses at a tempo. This is its place on the grid
//! and its output signal; the tempo, the share of the beat that is high and
//! the running count through the beat are fractions, kept by the program
//! that samples it.
use super::signals::{create_source_id, init_output, initialized_output, next_source_id, source_limit, tracker_inputs};
use crate::sim::grid::Position;
use screech::{Output, Screech};
use vstd::prelude::*;

verus! {

/// A trigger entity of the grid.
pub struct Trigger {
    id: usize,
    grid_position: Position,
    pub output: Output,
}

impl Trigger {
    pub closed spec fn position(&self) -> Position {
        self.grid_position
    }

    pub closed spec fn source_id(&self) -> usize {
        self.id
    }

    pub closed spec fn output_signal(&self) -> Output {
        self.output
    }

    /// A new trigger at the origin for the source `id`, with an output named
    /// `output` registered for it; it registers no input. The engine's
    /// tracker must keep signals for the ids below `limit`; where `id` is not
    /// below `limit`, the engine is left as it is and the result is `None`.
    pub fn from_source_id(screech: &mut Screech, id: usize, limit: usize) -> (r: Option<Self>)
        requires
            limit <= source_limit(*old(screech)),
        ensures
            source_limit(*final(screech)) == source_limit(*old(screech)),
            tracker_inputs(*final(screech)) == tracker_inputs(*old(screech)),
            next_source_id(*final(screech)) == next_source_id(*old(screech)),
            r is None <==> id >= limit,
            r is None ==> *final(screech) == *old(screech),
            r matches Some(t) ==> {
                &&& t.position() == (Position { x: 0, y: 0 })
                &&& t.source_id() == id
                &&& t.output_signal() == initialized_output(id, "output"@)
            },
    {
        if id >= limit {
            return None;
        }
        let output = init_output(screech, &id, "output");
        Some(Trigger { id, grid_position: Position::origin(), output })
    }

    /// A new trigger at the origin, with a new source id from the engine
    /// (see `from_source_id`): the id its tracker hands out next. Where that
    /// id is not below `limit` the result is `None`.
    pub fn new(screech: &mut Screech, limit: usize) -> (r: Option<Self>)
        requires
            limit <= source_limit(*old(screech)),
        ensures
            r is None <==> next_source_id(*old(screech)) >= limit,
            next_source_id(*old(screech)) < usize::MAX ==> next_source_id(*final(screech)) == next_source_id(
                *old(screech),
            ) + 1,
            source_limit(*final(screech)) == source_limit(*old(screech)),
            tracker_inputs(*final(screech)) == tracker_inputs(*old(screech)),
            r matches Some(t) ==> {
                &&& t.position() == (Position { x: 0, y: 0 })
                &&& t.source_id() == next_source_id(*old(screech))
                &&& t.output_signal() == initialized_output(t.source_id(), "output"@)
            },
    {
        let id = create_source_id(screech);
        Self::from_source_id(screech, id, limit)
    }

    pub fn set_position(&mut self, position: Position)
        ensures
            final(self).position() == position,
            final(self).source_id() == old(self).source_id(),
            final(self).output_signal() == old(self).output_signal(),
    {
        self.grid_position = self.grid_position.move_to(position);
    }

    pub fn get_position(&self) -> (p: Position)
        ensures
            p == self.position(),
    {
        self.grid_position
    }

    pub fn get_source_id(&self) -> (r: &usize)
        ensures
            *r == self.source_id(),
    {
        &self.id
    }

    pub fn get_output(&self) -> (r: Output)
        ensures
            r == self.output_signal(),
    {
        self.output
    }
}

} // verus!
