//! A step: it charges while its input is high and then, once the input falls,
//! discharges, holding its output high for as many samples as it charged.
use crate::sim::grid::Position;
use super::signals::{
    create_source_id, init_input, init_output, initialized_input, initialized_output, next_source_id, source_limit, tracker_inputs,
};
use screech::{Input, Output, Screech};
use vstd::prelude::*;

verus! {

/// What a step does at a sample.
#[derive(Debug, Clone, Copy, PartialEq, Eq, Structural)]
pub enum State {
    Charging,
    Discharging,
    Idle,
}

/// The charge, the largest charge so far, and the state of a step.
pub struct Charge {
    pub state: State,
    pub charge: nat,
    pub max_charge: nat,
}

/// One sample: a high input charges the step; otherwise a charged step
/// discharges and an empty one idles.
pub open spec fn next_state(high: bool, charge: nat) -> State {
    if high {
        State::Charging
    } else if charge > 0 {
        State::Discharging
    } else {
        State::Idle
    }
}

pub open spec fn step_once(c: Charge, high: bool) -> Charge {
    let state = next_state(high, c.charge);
    let charge: nat = match state {
        State::Charging => c.charge + 1,
        State::Discharging => (c.charge - 1) as nat,
        State::Idle => c.charge,
    };
    Charge { state, charge, max_charge: if charge > c.max_charge { charge } else { c.max_charge } }
}

/// The step after the samples whose inputs are `highs`.
pub open spec fn run(c: Charge, highs: Seq<bool>) -> Charge
    decreases highs.len(),
{
    if highs.len() == 0 {
        c
    } else {
        step_once(run(c, highs.drop_last()), highs.last())
    }
}

/// Whether the output is high at each of the samples: high while the step
/// discharges.
pub open spec fn outputs(c: Charge, highs: Seq<bool>) -> Seq<bool> {
    Seq::new(highs.len(), |k: int| run(c, highs.take(k + 1)).state == State::Discharging)
}

/// The charge never passes `usize::MAX` while the samples are taken.
pub open spec fn charge_fits(c: Charge, highs: Seq<bool>) -> bool {
    forall|k: int| 0 <= k < highs.len() && highs[k] ==> #[trigger] run(c, highs.take(k)).charge < usize::MAX
}

proof fn lemma_run_lows(c: Charge, highs: Seq<bool>)
    requires
        forall|k: int| 0 <= k < highs.len() ==> !#[trigger] highs[k],
    ensures
        run(c, highs).charge == if c.charge >= highs.len() { (c.charge - highs.len()) as nat } else { 0 },
        highs.len() > 0 ==> run(c, highs).state == if c.charge >= highs.len() {
            State::Discharging
        } else {
            State::Idle
        },
    decreases highs.len(),
{
    if highs.len() > 0 {
        lemma_run_lows(c, highs.drop_last());
    }
}

proof fn lemma_run_highs(c: Charge, highs: Seq<bool>)
    requires
        forall|k: int| 0 <= k < highs.len() ==> #[trigger] highs[k],
    ensures
        run(c, highs).charge == c.charge + highs.len(),
        highs.len() > 0 ==> run(c, highs).state == State::Charging,
    decreases highs.len(),
{
    if highs.len() > 0 {
        lemma_run_highs(c, highs.drop_last());
    }
}

/// Each sample adds at most one unit of charge.
proof fn lemma_charge_grows_by_at_most_one(c: Charge, highs: Seq<bool>)
    ensures
        run(c, highs).charge <= c.charge + highs.len(),
    decreases highs.len(),
{
    if highs.len() > 0 {
        lemma_charge_grows_by_at_most_one(c, highs.drop_last());
    }
}

/// A charge that stays below `usize::MAX` by more than the number of
/// samples fits whatever the inputs are.
pub proof fn law_room_for_samples_fits(c: Charge, highs: Seq<bool>)
    requires
        c.charge + highs.len() < usize::MAX,
    ensures
        charge_fits(c, highs),
{
    assert forall|k: int| 0 <= k < highs.len() && highs[k] implies #[trigger] run(c, highs.take(k)).charge < usize::MAX by {
        lemma_charge_grows_by_at_most_one(c, highs.take(k));
    }
}

/// With its input low, a step holding a charge of `n` keeps its output high
/// for exactly `n` samples and then idles with no charge left.
pub proof fn law_discharge_holds_output_for_charge(c: Charge, highs: Seq<bool>)
    requires
        forall|k: int| 0 <= k < highs.len() ==> !#[trigger] highs[k],
    ensures
        forall|k: int| 0 <= k < highs.len() ==> #[trigger] outputs(c, highs)[k] == (k < c.charge),
        highs.len() >= c.charge ==> run(c, highs).charge == 0,
{
    lemma_run_lows(c, highs);
    assert forall|k: int| 0 <= k < highs.len() implies #[trigger] outputs(c, highs)[k] == (k < c.charge) by {
        lemma_run_lows(c, highs.take(k + 1));
    }
}

/// While its input is high a step gains one unit of charge per sample and
/// keeps its output low.
pub proof fn law_charge_counts_high_samples(c: Charge, highs: Seq<bool>)
    requires
        forall|k: int| 0 <= k < highs.len() ==> #[trigger] highs[k],
    ensures
        run(c, highs).charge == c.charge + highs.len(),
        forall|k: int| 0 <= k < highs.len() ==> !#[trigger] outputs(c, highs)[k],
{
    lemma_run_highs(c, highs);
    assert forall|k: int| 0 <= k < highs.len() implies !#[trigger] outputs(c, highs)[k] by {
        lemma_run_highs(c, highs.take(k + 1));
    }
}

/// The largest charge recorded never falls and is never below the charge.
pub proof fn law_max_charge_bounds_charge(c: Charge, highs: Seq<bool>)
    requires
        c.charge <= c.max_charge,
    ensures
        run(c, highs).charge <= run(c, highs).max_charge,
        c.max_charge <= run(c, highs).max_charge,
    decreases highs.len(),
{
    if highs.len() > 0 {
        law_max_charge_bounds_charge(c, highs.drop_last());
    }
}

/// A step entity of the grid.
pub struct Step {
    id: usize,
    grid_position: Position,
    state: State,
    charge: usize,
    pub max_charge: usize,
    pub output: Output,
    input: Input,
}

impl Step {
    pub closed spec fn charge_view(&self) -> Charge {
        Charge { state: self.state, charge: self.charge as nat, max_charge: self.max_charge as nat }
    }

    pub closed spec fn position(&self) -> Position {
        self.grid_position
    }

    pub closed spec fn source_id(&self) -> usize {
        self.id
    }

    pub closed spec fn input_signal(&self) -> Input {
        self.input
    }

    pub closed spec fn output_signal(&self) -> Output {
        self.output
    }

    /// A new idle, empty step at the origin for the source `id`, with an
    /// output named `output` and an input named `input` registered for it;
    /// the input has no output connected yet. The engine's tracker must keep
    /// signals for the ids below `limit`; where `id` is not below `limit`,
    /// the engine is left as it is and the result is `None`.
    pub fn from_source_id(screech: &mut Screech, id: usize, limit: usize) -> (r: Option<Self>)
        requires
            limit <= source_limit(*old(screech)),
        ensures
            source_limit(*final(screech)) == source_limit(*old(screech)),
            next_source_id(*final(screech)) == next_source_id(*old(screech)),
            r is None <==> id >= limit,
            r is None ==> *final(screech) == *old(screech),
            r matches Some(s) ==> {
                &&& s.charge_view() == (Charge { state: State::Idle, charge: 0, max_charge: 0 })
                &&& s.position() == (Position { x: 0, y: 0 })
                &&& s.source_id() == id
                &&& s.output_signal() == initialized_output(id, "output"@)
                &&& s.input_signal() == initialized_input(id, "input"@)
                &&& tracker_inputs(*final(screech)) == tracker_inputs(*old(screech)).insert(
                    s.input_signal(),
                    Seq::empty(),
                )
            },
    {
        if id >= limit {
            return None;
        }
        let output = init_output(screech, &id, "output");
        let input = init_input(screech, &id, "input");
        Some(
            Step {
                id,
                output,
                input,
                grid_position: Position::origin(),
                state: State::Idle,
                max_charge: 0,
                charge: 0,
            },
        )
    }

    /// A new idle, empty step at the origin, with a new source id from the
    /// engine: the id its tracker hands out next (see `from_source_id`).
    /// Where that id is not below `limit` the result is `None` and the
    /// engine's inputs are as they were.
    pub fn new(screech: &mut Screech, limit: usize) -> (r: Option<Self>)
        requires
            limit <= source_limit(*old(screech)),
        ensures
            r is None <==> next_source_id(*old(screech)) >= limit,
            next_source_id(*old(screech)) < usize::MAX ==> next_source_id(*final(screech)) == next_source_id(
                *old(screech),
            ) + 1,
            source_limit(*final(screech)) == source_limit(*old(screech)),
            r is None ==> tracker_inputs(*final(screech)) == tracker_inputs(*old(screech)),
            r matches Some(s) ==> {
                &&& s.charge_view() == (Charge { state: State::Idle, charge: 0, max_charge: 0 })
                &&& s.position() == (Position { x: 0, y: 0 })
                &&& s.source_id() == next_source_id(*old(screech))
                &&& s.output_signal() == initialized_output(s.source_id(), "output"@)
                &&& s.input_signal() == initialized_input(s.source_id(), "input"@)
                &&& tracker_inputs(*final(screech)) == tracker_inputs(*old(screech)).insert(
                    s.input_signal(),
                    Seq::empty(),
                )
            },
    {
        let id = create_source_id(screech);
        Self::from_source_id(screech, id, limit)
    }

    /// Sets the charge.
    pub fn trigger(&mut self, charge: usize) -> (r: &mut Self)
        ensures
            r.charge_view() == (Charge { charge: charge as nat, ..old(self).charge_view() }),
            r.position() == old(self).position(),
            r.source_id() == old(self).source_id(),
            r.input_signal() == old(self).input_signal(),
            r.output_signal() == old(self).output_signal(),
            *final(self) == *final(r),
    {
        self.charge = charge;
        self
    }

    /// Runs the step over the samples of a buffer, `highs` saying at each
    /// sample whether the strongest input reaches the threshold; returns at
    /// each sample whether the output is high.
    pub fn process(&mut self, highs: &[bool]) -> (out: Vec<bool>)
        requires
            charge_fits(old(self).charge_view(), highs@),
        ensures
            final(self).charge_view() == run(old(self).charge_view(), highs@),
            out@ == outputs(old(self).charge_view(), highs@),
            final(self).position() == old(self).position(),
            final(self).source_id() == old(self).source_id(),
            final(self).input_signal() == old(self).input_signal(),
            final(self).output_signal() == old(self).output_signal(),
    {
        let ghost c0 = self.charge_view();
        let mut out: Vec<bool> = Vec::new();
        let mut i: usize = 0;
        while i < highs.len()
            invariant
                i <= highs@.len(),
                charge_fits(c0, highs@),
                self.charge_view() == run(c0, highs@.take(i as int)),
                out@.len() == i,
                forall|k: int| 0 <= k < i ==> #[trigger] out@[k] == outputs(c0, highs@)[k],
                self.grid_position == old(self).grid_position,
                self.id == old(self).id,
                self.input == old(self).input,
                self.output == old(self).output,
            decreases highs@.len() - i,
        {
            let high = highs[i];
            proof {
                assert(highs@.take(i + 1).drop_last() =~= highs@.take(i as int));
                assert(highs@.take(i + 1).last() == high);
                if high {
                    assert(run(c0, highs@.take(i as int)).charge < usize::MAX);
                }
            }
            self.state = if high {
                State::Charging
            } else if self.charge > 0 {
                State::Discharging
            } else {
                State::Idle
            };
            match self.state {
                State::Charging => self.charge = self.charge + 1,
                State::Discharging => self.charge = self.charge - 1,
                State::Idle => {},
            }
            if self.charge > self.max_charge {
                self.max_charge = self.charge;
            }
            out.push(self.state == State::Discharging);
            i = i + 1;
        }
        proof {
            assert(highs@.take(highs@.len() as int) =~= highs@);
            assert(out@ =~= outputs(c0, highs@));
        }
        out
    }

    /// Whether the charge stays below `usize::MAX` over `samples` samples
    /// whatever the inputs are (see `law_room_for_samples_fits`).
    pub fn has_room_for(&self, samples: usize) -> (r: bool)
        ensures
            r == (self.charge_view().charge + samples < usize::MAX),
    {
        self.charge < usize::MAX - samples
    }

    pub fn set_position(&mut self, position: Position)
        ensures
            final(self).position() == position,
            final(self).charge_view() == old(self).charge_view(),
            final(self).source_id() == old(self).source_id(),
            final(self).input_signal() == old(self).input_signal(),
            final(self).output_signal() == old(self).output_signal(),
    {
        self.grid_position = self.grid_position.move_to(position);
    }

    pub fn get_position(&self) -> (p: Position)
        ensures
            p == self.position(),
    {
        self.grid_position
    }

    pub fn get_source_id(&self) -> (r: &usize)
        ensures
            *r == self.source_id(),
    {
        &self.id
    }

    pub fn get_output(&self) -> (r: Output)
        ensures
            r == self.output_signal(),
    {
        self.output
    }

    pub fn get_input(&self) -> (r: Input)
        ensures
            r == self.input_signal(),
    {
        self.input
    }
}

} // verus!
