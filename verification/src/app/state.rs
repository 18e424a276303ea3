//! What the application does with a message: the cursor, the input mode,
//! the typed input and the prompt, and the grid of entities, which the audio
//! engine makes and joins.
use super::grid::walk::{
    cycle_len, first_empty_at, law_walk_finds_empty, law_walk_stays_on_grid, on_grid, walk, walkable,
};
use super::grid::entity::{
    connect, entity_fits, entity_prompt, entity_settings, entity_source_id, grid_fits, spec_connections, GridEntity,
};
use super::grid::{Grid, Position};
use crate::sim::entity::signals::{
    apply_connections, create_source_id, fed_into, initialized_input, initialized_output, law_connections_append,
    next_source_id, source_limit, tracker_inputs,
};
use crate::sim::entity::step::{Charge, State as StepState};
use crate::sim::entity::{Step, Trigger};
use screech::{Input, Output, Screech};
use super::input_state::InputMode;
use super::message::{Message, MessageView};
use crate::sim::grid::position::{fits_i32, spec_clamp};
use crate::sim::grid::Rect;
use vstd::prelude::*;

verus! {

/// Whether clamping into `rect` computes without overflow.
pub open spec fn clamp_defined(rect: Rect) -> bool {
    &&& fits_i32(rect.position.x + rect.width)
    &&& fits_i32(rect.position.x + rect.width - 1)
    &&& fits_i32(rect.position.y + rect.height)
    &&& fits_i32(rect.position.y + rect.height - 1)
}

/// The remainder of Rust's `%` on integers: it takes the sign of `a`, and
/// its size is that of the remainder of `|a|` by `|d|`.
pub open spec fn truncated_rem(a: int, d: int) -> int {
    if a >= 0 {
        a % d
    } else {
        -((-a) % d)
    }
}

/// The setting number that the edit mode reached from `pos` jumps to by
/// `amount` among `len` settings, as the application computes it in `i32`.
pub open spec fn jumped_setting(pos: usize, len: usize, amount: i32) -> usize {
    let start = ((pos + len) as i32) as int + amount;
    truncated_rem(start, (len as i32) as int) as i32 as usize
}

/// Whether that computation stays within its types.
pub open spec fn jump_defined(pos: usize, len: usize, amount: i32) -> bool {
    let start = ((pos + len) as i32) as int + amount;
    &&& pos + len <= usize::MAX
    &&& fits_i32(start)
    &&& (len as i32) != 0
    &&& !((len as i32) == -1 && start == i32::MIN)
}

/// Jumping by `amount` from setting `pos` of `len` settings, with no more
/// than a round backwards, lands on setting `(pos + amount) mod len`: tab
/// goes to the next setting, shift-tab to the one before, and both wrap.
pub proof fn law_jump_wraps_around(pos: usize, len: usize, amount: i32)
    requires
        0 < len,
        pos < len,
        pos + len <= i32::MAX,
        -(len as int) <= amount,
        pos + len + amount <= i32::MAX,
    ensures
        jump_defined(pos, len, amount),
        jumped_setting(pos, len, amount) == (pos + amount) % (len as int),
        jumped_setting(pos, len, amount) < len,
{
    let start = pos + len + amount;
    vstd::arithmetic::div_mod::lemma_mod_add_multiples_vanish(pos + amount, len as int);
    vstd::arithmetic::div_mod::lemma_mod_bound(start, len as int);
}

/// The application state without the drawing: the grid of entities, the
/// input mode, the cursor, the prompt, the typed input, and how many
/// settings the entity under the cursor has.
pub struct State {
    pub grid: Grid<GridEntity>,
    pub input_mode: InputMode,
    pub cursor: Position,
    pub prompt: String,
    pub input: String,
    /// How many settings the entity under the cursor has, if one is there.
    pub settings: Option<usize>,
}

/// Whether the state can take `message` without overflow and, for a move
/// to the nearest empty cell, with an empty cell on the way.
pub open spec fn accepts(s: State, message: MessageView) -> bool {
    match message {
        MessageView::MoveTo(_) => clamp_defined(s.grid.rect),
        MessageView::Move(p) => {
            &&& clamp_defined(s.grid.rect)
            &&& fits_i32(s.cursor.x + p.x)
            &&& fits_i32(s.cursor.y + p.y)
        },
        MessageView::MoveToEmpty => {
            &&& clamp_defined(s.grid.rect)
            &&& s.grid.rect.width > i32::MIN
            &&& s.grid.rect.height > i32::MIN
            &&& exists|k: nat| first_empty_at(s.grid.entities(), s.grid.rect, s.cursor, k)
        },
        MessageView::JumpSetting(amount) => match (s.input_mode, s.settings) {
            (InputMode::Edit(pos), Some(len)) => jump_defined(pos, len, amount),
            _ => true,
        },
        MessageView::AddStep | MessageView::AddTrigger => {
            &&& i32::MIN < s.cursor.x < i32::MAX
            &&& i32::MIN < s.cursor.y < i32::MAX
        },
        _ => true,
    }
}

/// While the grid holds fewer entities than the walk goes round, a move to
/// the nearest empty cell from any cell of the grid is always accepted.
pub proof fn law_move_to_empty_accepted(s: State)
    requires
        walkable(s.grid.rect),
        on_grid(s.cursor, s.grid.rect),
        s.grid.entities@.len() < cycle_len(s.grid.rect),
    ensures
        accepts(s, MessageView::MoveToEmpty),
{
    s.grid.lemma_entities_finite();
    law_walk_finds_empty(s.grid.entities(), s.grid.rect, s.cursor);
}

/// A move to the nearest empty cell from a cell of the grid puts the
/// cursor on a cell of the grid where no entity stands, and shows no
/// prompt.
pub proof fn law_move_to_empty_lands_on_empty(before: State, after: State, k: nat)
    requires
        walkable(before.grid.rect),
        on_grid(before.cursor, before.grid.rect),
        first_empty_at(before.grid.entities(), before.grid.rect, before.cursor, k),
        after.moved_to(before, spec_clamp(walk(before.cursor, before.grid.rect, k), before.grid.rect)),
    ensures
        on_grid(after.cursor, after.grid.rect),
        !after.grid.entities().contains_key(after.cursor),
        after.prompt@ == Seq::<char>::empty(),
        after.settings is None,
{
    law_walk_stays_on_grid(before.cursor, before.grid.rect, k);
}

/// Whether `s` is a step just made on `pos` for a source below `limit`.
pub open spec fn new_step_on(s: Step, pos: Position, limit: nat) -> bool {
    &&& s.charge_view() == (Charge { state: StepState::Idle, charge: 0, max_charge: 0 })
    &&& s.position() == pos
    &&& s.source_id() < limit
    &&& s.output_signal() == initialized_output(s.source_id(), "output"@)
    &&& s.input_signal() == initialized_input(s.source_id(), "input"@)
}

/// Whether `t` is a trigger just made on `pos` for a source below `limit`.
pub open spec fn new_trigger_on(t: Trigger, pos: Position, limit: nat) -> bool {
    &&& t.position() == pos
    &&& t.source_id() < limit
    &&& t.output_signal() == initialized_output(t.source_id(), "output"@)
}

/// Whether `after` is `before` with a step just made, for a source below
/// `limit`, on the empty cell `pos`, and the engine's inputs went from
/// `inputs_before` to `inputs_after` by registering the step's input and
/// then joining the step to its neighbours in `after`.
pub open spec fn step_placed(
    before: Map<Position, GridEntity>,
    after: Map<Position, GridEntity>,
    pos: Position,
    limit: nat,
    inputs_before: Map<Input, Seq<Output>>,
    inputs_after: Map<Input, Seq<Output>>,
) -> bool {
    &&& after.contains_key(pos)
    &&& after == before.insert(pos, after[pos])
    &&& (after[pos] matches GridEntity::Step(s) && new_step_on(s, pos, limit) && inputs_after
        == apply_connections(inputs_before.insert(s.input_signal(), Seq::empty()), spec_connections(after, pos)))
}

/// Whether `after` is `before` with a trigger just made, for a source below
/// `limit`, on the empty cell `pos`, and the engine's inputs went from
/// `inputs_before` to `inputs_after` by joining the trigger to its
/// neighbours in `after`.
pub open spec fn trigger_placed(
    before: Map<Position, GridEntity>,
    after: Map<Position, GridEntity>,
    pos: Position,
    limit: nat,
    inputs_before: Map<Input, Seq<Output>>,
    inputs_after: Map<Input, Seq<Output>>,
) -> bool {
    &&& after.contains_key(pos)
    &&& after == before.insert(pos, after[pos])
    &&& (after[pos] matches GridEntity::Trigger(t) && new_trigger_on(t, pos, limit) && inputs_after
        == apply_connections(inputs_before, spec_connections(after, pos)))
}

/// A placed step is wired to its neighbours: its input is registered and
/// takes exactly the outputs that its connections feed into it (those of its
/// northern and western neighbours), and every input registered before
/// keeps its outputs and takes, after them, those that the connections feed
/// into it (the step's output, for its eastern and southern step
/// neighbours). No other input is registered.
pub proof fn law_placed_step_wired(
    before: Map<Position, GridEntity>,
    after: Map<Position, GridEntity>,
    pos: Position,
    limit: nat,
    inputs_before: Map<Input, Seq<Output>>,
    inputs_after: Map<Input, Seq<Output>>,
)
    requires
        step_placed(before, after, pos, limit, inputs_before, inputs_after),
    ensures
        after[pos] matches GridEntity::Step(s) && {
            &&& inputs_after.dom() == inputs_before.dom().insert(s.input_signal())
            &&& inputs_after[s.input_signal()] == fed_into(spec_connections(after, pos), s.input_signal())
            &&& forall|i: Input| #[trigger]
                inputs_before.dom().contains(i) && i != s.input_signal() ==> inputs_after[i] == inputs_before[i]
                    + fed_into(spec_connections(after, pos), i)
        },
{
    match after[pos] {
        GridEntity::Step(s) => {
            let registered = inputs_before.insert(s.input_signal(), Seq::empty());
            let conns = spec_connections(after, pos);
            law_connections_append(registered, conns);
            assert(registered.dom().contains(s.input_signal()));
            assert(Seq::<Output>::empty() + fed_into(conns, s.input_signal()) =~= fed_into(conns, s.input_signal()));
            assert forall|i: Input| #[trigger]
                inputs_before.dom().contains(i) && i != s.input_signal() implies inputs_after[i] == inputs_before[i]
                    + fed_into(conns, i) by {
                assert(registered.dom().contains(i));
            }
        },
        _ => {},
    }
}

/// A placed trigger is wired to its neighbours: it registers no input, and
/// every input registered before keeps its outputs and takes, after them,
/// those that the trigger's connections feed into it (the trigger's output,
/// for its eastern and southern step neighbours).
pub proof fn law_placed_trigger_wired(
    before: Map<Position, GridEntity>,
    after: Map<Position, GridEntity>,
    pos: Position,
    limit: nat,
    inputs_before: Map<Input, Seq<Output>>,
    inputs_after: Map<Input, Seq<Output>>,
)
    requires
        trigger_placed(before, after, pos, limit, inputs_before, inputs_after),
    ensures
        inputs_after.dom() == inputs_before.dom(),
        forall|i: Input| #[trigger]
            inputs_before.dom().contains(i) ==> inputs_after[i] == inputs_before[i] + fed_into(
                spec_connections(after, pos),
                i,
            ),
{
    law_connections_append(inputs_before, spec_connections(after, pos));
}

impl State {
    /// A state on a new grid, in command mode, the cursor at the origin,
    /// with no prompt, input or settings.
    pub fn new() -> (s: Self)
        ensures
            s.grid.rect == (Rect { position: Position { x: 0, y: 0 }, width: 33, height: 17 }),
            s.grid.entities() == Map::<Position, GridEntity>::empty(),
            s.input_mode == InputMode::Command,
            s.cursor == (Position { x: 0, y: 0 }),
            s.prompt@ == Seq::<char>::empty(),
            s.input@ == Seq::<char>::empty(),
            s.settings is None,
    {
        State {
            grid: Grid::new(),
            input_mode: InputMode::Command,
            cursor: Position::new(0, 0),
            prompt: String::new(),
            input: String::new(),
            settings: None,
        }
    }

    /// Whether the prompt and the settings are those of the entity under
    /// the cursor, or empty and none where the cell is empty.
    pub open spec fn shows_cursor_entity(&self) -> bool {
        if self.grid.entities().contains_key(self.cursor) {
            &&& self.prompt@ == entity_prompt(self.grid.entities()[self.cursor])
            &&& self.settings == Some(entity_settings(self.grid.entities()[self.cursor]))
        } else {
            &&& self.prompt@ == Seq::<char>::empty()
            &&& self.settings is None
        }
    }

    /// After a move to `target`: the cursor is on it, the grid, the mode
    /// and the input are kept, and the prompt shows what stands there.
    pub open spec fn moved_to(&self, before: State, target: Position) -> bool {
        &&& self.cursor == target
        &&& self.grid == before.grid
        &&& self.input_mode == before.input_mode
        &&& self.input == before.input
        &&& self.shows_cursor_entity()
    }

    /// Whether only the grid may differ from `before`.
    pub open spec fn keeps_all_but_grid(&self, before: State) -> bool {
        &&& self.cursor == before.cursor
        &&& self.input_mode == before.input_mode
        &&& self.input == before.input
        &&& self.prompt == before.prompt
        &&& self.settings == before.settings
        &&& self.grid.rect == before.grid.rect
    }

    /// Shows the prompt and the settings of the entity under the cursor.
    fn update_prompt(&mut self)
        ensures
            final(self).cursor == old(self).cursor,
            final(self).grid == old(self).grid,
            final(self).input_mode == old(self).input_mode,
            final(self).input == old(self).input,
            final(self).shows_cursor_entity(),
    {
        match self.grid.get_entity(&self.cursor) {
            Some(e) => {
                let prompt = e.get_prompt();
                let settings = e.settings_count();
                self.prompt = prompt;
                self.settings = Some(settings);
            },
            None => {
                self.prompt = String::new();
                self.settings = None;
            },
        }
    }

    /// Puts the cursor on `pos` clamped into the grid, and shows what
    /// stands there.
    fn move_cursor(&mut self, pos: Position)
        requires
            clamp_defined(old(self).grid.rect),
        ensures
            final(self).moved_to(*old(self), spec_clamp(pos, old(self).grid.rect)),
    {
        self.cursor = pos.clamp(&self.grid.rect);
        self.update_prompt();
    }

    /// Places a step for the engine source `id` on the cursor's empty cell
    /// and joins it to its neighbours in the engine. Where `id` is not below
    /// `limit`, nothing changes and the result is `false`.
    pub fn place_step(&mut self, screech: &mut Screech, id: usize, limit: usize) -> (done: bool)
        requires
            !old(self).grid.entities().contains_key(old(self).cursor),
            i32::MIN < old(self).cursor.x < i32::MAX,
            i32::MIN < old(self).cursor.y < i32::MAX,
            limit <= source_limit(*old(screech)),
            grid_fits(old(self).grid.entities(), limit as nat),
        ensures
            done <==> id < limit,
            source_limit(*final(screech)) == source_limit(*old(screech)),
            next_source_id(*final(screech)) == next_source_id(*old(screech)),
            grid_fits(final(self).grid.entities(), limit as nat),
            final(self).keeps_all_but_grid(*old(self)),
            !done ==> final(self).grid == old(self).grid && *final(screech) == *old(screech),
            done ==> step_placed(
                old(self).grid.entities(),
                final(self).grid.entities(),
                old(self).cursor,
                limit as nat,
                tracker_inputs(*old(screech)),
                tracker_inputs(*final(screech)),
            ),
            done ==> entity_source_id(final(self).grid.entities()[old(self).cursor]) == id,
    {
        match Step::from_source_id(screech, id, limit) {
            Some(mut step) => {
                let cursor = self.cursor;
                step.set_position(cursor);
                let ghost made = step;
                self.grid.add_entity(&cursor, GridEntity::Step(step));
                proof {
                    assert forall|p: Position| #[trigger] self.grid.entities().contains_key(p) implies entity_fits(
                        self.grid.entities()[p],
                        limit as nat,
                    ) by {
                        if p != cursor {
                            assert(old(self).grid.entities().contains_key(p));
                        }
                    }
                }
                connect(screech, &self.grid, &cursor, limit);
                assert(self.grid.entities()[cursor] == GridEntity::Step(made));
                assert(self.grid.entities() =~= old(self).grid.entities().insert(cursor, self.grid.entities()[cursor]));
                true
            },
            None => false,
        }
    }

    /// Places a trigger for the engine source `id` on the cursor's empty
    /// cell and joins it to its neighbours in the engine. Where `id` is not
    /// below `limit`, nothing changes and the result is `false`.
    pub fn place_trigger(&mut self, screech: &mut Screech, id: usize, limit: usize) -> (done: bool)
        requires
            !old(self).grid.entities().contains_key(old(self).cursor),
            i32::MIN < old(self).cursor.x < i32::MAX,
            i32::MIN < old(self).cursor.y < i32::MAX,
            limit <= source_limit(*old(screech)),
            grid_fits(old(self).grid.entities(), limit as nat),
        ensures
            done <==> id < limit,
            source_limit(*final(screech)) == source_limit(*old(screech)),
            next_source_id(*final(screech)) == next_source_id(*old(screech)),
            grid_fits(final(self).grid.entities(), limit as nat),
            final(self).keeps_all_but_grid(*old(self)),
            !done ==> final(self).grid == old(self).grid && *final(screech) == *old(screech),
            done ==> trigger_placed(
                old(self).grid.entities(),
                final(self).grid.entities(),
                old(self).cursor,
                limit as nat,
                tracker_inputs(*old(screech)),
                tracker_inputs(*final(screech)),
            ),
            done ==> entity_source_id(final(self).grid.entities()[old(self).cursor]) == id,
    {
        match Trigger::from_source_id(screech, id, limit) {
            Some(mut trigger) => {
                let cursor = self.cursor;
                trigger.set_position(cursor);
                let ghost made = trigger;
                self.grid.add_entity(&cursor, GridEntity::Trigger(trigger));
                proof {
                    assert forall|p: Position| #[trigger] self.grid.entities().contains_key(p) implies entity_fits(
                        self.grid.entities()[p],
                        limit as nat,
                    ) by {
                        if p != cursor {
                            assert(old(self).grid.entities().contains_key(p));
                        }
                    }
                }
                connect(screech, &self.grid, &cursor, limit);
                assert(self.grid.entities()[cursor] == GridEntity::Trigger(made));
                assert(self.grid.entities() =~= old(self).grid.entities().insert(cursor, self.grid.entities()[cursor]));
                true
            },
            None => false,
        }
    }

    /// Carries out `message`. Making a step or a trigger on an empty cell
    /// takes a new source id from the audio engine `screech`, whose tracker
    /// must keep signals for the source ids below `limit`, as must those of
    /// the entities already on the grid; the entity is then placed and wired
    /// as `place_step` and `place_trigger` do. On an empty cell the result
    /// is `false` exactly where the id that the engine hands out next is not
    /// below `limit`; then the grid and the engine's inputs are as they
    /// were. Every other message leaves the engine alone.
    pub fn process_message(&mut self, message: &Message, screech: &mut Screech, limit: usize) -> (done: bool)
        requires
            accepts(*old(self), message@),
            limit <= source_limit(*old(screech)),
            grid_fits(old(self).grid.entities(), limit as nat),
        ensures
            source_limit(*final(screech)) == source_limit(*old(screech)),
            grid_fits(final(self).grid.entities(), limit as nat),
            !(message@ is AddStep || message@ is AddTrigger) ==> done && *final(screech) == *old(screech),
            match message@ {
                MessageView::SetInput(text) => {
                    &&& final(self).input@ == text
                    &&& final(self).cursor == old(self).cursor
                    &&& final(self).grid == old(self).grid
                    &&& final(self).input_mode == old(self).input_mode
                    &&& final(self).prompt == old(self).prompt
                    &&& final(self).settings == old(self).settings
                },
                MessageView::ClearInput => {
                    &&& final(self).input@ == Seq::<char>::empty()
                    &&& final(self).cursor == old(self).cursor
                    &&& final(self).grid == old(self).grid
                    &&& final(self).input_mode == old(self).input_mode
                    &&& final(self).prompt == old(self).prompt
                    &&& final(self).settings == old(self).settings
                },
                MessageView::MoveTo(p) => final(self).moved_to(*old(self), spec_clamp(p, old(self).grid.rect)),
                MessageView::Move(p) => final(self).moved_to(
                    *old(self),
                    spec_clamp(
                        Position { x: (old(self).cursor.x + p.x) as i32, y: (old(self).cursor.y + p.y) as i32 },
                        old(self).grid.rect,
                    ),
                ),
                MessageView::MoveToEmpty => exists|k: nat|
                    first_empty_at(old(self).grid.entities(), old(self).grid.rect, old(self).cursor, k)
                        && final(self).moved_to(
                        *old(self),
                        spec_clamp(walk(old(self).cursor, old(self).grid.rect, k), old(self).grid.rect),
                    ),
                MessageView::UpdatePrompt => final(self).moved_to(*old(self), old(self).cursor),
                MessageView::AddStep => {
                    &&& final(self).keeps_all_but_grid(*old(self))
                    &&& if old(self).grid.entities().contains_key(old(self).cursor) {
                        &&& done
                        &&& final(self).grid == old(self).grid
                        &&& *final(screech) == *old(screech)
                    } else {
                        &&& done <==> next_source_id(*old(screech)) < limit
                        &&& if done {
                            &&& step_placed(
                                old(self).grid.entities(),
                                final(self).grid.entities(),
                                old(self).cursor,
                                limit as nat,
                                tracker_inputs(*old(screech)),
                                tracker_inputs(*final(screech)),
                            )
                            &&& entity_source_id(final(self).grid.entities()[old(self).cursor]) == next_source_id(
                                *old(screech),
                            )
                        } else {
                            &&& final(self).grid == old(self).grid
                            &&& tracker_inputs(*final(screech)) == tracker_inputs(*old(screech))
                        }
                    }
                },
                MessageView::AddTrigger => {
                    &&& final(self).keeps_all_but_grid(*old(self))
                    &&& if old(self).grid.entities().contains_key(old(self).cursor) {
                        &&& done
                        &&& final(self).grid == old(self).grid
                        &&& *final(screech) == *old(screech)
                    } else {
                        &&& done <==> next_source_id(*old(screech)) < limit
                        &&& if done {
                            &&& trigger_placed(
                                old(self).grid.entities(),
                                final(self).grid.entities(),
                                old(self).cursor,
                                limit as nat,
                                tracker_inputs(*old(screech)),
                                tracker_inputs(*final(screech)),
                            )
                            &&& entity_source_id(final(self).grid.entities()[old(self).cursor]) == next_source_id(
                                *old(screech),
                            )
                        } else {
                            &&& final(self).grid == old(self).grid
                            &&& tracker_inputs(*final(screech)) == tracker_inputs(*old(screech))
                        }
                    }
                },
                MessageView::DeleteEntity => {
                    &&& final(self).grid.entities() == old(self).grid.entities().remove(old(self).cursor)
                    &&& final(self).keeps_all_but_grid(*old(self))
                },
                MessageView::SwitchInputMode(mode) => {
                    &&& final(self).input_mode == mode
                    &&& final(self).cursor == old(self).cursor
                    &&& final(self).grid == old(self).grid
                    &&& final(self).input == old(self).input
                    &&& final(self).prompt == old(self).prompt
                    &&& final(self).settings == old(self).settings
                },
                MessageView::JumpSetting(amount) => {
                    &&& final(self).input_mode == match (old(self).input_mode, old(self).settings) {
                        (InputMode::Edit(pos), Some(len)) => InputMode::Edit(
                            jumped_setting(pos, len, amount),
                        ),
                        _ => old(self).input_mode,
                    }
                    &&& final(self).cursor == old(self).cursor
                    &&& final(self).grid == old(self).grid
                    &&& final(self).input == old(self).input
                    &&& final(self).prompt == old(self).prompt
                    &&& final(self).settings == old(self).settings
                },
                MessageView::ProcessInput => *final(self) == *old(self),
            },
    {
        match message {
            Message::SetInput(input) => {
                self.input = input.clone();
                true
            },
            Message::ClearInput => {
                self.input = String::new();
                true
            },
            Message::ProcessInput => true,
            Message::MoveTo(pos) => {
                self.move_cursor(*pos);
                true
            },
            Message::Move(pos) => {
                let target = self.cursor.add(*pos);
                self.move_cursor(target);
                true
            },
            Message::MoveToEmpty => {
                let pos = self.grid.find_nearest_empty(&self.cursor);
                self.move_cursor(pos);
                true
            },
            Message::UpdatePrompt => {
                self.update_prompt();
                true
            },
            Message::AddStep => {
                if self.grid.is_empty(&self.cursor) {
                    let id = create_source_id(screech);
                    self.place_step(screech, id, limit)
                } else {
                    true
                }
            },
            Message::AddTrigger => {
                if self.grid.is_empty(&self.cursor) {
                    let id = create_source_id(screech);
                    self.place_trigger(screech, id, limit)
                } else {
                    true
                }
            },
            Message::DeleteEntity => {
                let cursor = self.cursor;
                self.grid.remove_entity(&cursor);
                true
            },
            Message::SwitchInputMode(mode) => {
                self.input_mode = *mode;
                true
            },
            Message::JumpSetting(amount) => {
                match (self.input_mode, self.settings) {
                    (InputMode::Edit(pos), Some(len)) => {
                        let start: i32 = (pos + len) as i32 + *amount;
                        let new_pos: i32 = start % (len as i32);
                        self.input_mode = InputMode::Edit(new_pos as usize);
                    },
                    _ => {},
                }
                true
            },
        }
    }
}

} // verus!
