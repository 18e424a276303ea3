use grid_sequencer::app::command::Command;
use grid_sequencer::app::grid::rect::Rect as SizedRect;
use grid_sequencer::app::grid::{Grid, GridPosition, Position};
use grid_sequencer::app::input_state::{Input, InputMode, InputState};
use grid_sequencer::app::keys::keys_readable;
use grid_sequencer::app::message::{get_mult, Message};
use grid_sequencer::app::grid::entity::{connections, GridEntity};
use grid_sequencer::app::state::State;
use grid_sequencer::sim::audio::{new_engine, SOURCES};
use screech::{BasicTracker, Screech};

#[test]
fn key_codes_name_commands() {
    assert!(matches!(Command::from_key_codes(&[27]), Some(Command::ClearInput)));
    assert!(matches!(Command::from_key_codes(&[1, 17, 219]), Some(Command::ClearInput)));
    match Command::from_key_codes(&[72]) {
        Some(Command::Move(p)) => assert_eq!((p.x, p.y), (-1, 0)),
        _ => panic!("expected a move"),
    }
    match Command::from_key_codes(&[40]) {
        Some(Command::Move(p)) => assert_eq!((p.x, p.y), (0, 1)),
        _ => panic!("expected a move"),
    }
    assert!(matches!(Command::from_key_codes(&[16, 79]), Some(Command::AddOscillator)));
    assert!(matches!(Command::from_key_codes(&[68, 68]), Some(Command::DeleteOscillator)));
    assert!(Command::from_key_codes(&[68]).is_none());
    assert!(Command::from_key_codes(&[]).is_none());
}

#[test]
fn grid_position_moves_in_place() {
    let mut p = GridPosition::new(2, 3);
    p.add(&GridPosition::new(-1, 4)).add(&GridPosition::new(1, 1));
    assert_eq!((p.x, p.y), (2, 8));
    p.move_to(&GridPosition::new(0, 0));
    assert_eq!((p.x, p.y), (0, 0));
}

#[test]
fn sized_rect_includes_its_far_edges() {
    let r = SizedRect::new(2, 3, Position::new(1, 1));
    assert!(r.intersects_position(&Position::new(1, 1)));
    assert!(r.intersects_position(&Position::new(3, 4)));
    assert!(!r.intersects_position(&Position::new(4, 4)));
    assert!(!r.intersects_position(&Position::new(0, 2)));
}

#[test]
fn inputs_print_as_characters() {
    assert_eq!(Input::C('x').to_char(), 'x');
    assert_eq!(Input::Enter.to_char(), '¬');
    assert_eq!(Input::Tab.to_char(), '>');
    assert_eq!(InputMode::Insert.get_prompt(), "INS");
    assert_eq!(InputMode::Edit(3).get_prompt(), "EDT");
    assert_eq!(InputMode::Command.get_prompt(), "");
}

#[test]
fn counts_weigh_digits_by_place() {
    assert_eq!(get_mult(&[Input::C('5'), Input::C('h')]), 5);
    assert_eq!(get_mult(&[Input::C('1'), Input::C('2'), Input::C('j')]), 12);
    assert_eq!(get_mult(&[Input::C('j')]), 0);
    assert_eq!(get_mult(&[]), 0);
}

fn drain(state: &mut InputState) -> Vec<Message> {
    state.drain_messages()
}

#[test]
fn typing_moves_with_counts() {
    let mut state = InputState::new();
    state.handle_keydown(Input::C('3'));
    let first = drain(&mut state);
    assert_eq!(first.len(), 1);
    assert!(matches!(&first[0], Message::SetInput(s) if s == "3"));
    state.handle_keydown(Input::C('l'));
    let second = drain(&mut state);
    assert_eq!(second.len(), 1);
    assert!(matches!(second[0], Message::Move(p) if p == Position::new(3, 0)));
}

#[test]
fn insert_mode_adds_steps() {
    let mut state = InputState::new();
    state.handle_keydown(Input::C('i'));
    assert!(matches!(state.mode, InputMode::Insert));
    state.drain_messages();
    state.handle_keydown(Input::C('.'));
    let ms = state.drain_messages();
    assert_eq!(ms.len(), 2);
    assert!(matches!(ms[0], Message::AddStep));
    assert!(matches!(ms[1], Message::MoveToEmpty));
    state.handle_keydown(Input::Escape);
    assert!(matches!(state.mode, InputMode::Command));
}

#[test]
fn shift_and_control_are_held() {
    let mut state = InputState::new();
    state.handle_keydown(Input::Shift);
    assert!(state.shift);
    state.handle_keydown(Input::C('G'));
    let ms = state.drain_messages();
    assert!(matches!(ms.last(), Some(Message::MoveTo(p)) if *p == Position::new(1000, 1000)));
    state.handle_keyup(Input::Shift);
    assert!(!state.shift);
    state.handle_keydown(Input::Control);
    state.handle_keydown(Input::C('d'));
    let ms = state.drain_messages();
    assert!(matches!(ms.last(), Some(Message::Move(p)) if *p == Position::new(0, 8)));
}

#[test]
fn edit_mode_jumps_between_settings() {
    let mut state = InputState::new();
    state.handle_keydown(Input::Tab);
    assert!(matches!(state.mode, InputMode::Edit(0)));
    state.drain_messages();
    state.handle_keydown(Input::Tab);
    let ms = state.drain_messages();
    assert!(matches!(ms.last(), Some(Message::JumpSetting(1))));
    state.handle_keydown(Input::Enter);
    let ms = state.drain_messages();
    assert!(matches!(ms.last(), Some(Message::ProcessInput)));
}

#[test]
fn grid_holds_entities_by_cell() {
    let mut grid: Grid<&str> = Grid::new();
    assert_eq!((grid.rect.width, grid.rect.height), (33, 17));
    let p = Position::new(3, 4);
    assert!(grid.is_empty(&p));
    grid.add_entity(&p, "step");
    assert!(!grid.is_empty(&p));
    assert_eq!(grid.get_entity(&p), Some(&"step"));
    assert_eq!(grid.get_entity(&Position::new(4, 3)), None);
    grid.add_entity(&Position::new(-7, i32::MIN), "far");
    assert_eq!(grid.get_entity(&Position::new(-7, i32::MIN)), Some(&"far"));
    grid.remove_entity(&p);
    assert!(grid.is_empty(&p));
    assert_eq!(grid.entities.len(), 1);
}

#[test]
fn nearest_empty_cell_wraps_rows() {
    let mut grid: Grid<u8> = Grid::new();
    assert_eq!(grid.find_nearest_empty(&Position::new(5, 5)), Position::new(5, 5));
    grid.add_entity(&Position::new(5, 5), 1);
    grid.add_entity(&Position::new(6, 5), 2);
    assert_eq!(grid.find_nearest_empty(&Position::new(5, 5)), Position::new(7, 5));
    grid.add_entity(&Position::new(32, 2), 3);
    assert_eq!(grid.find_nearest_empty(&Position::new(32, 2)), Position::new(0, 3));
    grid.add_entity(&Position::new(32, 15), 4);
    assert_eq!(grid.find_nearest_empty(&Position::new(32, 15)), Position::new(0, 0));
    grid.add_entity(&Position::new(32, 16), 5);
    assert_eq!(grid.find_nearest_empty(&Position::new(32, 16)), Position::new(0, 0));
}

#[test]
fn neighbours_come_north_east_south_west() {
    let mut grid: Grid<u8> = Grid::new();
    let p = Position::new(4, 4);
    assert!(grid.neighbours(&p).is_empty());
    grid.add_entity(&Position::new(3, 4), 1);
    grid.add_entity(&Position::new(4, 3), 2);
    grid.add_entity(&Position::new(5, 5), 3);
    assert_eq!(grid.neighbours(&p), vec![Position::new(4, 3), Position::new(3, 4)]);
}

/// A state and an engine whose tracker keeps eight sources.
fn engine() -> (State, Screech) {
    let tracker = Box::new(BasicTracker::<8>::new(4));
    (State::new(), Screech::with_tracker(tracker, 48_000))
}

fn run(state: &mut State, screech: &mut Screech, message: Message) -> bool {
    state.process_message(&message, screech, 8)
}

#[test]
fn state_moves_the_cursor_within_the_grid() {
    let (mut state, mut screech) = engine();
    assert!(run(&mut state, &mut screech, Message::MoveTo(Position::new(1000, 1000))));
    assert_eq!(state.cursor, Position::new(32, 16));
    run(&mut state, &mut screech, Message::Move(Position::new(-10000, 1)));
    assert_eq!(state.cursor, Position::new(0, 16));
    run(&mut state, &mut screech, Message::Move(Position::new(3, -4)));
    assert_eq!(state.cursor, Position::new(3, 12));
}

#[test]
fn state_adds_entities_on_empty_cells() {
    let (mut state, mut screech) = engine();
    run(&mut state, &mut screech, Message::MoveTo(Position::new(2, 2)));
    assert!(run(&mut state, &mut screech, Message::AddStep));
    match state.grid.get_entity(&Position::new(2, 2)) {
        Some(GridEntity::Step(s)) => assert_eq!(s.get_position(), Position::new(2, 2)),
        _ => panic!("expected a step"),
    }
    assert!(run(&mut state, &mut screech, Message::AddTrigger));
    assert!(matches!(state.grid.get_entity(&Position::new(2, 2)), Some(GridEntity::Step(_))));
    assert_eq!(state.grid.entities.len(), 1);
    run(&mut state, &mut screech, Message::UpdatePrompt);
    assert_eq!(state.prompt, "step");
    assert_eq!(state.settings, Some(0));
    run(&mut state, &mut screech, Message::MoveToEmpty);
    assert_eq!(state.cursor, Position::new(3, 2));
    assert_eq!(state.prompt, "");
    assert_eq!(state.settings, None);
    run(&mut state, &mut screech, Message::MoveTo(Position::new(2, 2)));
    assert_eq!(state.prompt, "step");
    run(&mut state, &mut screech, Message::DeleteEntity);
    assert!(state.grid.is_empty(&Position::new(2, 2)));
    assert!(run(&mut state, &mut screech, Message::AddTrigger));
    assert!(matches!(state.grid.get_entity(&Position::new(2, 2)), Some(GridEntity::Trigger(_))));
    run(&mut state, &mut screech, Message::UpdatePrompt);
    assert_eq!(state.settings, Some(2));
}

#[test]
fn state_joins_neighbours() {
    let (mut state, mut screech) = engine();
    run(&mut state, &mut screech, Message::MoveTo(Position::new(4, 3)));
    run(&mut state, &mut screech, Message::AddTrigger);
    run(&mut state, &mut screech, Message::MoveTo(Position::new(4, 4)));
    run(&mut state, &mut screech, Message::AddStep);
    run(&mut state, &mut screech, Message::MoveTo(Position::new(5, 4)));
    run(&mut state, &mut screech, Message::AddStep);
    let trigger_out = match state.grid.get_entity(&Position::new(4, 3)) {
        Some(GridEntity::Trigger(t)) => t.get_output(),
        _ => panic!("expected a trigger"),
    };
    let (first_out, first_in) = match state.grid.get_entity(&Position::new(4, 4)) {
        Some(GridEntity::Step(s)) => (s.get_output(), s.get_input()),
        _ => panic!("expected a step"),
    };
    let second_in = match state.grid.get_entity(&Position::new(5, 4)) {
        Some(GridEntity::Step(s)) => s.get_input(),
        _ => panic!("expected a step"),
    };
    assert_eq!(connections(&state.grid, &Position::new(4, 4)), vec![(trigger_out, first_in), (first_out, second_in)]);
    assert_eq!(connections(&state.grid, &Position::new(5, 4)), vec![(first_out, second_in)]);
    assert_eq!(connections(&state.grid, &Position::new(4, 3)), vec![(trigger_out, first_in)]);
    assert!(connections(&state.grid, &Position::new(9, 9)).is_empty());
}

#[test]
fn a_full_tracker_adds_nothing() {
    let tracker = Box::new(BasicTracker::<2>::new(4));
    let mut screech: Screech = Screech::with_tracker(tracker, 48_000);
    let mut state = State::new();
    assert!(state.process_message(&Message::AddStep, &mut screech, 2));
    state.process_message(&Message::MoveTo(Position::new(1, 0)), &mut screech, 2);
    assert!(!state.process_message(&Message::AddStep, &mut screech, 2));
    assert!(state.grid.is_empty(&Position::new(1, 0)));
    assert_eq!(state.grid.entities.len(), 1);
}

#[test]
fn state_keeps_the_typed_input() {
    let (mut state, mut screech) = engine();
    run(&mut state, &mut screech, Message::SetInput(String::from("12")));
    assert_eq!(state.input, "12");
    run(&mut state, &mut screech, Message::ClearInput);
    assert_eq!(state.input, "");
    run(&mut state, &mut screech, Message::ProcessInput);
    assert_eq!(state.cursor, Position::new(0, 0));
}

#[test]
fn state_jumps_between_settings() {
    let (mut state, mut screech) = engine();
    run(&mut state, &mut screech, Message::SwitchInputMode(InputMode::Edit(0)));
    run(&mut state, &mut screech, Message::JumpSetting(1));
    assert!(matches!(state.input_mode, InputMode::Edit(0)));
    state.settings = Some(3);
    run(&mut state, &mut screech, Message::JumpSetting(1));
    assert!(matches!(state.input_mode, InputMode::Edit(1)));
    run(&mut state, &mut screech, Message::JumpSetting(-1));
    run(&mut state, &mut screech, Message::JumpSetting(-1));
    assert!(matches!(state.input_mode, InputMode::Edit(2)));
    run(&mut state, &mut screech, Message::JumpSetting(2));
    assert!(matches!(state.input_mode, InputMode::Edit(1)));
    run(&mut state, &mut screech, Message::JumpSetting(-5));
    assert!(matches!(state.input_mode, InputMode::Edit(n) if n == (-1i32) as usize));
}

#[test]
fn keys_are_checked_before_they_are_read() {
    let mut keys: Vec<Input> = "4294967295".chars().map(Input::C).collect();
    keys.push(Input::C('l'));
    assert!(keys_readable(InputMode::Command, false, false, &keys));
    let mut too_big: Vec<Input> = "4294967296".chars().map(Input::C).collect();
    too_big.push(Input::C('l'));
    assert!(!keys_readable(InputMode::Command, false, false, &too_big));
    let mut too_long: Vec<Input> = "00000000001".chars().map(Input::C).collect();
    too_long.push(Input::C('j'));
    assert!(!keys_readable(InputMode::Command, false, false, &too_long));
    let mut negated_min: Vec<Input> = "2147483648".chars().map(Input::C).collect();
    negated_min.push(Input::C('h'));
    assert!(!keys_readable(InputMode::Command, false, false, &negated_min));
    negated_min.pop();
    negated_min.push(Input::C('l'));
    assert!(keys_readable(InputMode::Command, false, false, &negated_min));
    assert!(keys_readable(InputMode::Insert, false, false, &too_big));
    assert!(keys_readable(InputMode::Command, true, false, &too_big));
}

#[test]
fn key_presses_are_checked_before_they_are_read() {
    let mut state = InputState::new();
    for c in "999999999".chars() {
        assert!(state.accepts_keydown(Input::C(c)));
        state.handle_keydown(Input::C(c));
    }
    assert!(state.accepts_keydown(Input::C('l')));
    state.handle_keydown(Input::C('9'));
    assert!(!state.accepts_keydown(Input::C('l')));
    assert!(state.accepts_keydown(Input::Backspace));
}

#[test]
fn placing_uses_the_source_id_it_is_given() {
    let (mut state, mut screech) = engine();
    state.cursor = Position::new(4, 4);
    assert!(state.place_step(&mut screech, 3, 8));
    match state.grid.get_entity(&Position::new(4, 4)) {
        Some(GridEntity::Step(s)) => {
            assert_eq!(*s.get_source_id(), 3);
            assert_eq!(s.get_position(), Position::new(4, 4));
        }
        _ => panic!("expected a step"),
    }
    state.cursor = Position::new(5, 4);
    assert!(!state.place_trigger(&mut screech, 8, 8));
    assert!(state.grid.is_empty(&Position::new(5, 4)));
    assert!(state.place_trigger(&mut screech, 6, 8));
    match state.grid.get_entity(&Position::new(5, 4)) {
        Some(GridEntity::Trigger(t)) => assert_eq!(*t.get_source_id(), 6),
        _ => panic!("expected a trigger"),
    }
    assert_eq!(state.grid.entities.len(), 2);
    let joined = connections(&state.grid, &Position::new(5, 4));
    assert_eq!(joined.len(), 0);
    let joined = connections(&state.grid, &Position::new(4, 4));
    assert_eq!(joined.len(), 0);
}

#[test]
fn a_step_east_of_a_trigger_takes_its_output() {
    let (mut state, mut screech) = engine();
    state.cursor = Position::new(1, 1);
    assert!(state.place_trigger(&mut screech, 2, 8));
    state.cursor = Position::new(2, 1);
    assert!(state.place_step(&mut screech, 5, 8));
    let joined = connections(&state.grid, &Position::new(2, 1));
    assert_eq!(joined.len(), 1);
    assert_eq!(*joined[0].0.get_source_id(), 2);
    assert_eq!(*joined[0].1.get_source_id(), 5);
    assert_eq!(joined[0].1.get_signal_id(), "input");
}

#[test]
fn a_new_engine_takes_steps_on_empty_cells() {
    let mut screech = new_engine(48_000, 256);
    let mut state = State::new();
    assert!(state.process_message(&Message::AddStep, &mut screech, SOURCES));
    match state.grid.get_entity(&Position::new(0, 0)) {
        Some(GridEntity::Step(s)) => assert_eq!(*s.get_source_id(), 1),
        _ => panic!("expected a step"),
    }
    state.process_message(&Message::MoveTo(Position::new(0, 1)), &mut screech, SOURCES);
    assert!(state.process_message(&Message::AddTrigger, &mut screech, SOURCES));
    match state.grid.get_entity(&Position::new(0, 1)) {
        Some(GridEntity::Trigger(t)) => assert_eq!(*t.get_source_id(), 2),
        _ => panic!("expected a trigger"),
    }
    let joined = connections(&state.grid, &Position::new(0, 1));
    assert_eq!(joined.len(), 0);
    let joined = connections(&state.grid, &Position::new(0, 0));
    assert_eq!(joined.len(), 0);
}
