use grid_sequencer::sample::Sample;
use grid_sequencer::state::{Flag, Message, Mode, State};
use grid_sequencer::stream::Stream;
use grid_sequencer::track::Track;
use grid_sequencer::ui::state::{
    get_multiplier, handle_input, handle_input_mode_input, handle_input_mode_normal, ArgCommand, Command,
    InputState, SimpleCommand,
};
use grid_sequencer::ui::{decimal_string, draw_error_message, draw_input_mode, draw_track, draw_user_message, TextView};

fn codes(text: &str) -> Vec<i32> {
    text.bytes().map(|b| b as i32).collect()
}

#[test]
fn commands_are_read_from_key_codes() {
    assert!(matches!(Command::try_from(&codes("q")), Ok(Command::Simple(SimpleCommand::Quit))));
    assert!(matches!(Command::try_from(&codes("qa!")), Ok(Command::Simple(SimpleCommand::Quit))));
    assert!(matches!(Command::try_from(&codes("exit")), Ok(Command::Simple(SimpleCommand::Quit))));
    assert!(matches!(Command::try_from(&codes("add_track")), Ok(Command::Arg(ArgCommand::AddTrack))));
    match Command::try_from(&codes("x")) {
        Err(e) => assert!(e.starts_with("unknown command: ")),
        Ok(_) => panic!("x is no command"),
    }
    assert_eq!(ArgCommand::AddTrack.get_user_message(), "path to file");
}

#[test]
fn multipliers_are_decimal_counts() {
    assert_eq!(get_multiplier(&codes("12")), Ok(12));
    assert_eq!(get_multiplier(&codes("-3")), Ok(-3));
    assert!(get_multiplier(&codes("")).unwrap_err().starts_with("can't get input multiplier E:"));
    assert!(get_multiplier(&codes("1a")).is_err());
    assert!(get_multiplier(&codes("99999999999")).is_err());
}

#[test]
fn normal_mode_moves_by_counts() {
    let mut input = InputState::new();
    input.input_buffer = codes("3h");
    assert!(matches!(handle_input_mode_normal(&mut input), Some(Message::Move((-3, 0)))));
    assert!(input.input_buffer.is_empty());
    input.input_buffer = codes("j");
    assert!(matches!(handle_input_mode_normal(&mut input), Some(Message::Move((0, 1)))));
    input.input_buffer = codes("x2");
    assert!(handle_input_mode_normal(&mut input).is_none());
    assert_eq!(input.input_buffer, codes("x2"));
    input.input_buffer = vec![50, 27];
    assert!(handle_input_mode_normal(&mut input).is_none());
    assert!(input.input_buffer.is_empty());
    input.input_buffer = codes(":");
    assert!(matches!(handle_input_mode_normal(&mut input), Some(Message::SetMode(Mode::Input))));
}

#[test]
fn input_mode_runs_commands() {
    let mut input = InputState::new();
    input.input_buffer = codes("add_track\n");
    assert!(handle_input_mode_input(&mut input).is_none());
    assert_eq!(input.user_message.as_deref(), Some("path to file"));
    assert!(matches!(input.active_command, Some(ArgCommand::AddTrack)));
    input.input_buffer = codes("a.wav\n");
    match handle_input_mode_input(&mut input) {
        Some(Message::RunCommand(ArgCommand::AddTrack, arg)) => assert_eq!(arg, codes("a.wav")),
        _ => panic!("expected the command to run"),
    }
    assert!(input.active_command.is_none());
    assert!(input.input_buffer.is_empty());

    input.input_buffer = codes("ab");
    input.input_buffer.push(127);
    assert!(handle_input_mode_input(&mut input).is_none());
    assert_eq!(input.input_buffer, codes("a"));

    input.input_buffer = codes("zz\n");
    assert!(matches!(handle_input_mode_input(&mut input), Some(Message::SetMode(Mode::Normal))));
    assert_eq!(input.user_message.as_deref(), Some("uknown command"));

    input.input_buffer = codes("q\n");
    assert!(matches!(handle_input_mode_input(&mut input), Some(Message::RunSimpleCommand(SimpleCommand::Quit))));

    input.input_buffer = vec![3];
    assert!(matches!(handle_input_mode_input(&mut input), Some(Message::SetMode(Mode::Normal))));
}

#[test]
fn input_follows_the_mode() {
    let mut state: State<f32> = State::new(16, 2, 44_100);
    let mut input = InputState::new();
    input.input_buffer = codes("k");
    assert!(matches!(handle_input(&mut input, &state), Some(Message::Move((0, -1)))));
    state.mode = Mode::Input;
    input.input_buffer = vec![27];
    assert!(matches!(handle_input(&mut input, &state), Some(Message::SetMode(Mode::Normal))));
}

#[test]
fn messages_change_the_state() {
    let mut state: State<f32> = State::new(4, 1, 44_100);
    assert_eq!(state.mode, Mode::Normal);
    assert_eq!(state.handle_message(Message::SetMode(Mode::Input)), None);
    assert_eq!(state.mode, Mode::Input);
    state.handle_message(Message::Move((2, -3)));
    assert_eq!(state.cursor_pos, (2, -3));
    assert_eq!(state.handle_message(Message::RunSimpleCommand(SimpleCommand::Quit)), None);
    assert_eq!(state.flags, vec![Flag::Quit]);
    assert_eq!(state.mode, Mode::Normal);
    state.mode = Mode::Input;
    let path = state.handle_message(Message::RunCommand(ArgCommand::AddTrack, codes("kick.wav")));
    assert_eq!(path.as_deref(), Some("kick.wav"));
    assert_eq!(state.mode, Mode::Normal);
}

#[test]
fn loaded_tracks_join_at_the_cursor() {
    let mut state: State<f32> = State::new(3, 1, 44_100);
    state.handle_message(Message::Move((5, 6)));
    let mut track = Track::new(1);
    track.add_sample(Sample::new("s".to_owned(), Stream::from_samples(vec![0.5, 0.25], 1)));
    state.add_track(track);
    assert_eq!(state.tracks.len(), 1);
    assert_eq!(state.tracks[0].position, (5, 6));
    assert_eq!(state.tracks[0].buffer.samples.len(), 3);
    assert_eq!(state.tracks[0].sample.as_ref().unwrap().buffer.samples.len(), 3);
    state.report_error(String::from("no such file"));
    assert_eq!(state.error_message.as_deref(), Some("no such file"));
}

#[test]
fn numbers_are_written_in_decimal() {
    assert_eq!(decimal_string(0), "0");
    assert_eq!(decimal_string(7), "7");
    assert_eq!(decimal_string(10), "10");
    assert_eq!(decimal_string(44_100), "44100");
    assert_eq!(decimal_string(usize::MAX), usize::MAX.to_string());
}

fn text(v: TextView) -> String {
    v.string
}

#[test]
fn views_label_tracks_and_messages() {
    let track: Track<f32> = Track::new(2);
    assert_eq!(text(draw_track(&track, "x")), "T -");
    let mut sample = Sample::new("s".to_owned(), Stream::from_samples(vec![0.0f32; 4 * 44_100], 2));
    sample.position = 2 * 44_100;
    let mut track = Track::new(2);
    track.add_sample(sample);
    assert_eq!(text(draw_track(&track, "▃")), "T s[1/2] ▃");
    assert_eq!(text(draw_error_message("bad file")), "error: bad file");
    assert_eq!(text(draw_user_message("path to file")), "> path to file");
    assert_eq!(text(draw_input_mode(&codes("3j"), &Mode::Normal)), "normal 3j");
    assert_eq!(text(draw_input_mode(&codes("q"), &Mode::Input)), ":q");
    let mut view = draw_user_message("");
    view.set_bold();
    assert_eq!(view.attributes.len(), 1);
}
