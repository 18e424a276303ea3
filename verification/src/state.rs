//! The state of the terminal sequencer and what its messages do to it.
//! Loading a track reads a file, so the message that asks for one is
//! answered with the path to load; the caller hands back the track or the
//! error.
use crate::text::push_char;
use crate::stream::is_default;
use crate::track::Track;
use crate::ui::state::{spec_readable, ArgCommand, SimpleCommand};
use vstd::prelude::*;

verus! {

/// The input modes of the terminal front end.
#[derive(Debug, Clone, Copy, PartialEq, Eq, Structural)]
pub enum Mode {
    Normal,
    Input,
}

/// Flags raised for the main loop.
#[derive(Debug, PartialEq, Eq, Structural)]
pub enum Flag {
    Quit,
}

/// A cursor position or a step of the cursor, as `(x, y)`.
pub type Position = (i32, i32);

/// A request to the sequencer state.
#[derive(Debug)]
pub enum Message {
    SetMode(Mode),
    Move(Position),
    RunSimpleCommand(SimpleCommand),
    RunCommand(ArgCommand, Vec<i32>),
}

/// The ghost form of a message, the argument of a command as a sequence.
pub enum MessageView {
    SetMode(Mode),
    Move(Position),
    RunSimpleCommand(SimpleCommand),
    RunCommand(ArgCommand, Seq<i32>),
}

impl View for Message {
    type V = MessageView;

    open spec fn view(&self) -> MessageView {
        match self {
            Message::SetMode(m) => MessageView::SetMode(*m),
            Message::Move(p) => MessageView::Move(*p),
            Message::RunSimpleCommand(c) => MessageView::RunSimpleCommand(*c),
            Message::RunCommand(c, input) => MessageView::RunCommand(*c, input@),
        }
    }
}

/// The sequencer: its audio settings, the cursor and the view, the
/// tracks, the input mode, the raised flags and the last error.
pub struct State<T> {
    pub buffer_size: usize,
    pub channels: usize,
    pub sample_rate: usize,
    pub cursor_pos: Position,
    pub view_pos: Position,
    pub tracks: Vec<Track<T>>,
    pub mode: Mode,
    pub flags: Vec<Flag>,
    pub error_message: Option<String>,
}

/// Whether `message` can be handled without overflow: a move keeps the
/// cursor within `i32`.
pub open spec fn message_defined<T>(s: State<T>, message: MessageView) -> bool {
    match message {
        MessageView::Move((dx, dy)) => {
            &&& i32::MIN <= s.cursor_pos.0 + dx <= i32::MAX
            &&& i32::MIN <= s.cursor_pos.1 + dy <= i32::MAX
        },
        _ => true,
    }
}

impl<T> State<T> {
    /// A state in normal mode, the cursor and the view at the origin, with
    /// no track, no flag and no error.
    pub fn new(buffer_size: usize, channels: usize, sample_rate: usize) -> (s: Self)
        ensures
            s.buffer_size == buffer_size,
            s.channels == channels,
            s.sample_rate == sample_rate,
            s.cursor_pos == (0i32, 0i32),
            s.view_pos == (0i32, 0i32),
            s.tracks@.len() == 0,
            s.mode == Mode::Normal,
            s.flags@.len() == 0,
            s.error_message is None,
    {
        State {
            buffer_size,
            channels,
            sample_rate,
            cursor_pos: (0, 0),
            view_pos: (0, 0),
            tracks: Vec::new(),
            mode: Mode::Normal,
            flags: Vec::new(),
            error_message: None,
        }
    }

    /// Whether only the mode, the cursor and the flags may differ from
    /// `before`.
    pub open spec fn keeps_data(&self, before: State<T>) -> bool {
        &&& self.buffer_size == before.buffer_size
        &&& self.channels == before.channels
        &&& self.sample_rate == before.sample_rate
        &&& self.view_pos == before.view_pos
        &&& self.tracks == before.tracks
        &&& self.error_message == before.error_message
    }

    /// Carries out `message`. A command to add a track returns the path of
    /// the file to load, spelled by the key codes of its argument; see
    /// `add_track` and `report_error`.
    pub fn handle_message(&mut self, message: Message) -> (path: Option<String>)
        requires
            message_defined(*old(self), message@),
        ensures
            final(self).keeps_data(*old(self)),
            match message@ {
                MessageView::SetMode(mode) => {
                    &&& final(self).mode == mode
                    &&& final(self).cursor_pos == old(self).cursor_pos
                    &&& final(self).flags == old(self).flags
                    &&& path is None
                },
                MessageView::RunSimpleCommand(SimpleCommand::Quit) => {
                    &&& final(self).mode == Mode::Normal
                    &&& final(self).cursor_pos == old(self).cursor_pos
                    &&& final(self).flags@ == old(self).flags@.push(Flag::Quit)
                    &&& path is None
                },
                MessageView::RunCommand(ArgCommand::AddTrack, input) => {
                    &&& final(self).mode == Mode::Normal
                    &&& final(self).cursor_pos == old(self).cursor_pos
                    &&& final(self).flags == old(self).flags
                    &&& path matches Some(p) && p@ == spec_readable(input)
                },
                MessageView::Move((dx, dy)) => {
                    &&& final(self).mode == old(self).mode
                    &&& final(self).cursor_pos == ((old(self).cursor_pos.0 + dx) as i32, (old(self).cursor_pos.1 + dy) as i32)
                    &&& final(self).flags == old(self).flags
                    &&& path is None
                },
            },
    {
        match message {
            Message::SetMode(mode) => {
                self.mode = mode;
                None
            },
            Message::RunSimpleCommand(command) => {
                self.handle_simple_command(&command);
                self.mode = Mode::Normal;
                None
            },
            Message::RunCommand(command, input) => {
                let path = self.handle_arg_command(&command, &input);
                self.mode = Mode::Normal;
                Some(path)
            },
            Message::Move(pos) => {
                let (delta_x, delta_y) = pos;
                let (x, y) = self.cursor_pos;
                self.cursor_pos = (x + delta_x, y + delta_y);
                None
            },
        }
    }

    /// Raises the flag that the command asks for.
    pub fn handle_simple_command(&mut self, command: &SimpleCommand)
        ensures
            final(self).keeps_data(*old(self)),
            final(self).mode == old(self).mode,
            final(self).cursor_pos == old(self).cursor_pos,
            final(self).flags@ == old(self).flags@.push(Flag::Quit),
    {
        match command {
            SimpleCommand::Quit => self.flags.push(Flag::Quit),
        }
    }

    /// The path that a command to add a track names: each key code of
    /// `input` cut to its low byte, as a character.
    pub fn handle_arg_command(&self, command: &ArgCommand, input: &Vec<i32>) -> (path: String)
        ensures
            path@ == spec_readable(input@),
    {
        match command {
            ArgCommand::AddTrack => {
                let mut path = String::new();
                let mut i: usize = 0;
                while i < input.len()
                    invariant
                        i <= input@.len(),
                        path@ == spec_readable(input@.take(i as int)),
                    decreases input@.len() - i,
                {
                    proof {
                        assert(spec_readable(input@.take(i + 1)) =~= spec_readable(input@.take(i as int)).push(
                            (input@[i as int] as u8) as char,
                        ));
                    }
                    push_char(&mut path, (input[i] as u8) as char);
                    i = i + 1;
                }
                proof {
                    assert(input@.take(input@.len() as int) =~= input@);
                }
                path
            },
        }
    }

    /// Adds a track loaded for a command: sized to the state's buffer and
    /// placed at the cursor, after the other tracks.
    pub fn add_track(&mut self, track: Track<T>)
        where T: Copy + Default,
        ensures
            final(self).tracks@.len() == old(self).tracks@.len() + 1,
            final(self).tracks@.take(old(self).tracks@.len() as int) == old(self).tracks@,
            ({
                let t = final(self).tracks@.last();
                &&& t.position == old(self).cursor_pos
                &&& t.buffer.samples@.len() == old(self).buffer_size
                &&& t.buffer.channels == track.buffer.channels
                &&& forall|i: int| 0 <= i < t.buffer.samples@.len() && i < track.buffer.samples@.len() ==> #[trigger] t.buffer.samples@[i] == track.buffer.samples@[i]
                &&& forall|i: int| track.buffer.samples@.len() <= i < t.buffer.samples@.len() ==> is_default(#[trigger] t.buffer.samples@[i])
                &&& match (track.sample, t.sample) {
                    (Some(a), Some(b)) => {
                        &&& b.buffer.samples@.len() == old(self).buffer_size
                        &&& b.buffer.channels == a.buffer.channels
                        &&& b.name == a.name
                        &&& b.stream == a.stream
                        &&& b.position == a.position
                        &&& b.play_style == a.play_style
                    },
                    (None, None) => true,
                    _ => false,
                }
            }),
            final(self).mode == old(self).mode,
            final(self).cursor_pos == old(self).cursor_pos,
            final(self).flags == old(self).flags,
            final(self).error_message == old(self).error_message,
    {
        let mut track = track;
        track.set_buffer_size(self.buffer_size);
        track.set_position(self.cursor_pos);
        self.tracks.push(track);
        proof {
            assert(self.tracks@.take(old(self).tracks@.len() as int) =~= old(self).tracks@);
        }
    }

    /// Shows why a track could not be loaded.
    pub fn report_error(&mut self, message: String)
        ensures
            final(self).error_message == Some(message),
            final(self).tracks == old(self).tracks,
            final(self).mode == old(self).mode,
            final(self).cursor_pos == old(self).cursor_pos,
            final(self).flags == old(self).flags,
    {
        self.error_message = Some(message);
    }
}

} // verus!
