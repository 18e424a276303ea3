//! Reading the keys typed in the terminal: motions with counts in normal
//! mode, commands after `:` in input mode.
use crate::state::{Message, MessageView, Mode, State};
use crate::text::push_char;
use std::num::ParseIntError;
use vstd::prelude::*;

verus! {

/// A command typed after `:`.
#[derive(Debug, Clone, Copy)]
pub enum Command {
    Simple(SimpleCommand),
    Arg(ArgCommand),
}

/// A command that runs as soon as it is entered.
#[derive(Debug, Clone, Copy, PartialEq, Eq, Structural)]
pub enum SimpleCommand {
    Quit,
}

/// A command that asks for an argument before it runs.
#[derive(Debug, Clone, Copy, PartialEq, Eq, Structural)]
pub enum ArgCommand {
    AddTrack,
}

impl ArgCommand {
    /// The question asked for the command's argument.
    pub fn get_user_message(&self) -> (s: String)
        ensures
            s@ == "path to file"@,
    {
        match self {
            ArgCommand::AddTrack => String::from_str("path to file"),
        }
    }
}

/// The key codes read as text: each code cut to its low byte, as a character.
pub open spec fn spec_readable(input: Seq<i32>) -> Seq<char> {
    input.map_values(|c: i32| (c as u8) as char)
}

/// The command that the text names, if any.
pub open spec fn spec_command(text: Seq<char>) -> Option<Command> {
    if text == "q"@ || text == "qa"@ || text == "qa!"@ || text == "q!"@ || text == "exit"@ {
        Some(Command::Simple(SimpleCommand::Quit))
    } else if text == "add_track"@ {
        Some(Command::Arg(ArgCommand::AddTrack))
    } else {
        None
    }
}

/// The message of a command that is unknown (`format!`): it starts with
/// `unknown command: ` and lists the key codes; only the start is stated.
#[verifier::external_body]
fn unknown_command_message(input: &[i32]) -> (s: String)
    ensures
        "unknown command: "@.is_prefix_of(s@),
{
    format!("unknown command: {:?}", input)
}

fn readable_is(input: &[i32], text: &str) -> (r: bool)
    requires
        text.is_ascii(),
    ensures
        r == (spec_readable(input@) == text@),
{
    let n = text.unicode_len();
    if input.len() != n {
        return false;
    }
    let mut i: usize = 0;
    while i < n
        invariant
            n == text@.len(),
            n == input@.len(),
            text.is_ascii(),
            i <= n,
            forall|k: int| 0 <= k < i ==> ((input@[k] as u8) as char) == text@[k],
        decreases n - i,
    {
        let c = text.get_char(i);
        if ((input[i] as u8) as char) != c {
            assert(spec_readable(input@)[i as int] != text@[i as int]);
            return false;
        }
        i = i + 1;
    }
    assert(spec_readable(input@) =~= text@);
    true
}

impl Command {
    /// Reads the command that the key codes spell.
    pub fn try_from(input: &[i32]) -> (r: Result<Self, String>)
        ensures
            match r {
                Ok(c) => spec_command(spec_readable(input@)) == Some(c),
                Err(e) => spec_command(spec_readable(input@)) is None && "unknown command: "@.is_prefix_of(e@),
            },
    {
        proof {
            reveal_strlit("q");
            reveal_strlit("qa");
            reveal_strlit("qa!");
            reveal_strlit("q!");
            reveal_strlit("exit");
            reveal_strlit("add_track");
        }
        if readable_is(input, "q") || readable_is(input, "qa") || readable_is(input, "qa!")
            || readable_is(input, "q!") || readable_is(input, "exit") {
            Ok(Command::Simple(SimpleCommand::Quit))
        } else if readable_is(input, "add_track") {
            Ok(Command::Arg(ArgCommand::AddTrack))
        } else {
            Err(unknown_command_message(input))
        }
    }
}

/// The error of `str::parse::<i32>`, carried through opaque.
#[verifier::external_type_specification]
#[verifier::external_body]
pub struct ExParseIntError(ParseIntError);

pub open spec fn is_ascii_digit(c: char) -> bool {
    '0' <= c <= '9'
}

/// The value of a string of ascii decimal digits.
pub open spec fn decimal(s: Seq<char>) -> int
    decreases s.len(),
{
    if s.len() == 0 {
        0
    } else {
        decimal(s.drop_last()) * 10 + (s.last() as int - '0' as int)
    }
}

/// What `str::parse::<i32>` reads from a text: an optional `+` or `-`, then
/// one or more ascii decimal digits, of a value that fits an `i32`.
pub open spec fn spec_parse_i32(s: Seq<char>) -> Option<int> {
    let negative = s.len() > 0 && s[0] == '-';
    let digits = if s.len() > 0 && (s[0] == '-' || s[0] == '+') {
        s.drop_first()
    } else {
        s
    };
    let v = if negative {
        -decimal(digits)
    } else {
        decimal(digits)
    };
    if digits.len() == 0 || !(forall|i: int| 0 <= i < digits.len() ==> is_ascii_digit(#[trigger] digits[i])) {
        None
    } else if i32::MIN <= v <= i32::MAX {
        Some(v)
    } else {
        None
    }
}

/// Reads a decimal `i32` (`str::parse::<i32>`): an optional sign, then one or
/// more ascii digits, of a value in range; otherwise the parse error.
#[verifier::external_body]
fn parse_i32(s: &String) -> (r: Result<i32, ParseIntError>)
    ensures
        match r {
            Ok(v) => spec_parse_i32(s@) == Some(v as int),
            Err(_) => spec_parse_i32(s@) is None,
        },
{
    s.parse::<i32>()
}

/// The message of a count that cannot be read (`format!`): it starts with
/// `can't get input multiplier E:` and names the error and the key codes;
/// only the start is stated.
#[verifier::external_body]
fn multiplier_error(e: &ParseIntError, input: &[i32]) -> (s: String)
    ensures
        "can't get input multiplier E:"@.is_prefix_of(s@),
{
    format!("can't get input multiplier E:{:?}\n for:{:?}", e, input)
}

/// Reads the key codes typed before a motion as a decimal count.
pub fn get_multiplier(input: &[i32]) -> (r: Result<i32, String>)
    ensures
        match r {
            Ok(v) => spec_parse_i32(spec_readable(input@)) == Some(v as int),
            Err(e) => spec_parse_i32(spec_readable(input@)) is None
                && "can't get input multiplier E:"@.is_prefix_of(e@),
        },
{
    let mut text = String::new();
    let mut i: usize = 0;
    while i < input.len()
        invariant
            i <= input@.len(),
            text@ == spec_readable(input@.subrange(0, i as int)),
        decreases input@.len() - i,
    {
        push_char(&mut text, (input[i] as u8) as char);
        assert(spec_readable(input@.subrange(0, i + 1)) =~= spec_readable(input@.subrange(0, i as int)).push(
            (input@[i as int] as u8) as char,
        ));
        i = i + 1;
    }
    assert(input@.subrange(0, input@.len() as int) =~= input@);
    match parse_i32(&text) {
        Ok(v) => Ok(v),
        Err(e) => Err(multiplier_error(&e, input)),
    }
}

/// The count before a motion, one where none can be read.
pub open spec fn count_or_one(s: Seq<i32>) -> int {
    match spec_parse_i32(spec_readable(s)) {
        Some(v) => v,
        None => 1,
    }
}

/// The keys typed in normal mode: escape drops them, `:` alone enters input
/// mode, and `h`, `l`, `j`, `k` move left, right, down and up by the count
/// typed before them.
pub open spec fn spec_mode_normal(b: Seq<i32>) -> Option<MessageView> {
    let n = b.len();
    if n >= 1 && b.last() == 27 {
        None
    } else if b == seq![58i32] {
        Some(MessageView::SetMode(Mode::Input))
    } else if n >= 1 && b.last() == 104 {
        Some(MessageView::Move(((-count_or_one(b.drop_last())) as i32, 0i32)))
    } else if n >= 1 && b.last() == 108 {
        Some(MessageView::Move((count_or_one(b.drop_last()) as i32, 0i32)))
    } else if n >= 1 && b.last() == 106 {
        Some(MessageView::Move((0i32, count_or_one(b.drop_last()) as i32)))
    } else if n >= 1 && b.last() == 107 {
        Some(MessageView::Move((0i32, (-count_or_one(b.drop_last())) as i32)))
    } else {
        None
    }
}

/// In normal mode `l`, `h`, `j` and `k` move by the count typed before them
/// (what the keys before read as a decimal `i32`, else one; one where
/// nothing was typed): `l` right across the row by the count, `h` the same
/// distance left, `j` down the column by the count and `k` the same
/// distance up.
pub proof fn law_normal_motions(p: Seq<i32>)
    requires
        count_or_one(p) != i32::MIN,
    ensures
        count_or_one(Seq::<i32>::empty()) == 1,
        spec_mode_normal(p.push(108)) == Some(MessageView::Move((count_or_one(p) as i32, 0i32))),
        spec_mode_normal(p.push(104)) == Some(MessageView::Move(((-count_or_one(p)) as i32, 0i32))),
        spec_mode_normal(p.push(106)) == Some(MessageView::Move((0i32, count_or_one(p) as i32))),
        spec_mode_normal(p.push(107)) == Some(MessageView::Move((0i32, (-count_or_one(p)) as i32))),
{
    assert(p.push(108).drop_last() =~= p);
    assert(p.push(104).drop_last() =~= p);
    assert(p.push(106).drop_last() =~= p);
    assert(p.push(107).drop_last() =~= p);
    assert(p.push(108) != seq![58i32]);
    assert(p.push(104) != seq![58i32]);
    assert(p.push(106) != seq![58i32]);
    assert(p.push(107) != seq![58i32]);
    assert(spec_readable(Seq::<i32>::empty()).len() == 0);
}

/// A count negated for a motion is not `i32::MIN`.
pub open spec fn normal_ok(b: Seq<i32>) -> bool {
    (b.len() >= 1 && (b.last() == 104 || b.last() == 107) && !(b.last() == 27)) ==> count_or_one(
        b.drop_last(),
    ) != i32::MIN
}

pub open spec fn message_opt_view(m: Option<Message>) -> Option<MessageView> {
    match m {
        Some(m) => Some(m@),
        None => None,
    }
}

/// The question shown, the keys typed and the command waiting for its
/// argument.
pub struct InputState {
    pub user_message: Option<String>,
    pub input_buffer: Vec<i32>,
    pub active_command: Option<ArgCommand>,
}

/// The ghost form of the input state.
pub struct InputStateView {
    pub user_message: Option<Seq<char>>,
    pub input_buffer: Seq<i32>,
    pub active_command: Option<ArgCommand>,
}

impl View for InputState {
    type V = InputStateView;

    open spec fn view(&self) -> InputStateView {
        InputStateView {
            user_message: match self.user_message {
                Some(m) => Some(m@),
                None => None,
            },
            input_buffer: self.input_buffer@,
            active_command: self.active_command,
        }
    }
}

pub open spec fn cleared() -> InputStateView {
    InputStateView { user_message: None, input_buffer: Seq::empty(), active_command: None }
}

/// The keys typed in input mode: escape or control-c leave input mode; delete
/// (127) takes back the key before it; enter (10) runs the command typed, or
/// passes the keys typed as the argument of the command waiting for one.
pub open spec fn spec_mode_input(v: InputStateView) -> (InputStateView, Option<MessageView>) {
    let b = v.input_buffer;
    let n = b.len();
    if n >= 1 && (b.last() == 27 || b.last() == 3) {
        (cleared(), Some(MessageView::SetMode(Mode::Normal)))
    } else if n >= 1 && b.last() == 127 {
        (InputStateView { input_buffer: b.subrange(0, if n >= 2 { n - 2 } else { 0 }), ..v }, None)
    } else if n >= 1 && b.last() == 10 {
        match v.active_command {
            Some(c) => (cleared(), Some(MessageView::RunCommand(c, b.drop_last()))),
            None => match spec_command(spec_readable(b.drop_last())) {
                Some(Command::Simple(c)) => (v, Some(MessageView::RunSimpleCommand(c))),
                Some(Command::Arg(c)) => (
                    InputStateView {
                        user_message: Some("path to file"@),
                        input_buffer: Seq::empty(),
                        active_command: Some(c),
                    },
                    None,
                ),
                None => (
                    InputStateView { user_message: Some("uknown command"@), ..cleared() },
                    Some(MessageView::SetMode(Mode::Normal)),
                ),
            },
        }
    } else {
        (v, None)
    }
}

impl InputState {
    pub fn new() -> (s: Self)
        ensures
            s@ == cleared(),
    {
        InputState { user_message: None, input_buffer: Vec::new(), active_command: None }
    }

    /// Forgets the question, the keys typed and the command waiting.
    pub fn reset(&mut self)
        ensures
            final(self)@ == cleared(),
    {
        self.user_message = None;
        self.input_buffer = Vec::new();
        self.active_command = None;
    }
}

/// Reads the keys typed in normal mode; returns the message they ask for, and
/// drops the keys when a message is due or escape was typed.
pub fn handle_input_mode_normal(input_state: &mut InputState) -> (r: Option<Message>)
    requires
        normal_ok(old(input_state).input_buffer@),
    ensures
        message_opt_view(r) == spec_mode_normal(old(input_state).input_buffer@),
        final(input_state).input_buffer@ == if r is Some || (old(input_state).input_buffer@.len() >= 1
            && old(input_state).input_buffer@.last() == 27) {
            Seq::<i32>::empty()
        } else {
            old(input_state).input_buffer@
        },
        final(input_state).user_message == old(input_state).user_message,
        final(input_state).active_command == old(input_state).active_command,
{
    let n = input_state.input_buffer.len();
    let msg = if n >= 1 && input_state.input_buffer[n - 1] == 27 {
        input_state.input_buffer.clear();
        None
    } else if n == 1 && input_state.input_buffer[0] == 58 {
        assert(input_state.input_buffer@ =~= seq![58i32]);
        Some(Message::SetMode(Mode::Input))
    } else {
        proof {
            if n == 1 {
                assert(input_state.input_buffer@ != seq![58i32]);
            }
        }
        if n >= 1 && input_state.input_buffer[n - 1] == 104 {
            let m = match get_multiplier(&input_state.input_buffer.as_slice()[0..n - 1]) {
                Ok(v) => v,
                Err(_) => 1,
            };
            Some(Message::Move((-m, 0)))
        } else if n >= 1 && input_state.input_buffer[n - 1] == 108 {
            let m = match get_multiplier(&input_state.input_buffer.as_slice()[0..n - 1]) {
                Ok(v) => v,
                Err(_) => 1,
            };
            Some(Message::Move((m, 0)))
        } else if n >= 1 && input_state.input_buffer[n - 1] == 106 {
            let m = match get_multiplier(&input_state.input_buffer.as_slice()[0..n - 1]) {
                Ok(v) => v,
                Err(_) => 1,
            };
            Some(Message::Move((0, m)))
        } else if n >= 1 && input_state.input_buffer[n - 1] == 107 {
            let m = match get_multiplier(&input_state.input_buffer.as_slice()[0..n - 1]) {
                Ok(v) => v,
                Err(_) => 1,
            };
            Some(Message::Move((0, -m)))
        } else {
            None
        }
    };
    match msg {
        Some(_) => {
            input_state.input_buffer.clear();
        },
        None => {},
    }
    msg
}

/// Reads the keys typed in input mode and updates the input state; returns
/// the message they ask for.
pub fn handle_input_mode_input(input_state: &mut InputState) -> (r: Option<Message>)
    ensures
        (final(input_state)@, message_opt_view(r)) == spec_mode_input(old(input_state)@),
{
    let n = input_state.input_buffer.len();
    if n >= 1 && (input_state.input_buffer[n - 1] == 27 || input_state.input_buffer[n - 1] == 3) {
        input_state.reset();
        Some(Message::SetMode(Mode::Normal))
    } else if n >= 1 && input_state.input_buffer[n - 1] == 127 {
        let keep = if n >= 2 { n - 2 } else { 0 };
        input_state.input_buffer.truncate(keep);
        None
    } else if n >= 1 && input_state.input_buffer[n - 1] == 10 {
        match input_state.active_command {
            Some(command) => {
                let mut input = input_state.input_buffer.clone();
                assert(input@ =~= old(input_state).input_buffer@);
                input.truncate(n - 1);
                let msg = Message::RunCommand(command, input);
                input_state.reset();
                Some(msg)
            },
            None => {
                let command = Command::try_from(&input_state.input_buffer.as_slice()[0..n - 1]);
                match command {
                    Ok(Command::Simple(command)) => Some(Message::RunSimpleCommand(command)),
                    Ok(Command::Arg(command)) => {
                        let message = command.get_user_message();
                        input_state.active_command = Some(command);
                        input_state.input_buffer.clear();
                        input_state.user_message = Some(message);
                        None
                    },
                    Err(_) => {
                        input_state.reset();
                        let message = String::from_str("uknown command");
                        input_state.user_message = Some(message);
                        Some(Message::SetMode(Mode::Normal))
                    },
                }
            },
        }
    } else {
        None
    }
}


/// Reads the keys typed as the mode of `state` says (see
/// `handle_input_mode_normal` and `handle_input_mode_input`).
pub fn handle_input<T>(input_state: &mut InputState, state: &State<T>) -> (r: Option<Message>)
    requires
        state.mode == Mode::Normal ==> normal_ok(old(input_state).input_buffer@),
    ensures
        match state.mode {
            Mode::Normal => {
                &&& message_opt_view(r) == spec_mode_normal(old(input_state).input_buffer@)
                &&& final(input_state).input_buffer@ == if r is Some || (old(input_state).input_buffer@.len()
                    >= 1 && old(input_state).input_buffer@.last() == 27) {
                    Seq::<i32>::empty()
                } else {
                    old(input_state).input_buffer@
                }
                &&& final(input_state).user_message == old(input_state).user_message
                &&& final(input_state).active_command == old(input_state).active_command
            },
            Mode::Input => (final(input_state)@, message_opt_view(r)) == spec_mode_input(old(input_state)@),
        },
{
    match state.mode {
        Mode::Normal => handle_input_mode_normal(input_state),
        Mode::Input => handle_input_mode_input(input_state),
    }
}

} // verus!
