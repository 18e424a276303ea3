//! The keys typed so far, the modifier keys held, and the messages waiting.
use super::message::{Message, MessageView, input_ok, messages_view, spec_from_input};
use vstd::prelude::*;

verus! {

/// A key of the keyboard.
#[derive(Debug, Clone, Copy, PartialEq, Eq, Structural)]
pub enum Input {
    Shift,
    Alt,
    Control,
    Escape,
    Enter,
    Backspace,
    Tab,
    C(char),
}

/// The character that stands for a key in the echoed input.
pub open spec fn spec_to_char(i: Input) -> char {
    match i {
        Input::Shift => '^',
        Input::Alt => '!',
        Input::Control => '^',
        Input::Escape => '!',
        Input::Enter => '¬',
        Input::Backspace => '<',
        Input::Tab => '>',
        Input::C(c) => c,
    }
}

impl Input {
    pub fn to_char(self) -> (c: char)
        ensures
            c == spec_to_char(self),
    {
        match self {
            Input::Shift => '^',
            Input::Alt => '!',
            Input::Control => '^',
            Input::Escape => '!',
            Input::Enter => '¬',
            Input::Backspace => '<',
            Input::Tab => '>',
            Input::C(c) => c,
        }
    }
}

/// The input modes of the application.
#[derive(Debug, Clone, Copy)]
pub enum InputMode {
    Command,
    Insert,
    Edit(usize),
}

impl InputMode {
    /// The label shown for the mode.
    pub fn get_prompt(&self) -> (s: &'static str)
        ensures
            s == match *self {
                InputMode::Command => "",
                InputMode::Insert => "INS",
                InputMode::Edit(_) => "EDT",
            },
    {
        match self {
            InputMode::Command => "",
            InputMode::Insert => "INS",
            InputMode::Edit(_) => "EDT",
        }
    }
}

} // verus!

verus! {

/// The mode after the messages are handled: the mode of the last
/// `SwitchInputMode` among them, or `mode` where there is none.
pub open spec fn mode_after(ms: Seq<MessageView>, mode: InputMode) -> InputMode
    decreases ms.len(),
{
    if ms.len() == 0 {
        mode
    } else {
        match ms.last() {
            MessageView::SwitchInputMode(m) => m,
            _ => mode_after(ms.drop_last(), mode),
        }
    }
}

/// Whether a message other than `SetInput` is among the messages; such a
/// message consumes the keys typed.
pub open spec fn consumes_input(ms: Seq<MessageView>) -> bool {
    exists|k: int| 0 <= k < ms.len() && !(#[trigger] ms[k] is SetInput)
}

/// The keys typed, the messages waiting, the input mode and whether shift and
/// control are held.
pub struct InputState {
    pub(crate) input_buffer: Vec<Input>,
    pub(crate) message_buffer: Vec<Message>,
    pub mode: InputMode,
    pub shift: bool,
    pub control: bool,
}

impl InputState {
    /// The keys typed since the last message that consumed them.
    pub closed spec fn inputs(&self) -> Seq<Input> {
        self.input_buffer@
    }

    /// The input mode.
    pub closed spec fn mode_of(&self) -> InputMode {
        self.mode
    }

    /// Whether shift is held.
    pub closed spec fn shift_held(&self) -> bool {
        self.shift
    }

    /// Whether control is held.
    pub closed spec fn control_held(&self) -> bool {
        self.control
    }

    /// The spec accessors give the fields.
    pub(crate) proof fn lemma_fields(&self)
        ensures
            self.mode_of() == self.mode,
            self.shift_held() == self.shift,
            self.control_held() == self.control,
            self.inputs() == self.input_buffer@,
    {
    }

    /// The messages waiting to be drained.
    pub closed spec fn messages(&self) -> Seq<MessageView> {
        messages_view(self.message_buffer@)
    }

    pub fn new() -> (s: Self)
        ensures
            s.mode_of() is Command,
            !s.shift_held(),
            !s.control_held(),
            s.inputs() == Seq::<Input>::empty(),
            s.messages() == Seq::<MessageView>::empty(),
    {
        let s = InputState {
            mode: InputMode::Command,
            input_buffer: Vec::with_capacity(10),
            message_buffer: Vec::with_capacity(10),
            shift: false,
            control: false,
        };
        assert(messages_view(s.message_buffer@) =~= Seq::<MessageView>::empty());
        s
    }

    /// Hands out the waiting messages, oldest first, and forgets them.
    pub fn drain_messages(&mut self) -> (r: Vec<Message>)
        ensures
            messages_view(r@) == old(self).messages(),
            final(self).messages() == Seq::<MessageView>::empty(),
            final(self).inputs() == old(self).inputs(),
            final(self).mode_of() == old(self).mode_of(),
            final(self).shift_held() == old(self).shift_held(),
            final(self).control_held() == old(self).control_held(),
    {
        let mut drained: Vec<Message> = Vec::new();
        std::mem::swap(&mut drained, &mut self.message_buffer);
        assert(messages_view(self.message_buffer@) =~= Seq::<MessageView>::empty());
        drained
    }

    /// Reads the keys typed in the current mode and queues the messages they
    /// ask for; a `SwitchInputMode` changes the mode, and any message other
    /// than `SetInput` consumes the keys.
    pub fn try_message(&mut self) -> (r: &mut Self)
        requires
            input_ok(old(self).mode_of(), old(self).control_held(), old(self).shift_held(), old(self).inputs()),
        ensures
            ({
                let ms = spec_from_input(old(self).mode_of(), old(self).control_held(), old(self).shift_held(), old(self).inputs());
                &&& r.messages() == old(self).messages() + ms
                &&& r.mode_of() == mode_after(ms, old(self).mode_of())
                &&& r.inputs() == if consumes_input(ms) {
                    Seq::<Input>::empty()
                } else {
                    old(self).inputs()
                }
                &&& r.shift_held() == old(self).shift_held()
                &&& r.control_held() == old(self).control_held()
            }),
            *final(self) == *final(r),
    {
        let mut msgs = Message::from_input(self, &self.input_buffer);
        let ghost ms = messages_view(msgs@);
        let ghost old_inputs = self.input_buffer@;
        let ghost old_mode = self.mode;
        let ghost old_messages = messages_view(self.message_buffer@);
        let ghost mut done: int = 0;
        while msgs.len() > 0
            invariant
                0 <= done <= ms.len(),
                messages_view(msgs@) == ms.subrange(done, ms.len() as int),
                messages_view(self.message_buffer@) == old_messages + ms.subrange(0, done),
                self.mode == mode_after(ms.subrange(0, done), old_mode),
                self.input_buffer@ == if consumes_input(ms.subrange(0, done)) {
                    Seq::<Input>::empty()
                } else {
                    old_inputs
                },
                self.shift == old(self).shift_held(),
                self.control == old(self).control_held(),
            decreases msgs.len(),
        {
            assert(messages_view(msgs@).len() == msgs@.len());
            let ghost before = msgs@;
            let message = msgs.remove(0);
            let ghost mv = message@;
            assert(message == before[0]);
            assert(messages_view(before)[0] == before[0]@);
            assert(ms.subrange(done, ms.len() as int)[0] == ms[done]);
            assert(mv == ms[done]);
            assert(ms.subrange(0, done + 1).drop_last() =~= ms.subrange(0, done));
            assert(ms.subrange(0, done + 1).last() == mv);
            match &message {
                Message::SetInput(_) => {
                    assert(consumes_input(ms.subrange(0, done + 1)) == consumes_input(ms.subrange(0, done))) by {
                        if consumes_input(ms.subrange(0, done + 1)) {
                            let k = choose|k: int| 0 <= k < done + 1 && !(#[trigger] ms.subrange(0, done + 1)[k] is SetInput);
                            assert(ms.subrange(0, done)[k] == ms.subrange(0, done + 1)[k]);
                        }
                        if consumes_input(ms.subrange(0, done)) {
                            let k = choose|k: int| 0 <= k < done && !(#[trigger] ms.subrange(0, done)[k] is SetInput);
                            assert(ms.subrange(0, done + 1)[k] == ms.subrange(0, done)[k]);
                        }
                    }
                },
                Message::SwitchInputMode(mode) => {
                    self.mode = *mode;
                    self.input_buffer.clear();
                    assert(ms.subrange(0, done + 1)[done] == mv);
                },
                _ => {
                    self.input_buffer.clear();
                    assert(ms.subrange(0, done + 1)[done] == mv);
                },
            }
            let ghost prev_buffer = self.message_buffer@;
            self.message_buffer.push(message);
            proof {
                assert forall|k: int| 0 <= k < msgs@.len() implies #[trigger] messages_view(msgs@)[k]
                    == ms.subrange(done + 1, ms.len() as int)[k] by {
                    assert(msgs@[k] == before[k + 1]);
                    assert(messages_view(before)[k + 1] == before[k + 1]@);
                    assert(ms.subrange(done, ms.len() as int)[k + 1] == ms[done + 1 + k]);
                }
                assert(messages_view(msgs@) =~= ms.subrange(done + 1, ms.len() as int));
                let nb = self.message_buffer@;
                assert(messages_view(prev_buffer).len() == prev_buffer.len());
                assert(nb.len() == old_messages.len() + done + 1);
                assert forall|k: int| 0 <= k < nb.len() implies #[trigger] messages_view(nb)[k]
                    == (old_messages + ms.subrange(0, done + 1))[k] by {
                    assert(messages_view(nb)[k] == nb[k]@);
                    if k < nb.len() - 1 {
                        assert(nb[k] == prev_buffer[k]);
                        assert(messages_view(prev_buffer)[k] == prev_buffer[k]@);
                        assert((old_messages + ms.subrange(0, done + 1))[k] == (old_messages
                            + ms.subrange(0, done))[k]);
                    } else {
                        assert(nb[k] == message);
                        assert((old_messages + ms.subrange(0, done + 1))[k] == ms[done]);
                    }
                }
                assert(messages_view(self.message_buffer@) =~= old_messages + ms.subrange(0, done + 1));
                done = done + 1;
            }
        }
        proof {
            assert(ms.subrange(0, done) =~= ms);
        }
        self
    }

    /// Records the release of a key: shift and control stop being held.
    pub fn handle_keyup(&mut self, input: Input) -> (r: &mut Self)
        ensures
            r.shift_held() == (if input == Input::Shift { false } else { old(self).shift_held() }),
            r.control_held() == (if input == Input::Control { false } else { old(self).control_held() }),
            r.mode_of() == old(self).mode_of(),
            r.inputs() == old(self).inputs(),
            r.messages() == old(self).messages(),
            *final(self) == *final(r),
    {
        match input {
            Input::Shift => self.shift = false,
            Input::Control => self.control = false,
            _ => (),
        }
        self
    }

    /// Records the press of a key: shift and control start being held,
    /// backspace takes back the last key typed, escape, enter, tab and the
    /// characters are typed; then the keys are read as `try_message` does.
    pub fn handle_keydown(&mut self, input: Input) -> (r: &mut Self)
        requires
            input_ok(
                old(self).mode_of(),
                keydown_control(old(self).control_held(), input),
                keydown_shift(old(self).shift_held(), input),
                keydown_inputs(old(self).inputs(), input),
            ),
        ensures
            ({
                let control = keydown_control(old(self).control_held(), input);
                let shift = keydown_shift(old(self).shift_held(), input);
                let inputs = keydown_inputs(old(self).inputs(), input);
                let ms = spec_from_input(old(self).mode_of(), control, shift, inputs);
                &&& r.messages() == old(self).messages() + ms
                &&& r.mode_of() == mode_after(ms, old(self).mode_of())
                &&& r.inputs() == if consumes_input(ms) {
                    Seq::<Input>::empty()
                } else {
                    inputs
                }
                &&& r.shift_held() == shift
                &&& r.control_held() == control
            }),
            *final(self) == *final(r),
    {
        match input {
            Input::Shift => self.shift = true,
            Input::Control => self.control = true,
            Input::Backspace => {
                self.input_buffer.pop();
            },
            Input::C(_) | Input::Escape | Input::Enter | Input::Tab => self.input_buffer.push(input),
            _ => (),
        }
        proof {
            assert(self.input_buffer@ =~= keydown_inputs(old(self).inputs(), input));
        }
        self.try_message();
        self
    }
}

/// Whether shift is held after `input` is pressed.
pub open spec fn keydown_shift(shift: bool, input: Input) -> bool {
    if input == Input::Shift {
        true
    } else {
        shift
    }
}

/// Whether control is held after `input` is pressed.
pub open spec fn keydown_control(control: bool, input: Input) -> bool {
    if input == Input::Control {
        true
    } else {
        control
    }
}

/// The keys typed after `input` is pressed: backspace drops the last key,
/// escape, enter, tab and characters are added, shift, control and alt leave
/// the keys as they are.
pub open spec fn keydown_inputs(inputs: Seq<Input>, input: Input) -> Seq<Input> {
    match input {
        Input::Backspace => if inputs.len() > 0 {
            inputs.drop_last()
        } else {
            inputs
        },
        Input::C(_) | Input::Escape | Input::Enter | Input::Tab => inputs.push(input),
        _ => inputs,
    }
}

} // verus!
