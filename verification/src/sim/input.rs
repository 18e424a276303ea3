//! Keyboard state of the simulator: the keys typed so far and which keys are
//! held down.
use std::collections::HashMap;
use vstd::prelude::*;

verus! {

broadcast use vstd::std_specs::hash::group_hash_axioms;

/// A key of the keyboard.
#[derive(Copy, Clone, PartialEq, Eq, Hash)]
pub enum Input {
    Char(char),
    Enter,
    Tab,
    Escape,
    Space,
    Shift,
    Backspace,
    Alt,
    Control,
    Meta,
    Up,
    Right,
    Down,
    Left,
}

/// A distinct number for every key: a character's scalar value, and numbers
/// above every scalar value for the other keys.
pub open spec fn spec_key_code(input: Input) -> u32 {
    match input {
        Input::Char(c) => c as u32,
        Input::Enter => 0x110000,
        Input::Tab => 0x110001,
        Input::Escape => 0x110002,
        Input::Space => 0x110003,
        Input::Shift => 0x110004,
        Input::Backspace => 0x110005,
        Input::Alt => 0x110006,
        Input::Control => 0x110007,
        Input::Meta => 0x110008,
        Input::Up => 0x110009,
        Input::Right => 0x11000a,
        Input::Down => 0x11000b,
        Input::Left => 0x11000c,
    }
}

/// Different keys have different codes.
pub proof fn lemma_key_code_injective(a: Input, b: Input)
    ensures
        spec_key_code(a) == spec_key_code(b) ==> a == b,
{
    match (a, b) {
        (Input::Char(c), Input::Char(d)) => {
            assert((c as u32) == (d as u32) ==> c == d);
        },
        (Input::Char(c), _) => {
            assert((c as u32) <= 0x10FFFF);
        },
        (_, Input::Char(d)) => {
            assert((d as u32) <= 0x10FFFF);
        },
        _ => {},
    }
}

fn key_code(input: Input) -> (r: u32)
    ensures
        r == spec_key_code(input),
{
    match input {
        Input::Char(c) => c as u32,
        Input::Enter => 0x110000,
        Input::Tab => 0x110001,
        Input::Escape => 0x110002,
        Input::Space => 0x110003,
        Input::Shift => 0x110004,
        Input::Backspace => 0x110005,
        Input::Alt => 0x110006,
        Input::Control => 0x110007,
        Input::Meta => 0x110008,
        Input::Up => 0x110009,
        Input::Right => 0x11000a,
        Input::Down => 0x11000b,
        Input::Left => 0x11000c,
    }
}

/// The keys typed since the buffer was last cleared, and for every key
/// whether it was last pressed or released.
pub struct InputState {
    pub buffer: Vec<Input>,
    pub(crate) is_key_down_map: HashMap<u32, bool>,
}

impl InputState {
    /// The keys typed since the buffer was last cleared.
    pub closed spec fn typed(&self) -> Seq<Input> {
        self.buffer@
    }

    /// The typed keys are those of the buffer.
    pub(crate) proof fn lemma_typed(&self)
        ensures
            self.typed() == self.buffer@,
    {
    }

    /// What the state records of the keys' positions, by key code.
    pub closed spec fn key_map(&self) -> Map<u32, bool> {
        self.is_key_down_map@
    }

    /// Whether `input` was last pressed rather than released (a key never
    /// pressed is up).
    pub open spec fn spec_is_key_down(&self, input: Input) -> bool {
        self.key_map().contains_key(spec_key_code(input)) && self.key_map()[spec_key_code(input)]
    }

    pub fn new() -> (s: Self)
        ensures
            s.typed() == Seq::<Input>::empty(),
            forall|i: Input| !s.spec_is_key_down(i),
    {
        InputState { buffer: Vec::new(), is_key_down_map: HashMap::new() }
    }

    pub fn is_key_down(&self, input: Input) -> (r: bool)
        ensures
            r == self.spec_is_key_down(input),
    {
        let code = key_code(input);
        match self.is_key_down_map.get(&code) {
            Some(v) => *v,
            None => false,
        }
    }

    /// Records a key press: the key joins the buffer and is down.
    pub fn key_down(&mut self, input: Input)
        ensures
            final(self).typed() == old(self).typed().push(input),
            forall|i: Input|
                #[trigger] final(self).spec_is_key_down(i) == if i == input {
                    true
                } else {
                    old(self).spec_is_key_down(i)
                },
    {
        self.buffer.push(input);
        let code = key_code(input);
        self.is_key_down_map.insert(code, true);
        proof {
            assert forall|i: Input| #[trigger] self.spec_is_key_down(i) == if i == input {
                true
            } else {
                old(self).spec_is_key_down(i)
            } by {
                lemma_key_code_injective(i, input);
            }
        }
    }

    /// Records a key release: the key is up; the buffer is unchanged.
    pub fn key_up(&mut self, input: Input)
        ensures
            final(self).typed() == old(self).typed(),
            forall|i: Input|
                #[trigger] final(self).spec_is_key_down(i) == if i == input {
                    false
                } else {
                    old(self).spec_is_key_down(i)
                },
    {
        let code = key_code(input);
        self.is_key_down_map.insert(code, false);
        proof {
            assert forall|i: Input| #[trigger] self.spec_is_key_down(i) == if i == input {
                false
            } else {
                old(self).spec_is_key_down(i)
            } by {
                lemma_key_code_injective(i, input);
            }
        }
    }

    /// Empties the buffer; which keys are down is unchanged.
    pub fn clear_buffer(&mut self)
        ensures
            final(self).typed() == Seq::<Input>::empty(),
            forall|i: Input| #[trigger] final(self).spec_is_key_down(i) == old(self).spec_is_key_down(i),
    {
        self.buffer.clear();
    }
}

} // verus!
