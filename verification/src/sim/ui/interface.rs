//! The simulator's prompt, written by the keys typed.
use crate::sim::input::{Input, InputState};
use crate::text::{pop_char, push_char};
use vstd::prelude::*;

verus! {

/// The prompt after the keys `inputs` are typed on `prompt`: a character is
/// written, enter empties the prompt, backspace takes back the last
/// character, and the other keys do nothing.
pub open spec fn typed_prompt(prompt: Seq<char>, inputs: Seq<Input>) -> Seq<char>
    decreases inputs.len(),
{
    if inputs.len() == 0 {
        prompt
    } else {
        let before = typed_prompt(prompt, inputs.drop_last());
        match inputs.last() {
            Input::Char(c) => before.push(c),
            Input::Enter => Seq::empty(),
            Input::Backspace => if before.len() > 0 {
                before.drop_last()
            } else {
                before
            },
            _ => before,
        }
    }
}

/// The size of a grid cell on screen, and the prompt.
pub struct UserInterface {
    pub grid_block_size: (i32, i32),
    pub prompt: String,
}

impl UserInterface {
    /// Cells of eight by eight pixels, and a prompt that asks for typing.
    pub fn new() -> (ui: Self)
        ensures
            ui.grid_block_size == (8i32, 8i32),
            ui.prompt@ == "please type..."@,
    {
        UserInterface { grid_block_size: (8, 8), prompt: String::from_str("please type...") }
    }

    /// Writes the keys typed since the buffer was last cleared on the prompt.
    pub fn process_input(&mut self, input: &InputState)
        ensures
            final(self).prompt@ == typed_prompt(old(self).prompt@, input.typed()),
            final(self).grid_block_size == old(self).grid_block_size,
    {
        proof {
            input.lemma_typed();
            assert(input.typed().take(0) =~= Seq::<Input>::empty());
        }
        let n = input.buffer.len();
        let mut i: usize = 0;
        while i < n
            invariant
                n == input.typed().len(),
                i <= n,
                self.prompt@ == typed_prompt(old(self).prompt@, input.typed().take(i as int)),
                self.grid_block_size == old(self).grid_block_size,
                input.typed() == input.buffer@,
            decreases n - i,
        {
            proof {
                assert(input.typed().take(i + 1).drop_last() =~= input.typed().take(i as int));
            }
            match input.buffer[i] {
                Input::Char(c) => push_char(&mut self.prompt, c),
                Input::Enter => self.prompt = String::new(),
                Input::Backspace => {
                    pop_char(&mut self.prompt);
                },
                _ => {},
            }
            i = i + 1;
        }
        proof {
            assert(input.typed().take(n as int) =~= input.typed());
        }
    }
}

} // verus!
