//! Checking keys before they are read: a count typed before a motion must
//! fit the integers that read it.
use super::input_state::{keydown_control, keydown_inputs, keydown_shift, Input, InputMode, InputState};
use super::message::{
    digit, digits_value, ends_with_key, input_ok, lemma_digits_concat, lemma_pow10_mono,
    lemma_pow10_pos, mult_ok, pow10, spec_digit, spec_mult,
};
use vstd::prelude::*;

verus! {

/// Keys with no digit among them read as zero.
proof fn lemma_no_digits_zero(s: Seq<Input>)
    requires
        forall|m: int| 0 <= m < s.len() ==> spec_digit(#[trigger] s[m]) is None,
    ensures
        digits_value(s) == 0,
    decreases s.len(),
{
    if s.len() > 0 {
        lemma_no_digits_zero(s.drop_last());
    }
}

/// Whether the count before the last key can be read (`mult_ok`), and, for
/// a motion that negates it, is not `i32::MIN`.
fn count_readable(s: &[Input], negated: bool) -> (r: bool)
    requires
        s@.len() >= 1,
        spec_digit(s@.last()) is None,
    ensures
        r == (mult_ok(s@) && (negated ==> spec_mult(s@) != i32::MIN)),
{
    let n = s.len();
    let start: usize = if n >= 11 { n - 11 } else { 0 };
    let mut i: usize = 0;
    while i < start
        invariant
            start <= n,
            n == s@.len(),
            start == if n >= 11 { n - 11 } else { 0 },
            i <= start,
            forall|m: int| 0 <= m < i ==> spec_digit(#[trigger] s@[m]) is None,
        decreases start - i,
    {
        match digit(s[i]) {
            Some(_) => {
                assert(!mult_ok(s@));
                return false;
            },
            None => {},
        }
        i = i + 1;
    }
    let ghost body = s@.drop_last();
    let mut v: u64 = 0;
    let mut j: usize = start;
    while j < n - 1
        invariant
            n == s@.len(),
            n >= 1,
            body == s@.drop_last(),
            start <= j <= n - 1,
            n - 1 - start <= 10,
            v as int == digits_value(body.subrange(start as int, j as int)),
            v as int <= pow10((j - start) as nat) - 1,
        decreases n - 1 - j,
    {
        proof {
            assert(body.subrange(start as int, j + 1).drop_last() =~= body.subrange(start as int, j as int));
            assert(body.subrange(start as int, j + 1).last() == s@[j as int]);
            lemma_pow10_pos((j - start) as nat);
        }
        let d: u64 = match digit(s[j]) {
            Some(d) => d as u64,
            None => 0,
        };
        proof {
            assert(pow10((j + 1 - start) as nat) == 10 * pow10((j - start) as nat));
            lemma_pow10_upper((j - start) as nat);
        }
        v = v * 10 + d;
        j = j + 1;
    }
    proof {
        let prefix = body.subrange(0, start as int);
        let suffix = body.subrange(start as int, n - 1);
        assert(body =~= prefix + suffix);
        lemma_no_digits_zero(prefix);
        lemma_digits_concat(prefix, suffix);
    }
    if v > 0xffff_ffff {
        return false;
    }
    let count: i32 = (v as u32) as i32;
    !(negated && count == i32::MIN)
}

/// `10^e - 1` is below `10^10` for at most ten digits.
proof fn lemma_pow10_upper(e: nat)
    requires
        e <= 9,
    ensures
        pow10(e) <= 1_000_000_000,
{
    reveal_with_fuel(pow10, 10);
    lemma_pow10_mono(e, 9);
}

/// Whether the keys can be read in `mode` without overflow (`input_ok`).
pub fn keys_readable(mode: InputMode, control: bool, shift: bool, s: &[Input]) -> (r: bool)
    ensures
        r == input_ok(mode, control, shift, s@),
{
    match mode {
        InputMode::Command => {
            let h = ends_with_key(s, Input::C('h'));
            let l = ends_with_key(s, Input::C('l'));
            let k = ends_with_key(s, Input::C('k'));
            let j = ends_with_key(s, Input::C('j'));
            if !control && !shift && s.len() >= 2 && (h || l || k || j) {
                count_readable(s, h || k)
            } else {
                true
            }
        },
        _ => true,
    }
}

impl InputState {
    /// Whether the keys that pressing `input` leaves can be read without
    /// overflow, as `handle_keydown` requires.
    pub fn accepts_keydown(&self, input: Input) -> (r: bool)
        ensures
            r == input_ok(
                self.mode_of(),
                keydown_control(self.control_held(), input),
                keydown_shift(self.shift_held(), input),
                keydown_inputs(self.inputs(), input),
            ),
    {
        proof {
            self.lemma_fields();
        }
        let mut keys: Vec<Input> = Vec::new();
        let mut i: usize = 0;
        while i < self.input_buffer.len()
            invariant
                i <= self.input_buffer@.len(),
                keys@ == self.input_buffer@.take(i as int),
            decreases self.input_buffer@.len() - i,
        {
            keys.push(self.input_buffer[i]);
            proof {
                assert(self.input_buffer@.take(i + 1) =~= self.input_buffer@.take(i as int).push(self.input_buffer@[i as int]));
            }
            i = i + 1;
        }
        proof {
            assert(self.input_buffer@.take(self.input_buffer@.len() as int) =~= self.input_buffer@);
        }
        match input {
            Input::Backspace => {
                keys.pop();
            },
            Input::C(_) | Input::Escape | Input::Enter | Input::Tab => keys.push(input),
            _ => {},
        }
        proof {
            assert(keys@ =~= keydown_inputs(self.inputs(), input));
        }
        let control = match input {
            Input::Control => true,
            _ => self.control,
        };
        let shift = match input {
            Input::Shift => true,
            _ => self.shift,
        };
        keys_readable(self.mode, control, shift, keys.as_slice())
    }
}

} // verus!
