//! What the keys typed in each input mode ask the application to do.
use super::grid::Position;
use crate::text::push_char;
use super::input_state::{Input, InputMode, InputState, spec_to_char};
use vstd::prelude::*;

verus! {

/// A request to the application state.
pub enum Message {
    SwitchInputMode(InputMode),
    JumpSetting(i32),
    ProcessInput,
    Move(Position),
    MoveTo(Position),
    MoveToEmpty,
    AddStep,
    AddTrigger,
    DeleteEntity,
    ClearInput,
    UpdatePrompt,
    SetInput(String),
}

/// The ghost form of a message, the text of `SetInput` as characters.
pub enum MessageView {
    SwitchInputMode(InputMode),
    JumpSetting(i32),
    ProcessInput,
    Move(Position),
    MoveTo(Position),
    MoveToEmpty,
    AddStep,
    AddTrigger,
    DeleteEntity,
    ClearInput,
    UpdatePrompt,
    SetInput(Seq<char>),
}

impl View for Message {
    type V = MessageView;

    open spec fn view(&self) -> MessageView {
        match self {
            Message::SwitchInputMode(m) => MessageView::SwitchInputMode(*m),
            Message::JumpSetting(n) => MessageView::JumpSetting(*n),
            Message::ProcessInput => MessageView::ProcessInput,
            Message::Move(p) => MessageView::Move(*p),
            Message::MoveTo(p) => MessageView::MoveTo(*p),
            Message::MoveToEmpty => MessageView::MoveToEmpty,
            Message::AddStep => MessageView::AddStep,
            Message::AddTrigger => MessageView::AddTrigger,
            Message::DeleteEntity => MessageView::DeleteEntity,
            Message::ClearInput => MessageView::ClearInput,
            Message::UpdatePrompt => MessageView::UpdatePrompt,
            Message::SetInput(s) => MessageView::SetInput(s@),
        }
    }
}

pub open spec fn messages_view(v: Seq<Message>) -> Seq<MessageView> {
    v.map_values(|m: Message| m@)
}

pub open spec fn pos(x: int, y: int) -> Position {
    Position { x: x as i32, y: y as i32 }
}

/// The value of an ascii decimal digit key, or nothing.
pub open spec fn spec_digit(i: Input) -> Option<int> {
    match i {
        Input::C(c) => if '0' <= c <= '9' {
            Some(c as int - '0' as int)
        } else {
            None
        },
        _ => None,
    }
}

pub open spec fn pow10(e: nat) -> int
    decreases e,
{
    if e == 0 {
        1
    } else {
        10 * pow10((e - 1) as nat)
    }
}

/// The keys read as a decimal number, each key that is no digit counting as a
/// zero digit.
pub open spec fn digits_value(s: Seq<Input>) -> int
    decreases s.len(),
{
    if s.len() == 0 {
        0
    } else {
        digits_value(s.drop_last()) * 10 + match spec_digit(s.last()) {
            Some(d) => d,
            None => 0,
        }
    }
}

/// The count typed before a motion key: the keys before the last read as a
/// decimal number, wrapped into an `i32`; no keys count zero.
pub open spec fn spec_mult(s: Seq<Input>) -> i32 {
    if s.len() == 0 {
        0
    } else {
        digits_value(s.drop_last()) as u32 as i32
    }
}

/// The count can be computed without overflow: there are no keys, or the
/// last key is no digit, no digit stands more than ten places before it,
/// and the number fits a `u32`.
pub open spec fn mult_ok(s: Seq<Input>) -> bool {
    s.len() >= 1 ==> {
        &&& spec_digit(s.last()) is None
        &&& forall|m: int| 0 <= m < s.len() - 11 ==> spec_digit(#[trigger] s[m]) is None
        &&& digits_value(s.drop_last()) <= u32::MAX
    }
}

pub open spec fn ends_with(s: Seq<Input>, x: Input) -> bool {
    s.len() >= 1 && s.last() == x
}

pub open spec fn only(s: Seq<Input>, x: Input) -> bool {
    s.len() == 1 && s[0] == x
}

pub open spec fn pair(s: Seq<Input>, x: Input, y: Input) -> bool {
    s.len() == 2 && s[0] == x && s[1] == y
}

/// The key bindings of command mode.
pub open spec fn spec_mode_command(control: bool, shift: bool, s: Seq<Input>) -> Seq<MessageView> {
    let plain = !control && !shift;
    if (control && !shift && ends_with(s, Input::C('['))) || (plain && ends_with(s, Input::Escape)) {
        seq![MessageView::ClearInput]
    } else if plain && ends_with(s, Input::C('i')) {
        seq![MessageView::SwitchInputMode(InputMode::Insert)]
    } else if plain && only(s, Input::Tab) {
        seq![MessageView::SwitchInputMode(InputMode::Edit(0))]
    } else if plain && pair(s, Input::C('g'), Input::C('g')) {
        seq![MessageView::MoveTo(pos(0, 0))]
    } else if !control && shift && only(s, Input::C('G')) {
        seq![MessageView::MoveTo(pos(1000, 1000))]
    } else if plain && only(s, Input::C('0')) {
        seq![MessageView::Move(pos(-1000, 0))]
    } else if !control && shift && only(s, Input::C('$')) {
        seq![MessageView::Move(pos(1000, 0))]
    } else if control && !shift && only(s, Input::C('u')) {
        seq![MessageView::Move(pos(0, -8))]
    } else if control && !shift && only(s, Input::C('d')) {
        seq![MessageView::Move(pos(0, 8))]
    } else if !control && shift && only(s, Input::C('{')) {
        seq![MessageView::Move(pos(0, -4))]
    } else if !control && shift && only(s, Input::C('}')) {
        seq![MessageView::Move(pos(0, 4))]
    } else if plain && only(s, Input::C('b')) {
        seq![MessageView::Move(pos(-4, 0))]
    } else if plain && (only(s, Input::C('e')) || only(s, Input::C('w'))) {
        seq![MessageView::Move(pos(4, 0))]
    } else if plain && only(s, Input::C('h')) {
        seq![MessageView::Move(pos(-1, 0))]
    } else if plain && only(s, Input::C('l')) {
        seq![MessageView::Move(pos(1, 0))]
    } else if plain && only(s, Input::C('k')) {
        seq![MessageView::Move(pos(0, -1))]
    } else if plain && only(s, Input::C('j')) {
        seq![MessageView::Move(pos(0, 1))]
    } else if plain && ends_with(s, Input::C('h')) {
        seq![MessageView::Move(pos(-spec_mult(s), 0))]
    } else if plain && ends_with(s, Input::C('l')) {
        seq![MessageView::Move(pos(spec_mult(s) as int, 0))]
    } else if plain && ends_with(s, Input::C('k')) {
        seq![MessageView::Move(pos(0, -spec_mult(s)))]
    } else if plain && ends_with(s, Input::C('j')) {
        seq![MessageView::Move(pos(0, spec_mult(s) as int))]
    } else if plain && pair(s, Input::C('d'), Input::C('d')) {
        seq![MessageView::DeleteEntity]
    } else {
        seq![]
    }
}

/// The keys typed in command mode can be read without overflow: where a count
/// is read it can be computed, and where it is negated it is not `i32::MIN`.
pub open spec fn command_ok(control: bool, shift: bool, s: Seq<Input>) -> bool {
    let counted = !control && !shift && s.len() >= 2 && (ends_with(s, Input::C('h')) || ends_with(
        s,
        Input::C('l'),
    ) || ends_with(s, Input::C('k')) || ends_with(s, Input::C('j')));
    counted ==> (mult_ok(s) && ((ends_with(s, Input::C('h')) || ends_with(s, Input::C('k')))
        ==> spec_mult(s) != i32::MIN))
}

/// The key bindings of insert mode.
pub open spec fn spec_mode_insert(control: bool, shift: bool, s: Seq<Input>) -> Seq<MessageView> {
    let plain = !control && !shift;
    if (control && !shift && ends_with(s, Input::C('['))) || (plain && ends_with(s, Input::Escape)) {
        seq![MessageView::SwitchInputMode(InputMode::Command)]
    } else if plain && only(s, Input::C(' ')) {
        seq![MessageView::Move(pos(1, 0))]
    } else if plain && only(s, Input::Enter) {
        seq![MessageView::Move(pos(-10000, 1))]
    } else if !control && shift && only(s, Input::Enter) {
        seq![MessageView::Move(pos(0, 1))]
    } else if plain && only(s, Input::C('.')) {
        seq![MessageView::AddStep, MessageView::MoveToEmpty]
    } else if plain && only(s, Input::C('t')) {
        seq![MessageView::AddTrigger, MessageView::MoveToEmpty]
    } else {
        seq![]
    }
}

/// The key bindings of edit mode.
pub open spec fn spec_mode_edit(control: bool, shift: bool, s: Seq<Input>) -> Seq<MessageView> {
    let plain = !control && !shift;
    if (control && !shift && ends_with(s, Input::C('['))) || (plain && ends_with(s, Input::Escape)) {
        seq![MessageView::SwitchInputMode(InputMode::Command)]
    } else if plain && only(s, Input::Tab) {
        seq![MessageView::JumpSetting(1i32)]
    } else if !control && shift && only(s, Input::Tab) {
        seq![MessageView::JumpSetting(-1i32)]
    } else if plain && only(s, Input::Enter) {
        seq![MessageView::ProcessInput]
    } else {
        seq![]
    }
}

/// The messages that the keys typed in a mode ask for; where no binding
/// matches, the keys are echoed as the current input.
pub open spec fn spec_from_input(mode: InputMode, control: bool, shift: bool, s: Seq<Input>) -> Seq<MessageView> {
    let commands = match mode {
        InputMode::Command => spec_mode_command(control, shift, s),
        InputMode::Insert => spec_mode_insert(control, shift, s),
        InputMode::Edit(_) => spec_mode_edit(control, shift, s),
    };
    if commands.len() == 0 {
        seq![MessageView::SetInput(s.map_values(|i: Input| spec_to_char(i)))]
    } else {
        commands
    }
}

/// Escape with no modifier held clears the keys in command mode and returns to
/// command mode from the other modes.
pub proof fn law_escape(mode: InputMode, s: Seq<Input>)
    requires
        ends_with(s, Input::Escape),
    ensures
        spec_from_input(mode, false, false, s) == match mode {
            InputMode::Command => seq![MessageView::ClearInput],
            _ => seq![MessageView::SwitchInputMode(InputMode::Command)],
        },
{
}

/// The keys can be read in the mode without overflow.
pub open spec fn input_ok(mode: InputMode, control: bool, shift: bool, s: Seq<Input>) -> bool {
    mode is Command ==> command_ok(control, shift, s)
}

} // verus!

verus! {

pub(crate) proof fn lemma_pow10_pos(e: nat)
    ensures
        pow10(e) >= 1,
    decreases e,
{
    if e > 0 {
        lemma_pow10_pos((e - 1) as nat);
    }
}

proof fn lemma_digits_nonneg(s: Seq<Input>)
    ensures
        digits_value(s) >= 0,
    decreases s.len(),
{
    if s.len() > 0 {
        lemma_digits_nonneg(s.drop_last());
    }
}

/// Reading `p` followed by `q` is reading `p` shifted by the length of `q`,
/// plus reading `q`.
pub(crate) proof fn lemma_digits_concat(p: Seq<Input>, q: Seq<Input>)
    ensures
        digits_value(p + q) == digits_value(p) * pow10(q.len()) + digits_value(q),
    decreases q.len(),
{
    if q.len() == 0 {
        assert(p + q =~= p);
    } else {
        let q2 = q.drop_last();
        lemma_digits_concat(p, q2);
        assert((p + q).drop_last() =~= p + q2);
        assert((p + q).last() == q.last());
        let d = match spec_digit(q.last()) {
            Some(d) => d,
            None => 0,
        };
        assert(digits_value(p + q) == digits_value(p + q2) * 10 + d);
        assert(digits_value(q) == digits_value(q2) * 10 + d);
        assert(pow10(q.len()) == 10 * pow10(q2.len()));
        assert((digits_value(p) * pow10(q2.len()) + digits_value(q2)) * 10 == digits_value(p) * (10
            * pow10(q2.len())) + digits_value(q2) * 10) by (nonlinear_arith);
    }
}

pub(crate) fn digit(i: Input) -> (r: Option<u32>)
    ensures
        match r {
            Some(d) => spec_digit(i) == Some(d as int) && d <= 9,
            None => spec_digit(i) is None,
        },
{
    match i {
        Input::C(c) => if '0' <= c && c <= '9' {
            Some(c as u32 - '0' as u32)
        } else {
            None
        },
        _ => None,
    }
}

fn pow10_u32(e: u32) -> (r: u32)
    requires
        e <= 9,
    ensures
        r == pow10(e as nat),
{
    let mut r: u32 = 1;
    let mut k: u32 = 0;
    while k < e
        invariant
            k <= e,
            e <= 9,
            r == pow10(k as nat),
            r <= 1_000_000_000,
        decreases e - k,
    {
        assert(pow10((k + 1) as nat) == 10 * pow10(k as nat));
        assert(r * 10 <= 1_000_000_000) by {
            assert(pow10(9) == 1_000_000_000) by {
                reveal_with_fuel(pow10, 10);
            }
            lemma_pow10_mono(k as nat + 1, 9);
        }
        r = r * 10;
        k = k + 1;
    }
    r
}

/// The longer jumps of command mode come in opposite pairs: `0` and `$`
/// (with shift) to the start and the end of the row, control and `u` and
/// control and `d` eight cells up and down, `{` and `}` (with shift) four
/// cells up and down, `b` four cells left and `e` or `w` four cells right;
/// `g` `g` goes to the first cell and `G` (with shift) to the last.
pub proof fn law_command_jumps()
    ensures
        spec_from_input(InputMode::Command, false, false, seq![Input::C('0')]) == seq![
            MessageView::Move(pos(-1000, 0)),
        ],
        spec_from_input(InputMode::Command, false, true, seq![Input::C('$')]) == seq![
            MessageView::Move(pos(1000, 0)),
        ],
        spec_from_input(InputMode::Command, true, false, seq![Input::C('u')]) == seq![
            MessageView::Move(pos(0, -8)),
        ],
        spec_from_input(InputMode::Command, true, false, seq![Input::C('d')]) == seq![
            MessageView::Move(pos(0, 8)),
        ],
        spec_from_input(InputMode::Command, false, true, seq![Input::C('{')]) == seq![
            MessageView::Move(pos(0, -4)),
        ],
        spec_from_input(InputMode::Command, false, true, seq![Input::C('}')]) == seq![
            MessageView::Move(pos(0, 4)),
        ],
        spec_from_input(InputMode::Command, false, false, seq![Input::C('b')]) == seq![
            MessageView::Move(pos(-4, 0)),
        ],
        spec_from_input(InputMode::Command, false, false, seq![Input::C('e')]) == seq![
            MessageView::Move(pos(4, 0)),
        ],
        spec_from_input(InputMode::Command, false, false, seq![Input::C('w')]) == seq![
            MessageView::Move(pos(4, 0)),
        ],
        spec_from_input(InputMode::Command, false, false, seq![Input::C('g'), Input::C('g')]) == seq![
            MessageView::MoveTo(pos(0, 0)),
        ],
        spec_from_input(InputMode::Command, false, true, seq![Input::C('G')]) == seq![
            MessageView::MoveTo(pos(1000, 1000)),
        ],
        spec_from_input(InputMode::Command, false, false, seq![Input::C('d'), Input::C('d')]) == seq![
            MessageView::DeleteEntity,
        ],
{
}

/// In insert mode `.` makes a step and `t` a trigger under the cursor, each
/// then moving to the nearest empty cell; space moves one cell right, enter
/// goes to the start of the next row and shift and enter one row down. In
/// edit mode tab goes to the next setting, shift and tab to the one before,
/// and enter takes the typed input.
pub proof fn law_insert_and_edit_keys(k: usize)
    ensures
        spec_from_input(InputMode::Insert, false, false, seq![Input::C('.')]) == seq![
            MessageView::AddStep,
            MessageView::MoveToEmpty,
        ],
        spec_from_input(InputMode::Insert, false, false, seq![Input::C('t')]) == seq![
            MessageView::AddTrigger,
            MessageView::MoveToEmpty,
        ],
        spec_from_input(InputMode::Insert, false, false, seq![Input::C(' ')]) == seq![
            MessageView::Move(pos(1, 0)),
        ],
        spec_from_input(InputMode::Insert, false, false, seq![Input::Enter]) == seq![
            MessageView::Move(pos(-10000, 1)),
        ],
        spec_from_input(InputMode::Insert, false, true, seq![Input::Enter]) == seq![
            MessageView::Move(pos(0, 1)),
        ],
        spec_from_input(InputMode::Edit(k), false, false, seq![Input::Tab]) == seq![MessageView::JumpSetting(1i32)],
        spec_from_input(InputMode::Edit(k), false, true, seq![Input::Tab]) == seq![MessageView::JumpSetting(-1i32)],
        spec_from_input(InputMode::Edit(k), false, false, seq![Input::Enter]) == seq![MessageView::ProcessInput],
{
}

/// Keys that are all digits read as a number below ten to the power of their
/// count.
proof fn lemma_digits_below(s: Seq<Input>)
    requires
        forall|i: int| 0 <= i < s.len() ==> spec_digit(#[trigger] s[i]) is Some,
    ensures
        0 <= digits_value(s) < pow10(s.len()),
    decreases s.len(),
{
    if s.len() > 0 {
        let t = s.drop_last();
        assert forall|i: int| 0 <= i < t.len() implies spec_digit(#[trigger] t[i]) is Some by {
            assert(t[i] == s[i]);
        }
        lemma_digits_below(t);
        assert(spec_digit(s[s.len() - 1]) is Some);
        let d = spec_digit(s.last())->0;
        assert(0 <= d <= 9);
        assert(pow10(s.len()) == 10 * pow10(t.len()));
    }
}

/// The count that digit keys `p` give a motion key typed after them in
/// command mode: one where no digit was typed, else the digits read as a
/// decimal number.
pub open spec fn typed_count(p: Seq<Input>) -> int {
    if p.len() == 0 {
        1
    } else {
        digits_value(p)
    }
}

/// In command mode, with no modifier held, `h`, `l`, `k` and `j` after a
/// count of up to nine digits (none counting one) move that many cells left,
/// right, up and down: `h` and `l` only across and opposite to each other,
/// `k` and `j` only along the column and opposite to each other, up being
/// towards smaller `y`.
pub proof fn law_command_motions(p: Seq<Input>)
    requires
        p.len() <= 9,
        forall|i: int| 0 <= i < p.len() ==> spec_digit(#[trigger] p[i]) is Some,
    ensures
        spec_from_input(InputMode::Command, false, false, p.push(Input::C('h'))) == seq![
            MessageView::Move(pos(-typed_count(p), 0)),
        ],
        spec_from_input(InputMode::Command, false, false, p.push(Input::C('l'))) == seq![
            MessageView::Move(pos(typed_count(p), 0)),
        ],
        spec_from_input(InputMode::Command, false, false, p.push(Input::C('k'))) == seq![
            MessageView::Move(pos(0, -typed_count(p))),
        ],
        spec_from_input(InputMode::Command, false, false, p.push(Input::C('j'))) == seq![
            MessageView::Move(pos(0, typed_count(p))),
        ],
{
    lemma_digits_below(p);
    lemma_pow10_mono(p.len(), 9);
    assert(pow10(9) == 1_000_000_000) by {
        reveal_with_fuel(pow10, 10);
    }
    let v = digits_value(p);
    assert(0 <= v < 1_000_000_000);
    assert(v as u32 as i32 == v);
    assert(p.push(Input::C('h')).drop_last() =~= p);
    assert(p.push(Input::C('l')).drop_last() =~= p);
    assert(p.push(Input::C('k')).drop_last() =~= p);
    assert(p.push(Input::C('j')).drop_last() =~= p);
    if p.len() > 0 {
        assert(spec_digit(p[0]) is Some);
    }
}

pub(crate) proof fn lemma_pow10_mono(a: nat, b: nat)
    requires
        a <= b,
    ensures
        pow10(a) <= pow10(b),
    decreases b - a,
{
    if a < b {
        lemma_pow10_mono(a, (b - 1) as nat);
        lemma_pow10_pos((b - 1) as nat);
    }
}

/// The count typed before a motion key: every decimal digit key before the
/// last key weighs ten times more than the next key.
pub fn get_mult(input: &[Input]) -> (r: i32)
    requires
        mult_ok(input@),
    ensures
        r == spec_mult(input@),
{
    let n = input.len();
    let ghost s = input@;
    let ghost body = s.drop_last();
    let mut sum: u32 = 0;
    let mut idx: usize = 0;
    while idx < n
        invariant
            n == s.len(),
            s == input@,
            body == s.drop_last(),
            mult_ok(s),
            idx <= n,
            idx >= 1 ==> sum == digits_value(s.subrange(n - idx, n - 1)),
            idx == 0 ==> sum == 0,
        decreases n - idx,
    {
        let item = input[n - 1 - idx];
        let ghost m = n - 1 - idx;
        match digit(item) {
            Some(d) => {
                assert(idx >= 1);
                assert(idx <= 10) by {
                    if idx > 10 {
                        assert(m < s.len() - 11);
                        assert(spec_digit(s[m]) is None);
                    }
                }
                let p = pow10_u32((idx - 1) as u32);
                let ghost old_suffix = s.subrange(n - idx, n - 1);
                let ghost new_suffix = s.subrange(m as int, n - 1);
                proof {
                    assert(new_suffix =~= seq![s[m as int]] + old_suffix);
                    lemma_digits_concat(seq![s[m as int]], old_suffix);
                    assert(seq![s[m as int]].drop_last() =~= Seq::<Input>::empty());
                    assert(digits_value(Seq::<Input>::empty()) == 0);
                    assert(seq![s[m as int]].last() == s[m as int]);
                    assert(digits_value(seq![s[m as int]]) == d as int);
                    assert(body =~= s.subrange(0, m as int) + new_suffix);
                    lemma_digits_concat(s.subrange(0, m as int), new_suffix);
                    lemma_digits_nonneg(s.subrange(0, m as int));
                    lemma_digits_nonneg(old_suffix);
                    lemma_pow10_pos(new_suffix.len());
                    assert(digits_value(s.subrange(0, m as int)) * pow10(new_suffix.len()) >= 0) by (nonlinear_arith)
                        requires
                            digits_value(s.subrange(0, m as int)) >= 0,
                            pow10(new_suffix.len()) >= 1,
                    ;
                    assert(d as int * p as int <= u32::MAX);
                }
                let term = d * p;
                sum = sum + term;
            },
            None => {
                proof {
                    if idx >= 1 {
                        let old_suffix = s.subrange(n - idx, n - 1);
                        let new_suffix = s.subrange(m as int, n - 1);
                        assert(new_suffix =~= seq![s[m as int]] + old_suffix);
                        lemma_digits_concat(seq![s[m as int]], old_suffix);
                        assert(seq![s[m as int]].drop_last() =~= Seq::<Input>::empty());
                        assert(digits_value(Seq::<Input>::empty()) == 0);
                        assert(seq![s[m as int]].last() == s[m as int]);
                        assert(digits_value(seq![s[m as int]]) == 0);
                    } else {
                        assert(s.subrange(n - 1, n - 1) =~= Seq::<Input>::empty());
                    }
                }
            },
        }
        idx = idx + 1;
    }
    proof {
        if n >= 1 {
            assert(s.subrange(0, n - 1) =~= body);
        }
    }
    #[verifier::truncate]
    (sum as i32)
}

fn one(m: Message) -> (v: Vec<Message>)
    ensures
        messages_view(v@) == seq![m@],
{
    let v = vec![m];
    assert(messages_view(v@) =~= seq![m@]);
    v
}

pub(crate) fn ends_with_key(input: &[Input], x: Input) -> (r: bool)
    ensures
        r == ends_with(input@, x),
{
    input.len() >= 1 && input[input.len() - 1] == x
}

fn only_key(input: &[Input], x: Input) -> (r: bool)
    ensures
        r == only(input@, x),
{
    input.len() == 1 && input[0] == x
}

fn pair_keys(input: &[Input], x: Input, y: Input) -> (r: bool)
    ensures
        r == pair(input@, x, y),
{
    input.len() == 2 && input[0] == x && input[1] == y
}

impl Message {
    /// The messages that the keys typed so far ask for in the state's mode;
    /// where no binding matches, a `SetInput` echoing the keys.
    pub fn from_input(state: &InputState, input: &[Input]) -> (r: Vec<Self>)
        requires
            input_ok(state.mode_of(), state.control_held(), state.shift_held(), input@),
        ensures
            messages_view(r@) == spec_from_input(state.mode_of(), state.control_held(), state.shift_held(), input@),
    {
        proof {
            state.lemma_fields();
        }
        let commands = match state.mode {
            InputMode::Command => Self::mode_command(state, input),
            InputMode::Insert => Self::mode_insert(state, input),
            InputMode::Edit(_) => Self::mode_edit(state, input),
        };
        if commands.len() == 0 {
            let mut string = String::new();
            let mut i: usize = 0;
            while i < input.len()
                invariant
                    i <= input@.len(),
                    string@ == input@.subrange(0, i as int).map_values(|k: Input| spec_to_char(k)),
                decreases input@.len() - i,
            {
                push_char(&mut string, input[i].to_char());
                assert(input@.subrange(0, i + 1).map_values(|k: Input| spec_to_char(k))
                    =~= input@.subrange(0, i as int).map_values(|k: Input| spec_to_char(k)).push(
                    spec_to_char(input@[i as int]),
                ));
                i = i + 1;
            }
            assert(input@.subrange(0, input@.len() as int) =~= input@);
            one(Message::SetInput(string))
        } else {
            commands
        }
    }

    /// The key bindings of command mode.
    pub fn mode_command(state: &InputState, input: &[Input]) -> (r: Vec<Self>)
        requires
            command_ok(state.control_held(), state.shift_held(), input@),
        ensures
            messages_view(r@) == spec_mode_command(state.control_held(), state.shift_held(), input@),
    {
        proof {
            state.lemma_fields();
        }
        let control = state.control;
        let shift = state.shift;
        let plain = !control && !shift;
        if (control && !shift && ends_with_key(input, Input::C('['))) || (plain && ends_with_key(
            input,
            Input::Escape,
        )) {
            one(Message::ClearInput)
        } else if plain && ends_with_key(input, Input::C('i')) {
            one(Message::SwitchInputMode(InputMode::Insert))
        } else if plain && only_key(input, Input::Tab) {
            one(Message::SwitchInputMode(InputMode::Edit(0)))
        } else if plain && pair_keys(input, Input::C('g'), Input::C('g')) {
            one(Message::MoveTo(Position::new(0, 0)))
        } else if !control && shift && only_key(input, Input::C('G')) {
            one(Message::MoveTo(Position::new(1000, 1000)))
        } else if plain && only_key(input, Input::C('0')) {
            one(Message::Move(Position::new(-1000, 0)))
        } else if !control && shift && only_key(input, Input::C('$')) {
            one(Message::Move(Position::new(1000, 0)))
        } else if control && !shift && only_key(input, Input::C('u')) {
            one(Message::Move(Position::new(0, -8)))
        } else if control && !shift && only_key(input, Input::C('d')) {
            one(Message::Move(Position::new(0, 8)))
        } else if !control && shift && only_key(input, Input::C('{')) {
            one(Message::Move(Position::new(0, -4)))
        } else if !control && shift && only_key(input, Input::C('}')) {
            one(Message::Move(Position::new(0, 4)))
        } else if plain && only_key(input, Input::C('b')) {
            one(Message::Move(Position::new(-4, 0)))
        } else if plain && (only_key(input, Input::C('e')) || only_key(input, Input::C('w'))) {
            one(Message::Move(Position::new(4, 0)))
        } else if plain && only_key(input, Input::C('h')) {
            one(Message::Move(Position::new(-1, 0)))
        } else if plain && only_key(input, Input::C('l')) {
            one(Message::Move(Position::new(1, 0)))
        } else if plain && only_key(input, Input::C('k')) {
            one(Message::Move(Position::new(0, -1)))
        } else if plain && only_key(input, Input::C('j')) {
            one(Message::Move(Position::new(0, 1)))
        } else if plain && ends_with_key(input, Input::C('h')) {
            one(Message::Move(Position::new(-get_mult(input), 0)))
        } else if plain && ends_with_key(input, Input::C('l')) {
            one(Message::Move(Position::new(get_mult(input), 0)))
        } else if plain && ends_with_key(input, Input::C('k')) {
            one(Message::Move(Position::new(0, -get_mult(input))))
        } else if plain && ends_with_key(input, Input::C('j')) {
            one(Message::Move(Position::new(0, get_mult(input))))
        } else if plain && pair_keys(input, Input::C('d'), Input::C('d')) {
            one(Message::DeleteEntity)
        } else {
            let v: Vec<Message> = Vec::new();
            assert(messages_view(v@) =~= Seq::<MessageView>::empty());
            v
        }
    }

    /// The key bindings of insert mode.
    pub fn mode_insert(state: &InputState, input: &[Input]) -> (r: Vec<Self>)
        ensures
            messages_view(r@) == spec_mode_insert(state.control_held(), state.shift_held(), input@),
    {
        proof {
            state.lemma_fields();
        }
        let control = state.control;
        let shift = state.shift;
        let plain = !control && !shift;
        if (control && !shift && ends_with_key(input, Input::C('['))) || (plain && ends_with_key(
            input,
            Input::Escape,
        )) {
            one(Message::SwitchInputMode(InputMode::Command))
        } else if plain && only_key(input, Input::C(' ')) {
            one(Message::Move(Position::new(1, 0)))
        } else if plain && only_key(input, Input::Enter) {
            one(Message::Move(Position::new(-10000, 1)))
        } else if !control && shift && only_key(input, Input::Enter) {
            one(Message::Move(Position::new(0, 1)))
        } else if plain && only_key(input, Input::C('.')) {
            let v = vec![Message::AddStep, Message::MoveToEmpty];
            assert(messages_view(v@) =~= seq![MessageView::AddStep, MessageView::MoveToEmpty]);
            v
        } else if plain && only_key(input, Input::C('t')) {
            let v = vec![Message::AddTrigger, Message::MoveToEmpty];
            assert(messages_view(v@) =~= seq![MessageView::AddTrigger, MessageView::MoveToEmpty]);
            v
        } else {
            let v: Vec<Message> = Vec::new();
            assert(messages_view(v@) =~= Seq::<MessageView>::empty());
            v
        }
    }

    /// The key bindings of edit mode.
    pub fn mode_edit(state: &InputState, input: &[Input]) -> (r: Vec<Self>)
        ensures
            messages_view(r@) == spec_mode_edit(state.control_held(), state.shift_held(), input@),
    {
        proof {
            state.lemma_fields();
        }
        let control = state.control;
        let shift = state.shift;
        let plain = !control && !shift;
        if (control && !shift && ends_with_key(input, Input::C('['))) || (plain && ends_with_key(
            input,
            Input::Escape,
        )) {
            one(Message::SwitchInputMode(InputMode::Command))
        } else if plain && only_key(input, Input::Tab) {
            one(Message::JumpSetting(1))
        } else if !control && shift && only_key(input, Input::Tab) {
            one(Message::JumpSetting(-1))
        } else if plain && only_key(input, Input::Enter) {
            one(Message::ProcessInput)
        } else {
            let v: Vec<Message> = Vec::new();
            assert(messages_view(v@) =~= Seq::<MessageView>::empty());
            v
        }
    }
}

} // verus!
