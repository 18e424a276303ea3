use super::grid::GridPosition;
use vstd::prelude::*;

verus! {

/// What a sequence of key codes asks for.
#[derive(Debug, Clone, Copy)]
pub enum Command {
    Move(GridPosition),
    AddOscillator,
    DeleteOscillator,
    ClearInput,
}

/// The ghost form of a command, a move given by its steps.
pub enum CommandView {
    Move(int, int),
    AddOscillator,
    DeleteOscillator,
    ClearInput,
}

pub open spec fn command_view(c: Command) -> CommandView {
    match c {
        Command::Move(p) => CommandView::Move(p.x as int, p.y as int),
        Command::AddOscillator => CommandView::AddOscillator,
        Command::DeleteOscillator => CommandView::DeleteOscillator,
        Command::ClearInput => CommandView::ClearInput,
    }
}

/// The command that the key codes typed so far ask for: escape (27) or
/// control and `[` (17, 219) at the end clear the input; `h`, `l`, `k`, `j` or
/// an arrow key alone move one step; shift and `o` adds an oscillator; `d` `d`
/// deletes one.
pub open spec fn spec_from_key_codes(codes: Seq<u32>) -> Option<CommandView> {
    let n = codes.len();
    if (n >= 1 && codes[n - 1] == 27) || (n >= 2 && codes[n - 2] == 17 && codes[n - 1] == 219) {
        Some(CommandView::ClearInput)
    } else if codes == seq![72u32] || codes == seq![37u32] {
        Some(CommandView::Move(-1, 0))
    } else if codes == seq![76u32] || codes == seq![39u32] {
        Some(CommandView::Move(1, 0))
    } else if codes == seq![75u32] || codes == seq![38u32] {
        Some(CommandView::Move(0, -1))
    } else if codes == seq![74u32] || codes == seq![40u32] {
        Some(CommandView::Move(0, 1))
    } else if codes == seq![16u32, 79u32] {
        Some(CommandView::AddOscillator)
    } else if codes == seq![68u32, 68u32] {
        Some(CommandView::DeleteOscillator)
    } else {
        None
    }
}

/// The arrow keys move as the letters `h`, `l`, `k` and `j`: left (37) as
/// `h` (72) one cell towards smaller `x`, right (39) as `l` (76) one cell
/// the other way, up (38) as `k` (75) one cell towards smaller `y`, and down
/// (40) as `j` (74) one cell the other way; opposite keys make opposite
/// moves; any keys that make a move are one of these keys alone, and move
/// one cell along one axis.
pub proof fn law_arrows_move_as_letters()
    ensures
        spec_from_key_codes(seq![37u32]) == spec_from_key_codes(seq![72u32]),
        spec_from_key_codes(seq![39u32]) == spec_from_key_codes(seq![76u32]),
        spec_from_key_codes(seq![38u32]) == spec_from_key_codes(seq![75u32]),
        spec_from_key_codes(seq![40u32]) == spec_from_key_codes(seq![74u32]),
        spec_from_key_codes(seq![72u32]) == Some(CommandView::Move(-1, 0)),
        spec_from_key_codes(seq![76u32]) == Some(CommandView::Move(1, 0)),
        spec_from_key_codes(seq![75u32]) == Some(CommandView::Move(0, -1)),
        spec_from_key_codes(seq![74u32]) == Some(CommandView::Move(0, 1)),
        forall|codes: Seq<u32>|
            #[trigger] spec_from_key_codes(codes) matches Some(CommandView::Move(x, y)) ==> {
                &&& codes.len() == 1
                &&& (x == 0 || y == 0) && x + y != 0 && -1 <= x <= 1 && -1 <= y <= 1
                &&& (codes[0] == 37 || codes[0] == 72) <==> x == -1
                &&& (codes[0] == 39 || codes[0] == 76) <==> x == 1
                &&& (codes[0] == 38 || codes[0] == 75) <==> y == -1
                &&& (codes[0] == 40 || codes[0] == 74) <==> y == 1
            },
{
    assert(seq![37u32] != seq![72u32] && seq![37u32][0] == 37);
    assert(seq![39u32] != seq![72u32] && seq![39u32] != seq![37u32]);
    assert(seq![38u32] != seq![72u32] && seq![38u32] != seq![37u32] && seq![38u32] != seq![76u32] && seq![38u32]
        != seq![39u32]);
    assert(seq![40u32] != seq![72u32] && seq![40u32] != seq![37u32] && seq![40u32] != seq![76u32] && seq![40u32]
        != seq![39u32] && seq![40u32] != seq![75u32] && seq![40u32] != seq![38u32]);
    assert(seq![76u32] != seq![72u32] && seq![76u32] != seq![37u32]);
    assert(seq![75u32] != seq![72u32] && seq![75u32] != seq![37u32] && seq![75u32] != seq![76u32] && seq![75u32]
        != seq![39u32]);
    assert(seq![74u32] != seq![72u32] && seq![74u32] != seq![37u32] && seq![74u32] != seq![76u32] && seq![74u32]
        != seq![39u32] && seq![74u32] != seq![75u32] && seq![74u32] != seq![38u32]);
}

impl Command {
    pub fn from_key_codes(codes: &[u32]) -> (r: Option<Self>)
        ensures
            match r {
                Some(c) => spec_from_key_codes(codes@) == Some(command_view(c)),
                None => spec_from_key_codes(codes@) is None,
            },
    {
        let n = codes.len();
        proof {
            assert(n == 1 ==> codes@ =~= seq![codes@[0]]);
            assert(n == 2 ==> codes@ =~= seq![codes@[0], codes@[1]]);
        }
        if (n >= 1 && codes[n - 1] == 27) || (n >= 2 && codes[n - 2] == 17 && codes[n - 1] == 219) {
            Some(Command::ClearInput)
        } else if n == 1 && (codes[0] == 72 || codes[0] == 37) {
            Some(Command::Move(GridPosition::new(-1, 0)))
        } else if n == 1 && (codes[0] == 76 || codes[0] == 39) {
            Some(Command::Move(GridPosition::new(1, 0)))
        } else if n == 1 && (codes[0] == 75 || codes[0] == 38) {
            Some(Command::Move(GridPosition::new(0, -1)))
        } else if n == 1 && (codes[0] == 74 || codes[0] == 40) {
            Some(Command::Move(GridPosition::new(0, 1)))
        } else if n == 2 && codes[0] == 16 && codes[1] == 79 {
            Some(Command::AddOscillator)
        } else if n == 2 && codes[0] == 68 && codes[1] == 68 {
            Some(Command::DeleteOscillator)
        } else {
            None
        }
    }
}

} // verus!
