//! The walk over the cells of a grid that looks for an empty cell, and
//! why it finds one while the grid is not full.
use super::Position;
use crate::sim::grid::position::spec_clamp;
use crate::sim::grid::Rect;
use vstd::prelude::*;

verus! {

/// Whether the walk can take a step from `p`: wrapping to the next row
/// from the last row number that fits would overflow.
pub open spec fn step_defined(p: Position, rect: Rect) -> bool {
    !(p.x >= rect.width - 1 && p.y == i32::MAX)
}

/// The cell after `p` when looking for an empty one: the next column, or
/// the first column of the next row once the last column is reached, and
/// the first row again once the last row but one is passed.
pub open spec fn next_cell(p: Position, rect: Rect) -> Position {
    if p.x >= rect.width - 1 {
        Position { x: 0, y: if p.y + 1 >= rect.height - 1 { 0 } else { (p.y + 1) as i32 } }
    } else {
        Position { x: (p.x + 1) as i32, y: p.y }
    }
}

/// The cell reached from `p` after `k` steps.
pub open spec fn walk(p: Position, rect: Rect, k: nat) -> Position
    decreases k,
{
    if k == 0 {
        p
    } else {
        next_cell(walk(p, rect, (k - 1) as nat), rect)
    }
}

/// Whether `p` is a cell of the grid `rect`, whose corner is the origin.
pub open spec fn on_grid(p: Position, rect: Rect) -> bool {
    &&& 0 <= p.x < rect.width
    &&& 0 <= p.y < rect.height
}

/// The walk from a cell of a grid cornered at the origin never leaves the
/// grid, so clamping leaves every cell of it in place.
pub proof fn law_walk_stays_on_grid(p: Position, rect: Rect, k: nat)
    requires
        rect.position == (Position { x: 0, y: 0 }),
        on_grid(p, rect),
    ensures
        on_grid(walk(p, rect, k), rect),
        spec_clamp(walk(p, rect, k), rect) == walk(p, rect, k),
    decreases k,
{
    if k > 0 {
        law_walk_stays_on_grid(p, rect, (k - 1) as nat);
    }
}

/// Whether `k` steps from `p` reach a cell that `entities` leaves empty,
/// every step before them being defined and leaving an occupied cell.
pub open spec fn first_empty_at<E>(entities: Map<Position, E>, rect: Rect, p: Position, k: nat) -> bool {
    &&& !entities.contains_key(walk(p, rect, k))
    &&& forall|j: nat| j < k ==> #[trigger] entities.contains_key(walk(p, rect, j)) && step_defined(
        walk(p, rect, j),
        rect,
    )
}


/// Whether `rect` is a grid cornered at the origin with at least one
/// column and two rows, so that the walk goes round its cells.
pub open spec fn walkable(rect: Rect) -> bool {
    &&& rect.position == (Position { x: 0, y: 0 })
    &&& rect.width >= 1
    &&& rect.height >= 2
}

/// The number of cells the walk goes round: all rows but the last.
pub open spec fn cycle_len(rect: Rect) -> int {
    rect.width * (rect.height - 1)
}

/// The `i`th cell of the round, row by row.
pub open spec fn round_cell(rect: Rect, i: int) -> Position {
    Position { x: (i % (rect.width as int)) as i32, y: (i / (rect.width as int)) as i32 }
}

proof fn lemma_round_cell_bounds(rect: Rect, i: int)
    requires
        walkable(rect),
        0 <= i < cycle_len(rect),
    ensures
        0 <= i % (rect.width as int) < rect.width,
        0 <= i / (rect.width as int) < rect.height - 1,
        round_cell(rect, i).x == i % (rect.width as int),
        round_cell(rect, i).y == i / (rect.width as int),
        i == (i / (rect.width as int)) * rect.width + i % (rect.width as int),
{
    let w = rect.width as int;
    vstd::arithmetic::div_mod::lemma_fundamental_div_mod(i, w);
    vstd::arithmetic::div_mod::lemma_mod_bound(i, w);
    vstd::arithmetic::div_mod::lemma_div_pos_is_pos(i, w);
    assert(i / w < rect.height - 1) by {
        vstd::arithmetic::div_mod::lemma_div_is_ordered(i, cycle_len(rect) - 1, w);
        let h = rect.height as int;
        assert(cycle_len(rect) - 1 == (h - 2) * w + (w - 1)) by (nonlinear_arith)
            requires
                cycle_len(rect) == w * (h - 1),
        ;
        vstd::arithmetic::div_mod::lemma_fundamental_div_mod_converse(
            cycle_len(rect) - 1,
            w,
            rect.height - 2,
            w - 1,
        );
    }
}

/// From the `i`th cell of the round, `k` steps reach the `(i + k)`th.
proof fn lemma_walk_round(rect: Rect, i: int, k: nat)
    requires
        walkable(rect),
        0 <= i,
        i + k < cycle_len(rect),
    ensures
        walk(round_cell(rect, i), rect, k) == round_cell(rect, i + k),
    decreases k,
{
    if k > 0 {
        let w = rect.width as int;
        let j = i + k - 1;
        lemma_walk_round(rect, i, (k - 1) as nat);
        lemma_round_cell_bounds(rect, j);
        lemma_round_cell_bounds(rect, j + 1);
        let (x, y) = (j % w, j / w);
        if x >= w - 1 {
            assert(j + 1 == (y + 1) * w + 0) by (nonlinear_arith)
                requires
                    j == y * w + x,
                    x == w - 1,
            ;
            vstd::arithmetic::div_mod::lemma_fundamental_div_mod_converse(j + 1, w, y + 1, 0);
        } else {
            vstd::arithmetic::div_mod::lemma_fundamental_div_mod_converse(j + 1, w, y, x + 1);
        }
    }
}

/// Walking `a + b` steps is walking `a` steps and then `b` more.
proof fn lemma_walk_split(p: Position, rect: Rect, a: nat, b: nat)
    ensures
        walk(p, rect, a + b) == walk(walk(p, rect, a), rect, b),
    decreases b,
{
    if b > 0 {
        lemma_walk_split(p, rect, a, (b - 1) as nat);
        assert((a + b - 1) as nat == a + (b - 1) as nat);
    }
}

/// From any cell of the grid the walk comes to the first cell of the round.
proof fn lemma_walk_reaches_start(p: Position, rect: Rect) -> (s: nat)
    requires
        walkable(rect),
        on_grid(p, rect),
    ensures
        walk(p, rect, s) == round_cell(rect, 0),
{
    let w = rect.width as int;
    vstd::arithmetic::div_mod::lemma_small_mod(0, w as nat);
    if p.y == rect.height - 1 {
        let s = (w - p.x) as nat;
        lemma_walk_along_last_row(p, rect, (w - 1 - p.x) as nat);
        s
    } else {
        let i = p.y * w + p.x;
        assert(i < cycle_len(rect)) by (nonlinear_arith)
            requires
                0 <= p.x < w,
                0 <= p.y < rect.height - 1,
                i == p.y * w + p.x,
                cycle_len(rect) == w * (rect.height - 1),
        ;
        assert(0 <= i) by (nonlinear_arith)
            requires
                0 <= p.x,
                0 <= p.y,
                0 < w,
                i == p.y * w + p.x,
        ;
        vstd::arithmetic::div_mod::lemma_fundamental_div_mod_converse(i, w, p.y as int, p.x as int);
        let last = cycle_len(rect) - 1;
        lemma_walk_round(rect, i, (last - i) as nat);
        lemma_round_cell_bounds(rect, last);
        let h = rect.height as int;
        assert(last == (h - 2) * w + (w - 1)) by (nonlinear_arith)
            requires
                last == cycle_len(rect) - 1,
                cycle_len(rect) == w * (h - 1),
        ;
        vstd::arithmetic::div_mod::lemma_fundamental_div_mod_converse(last, w, rect.height - 2, w - 1);
        assert(round_cell(rect, i) == p);
        let s = (last - i + 1) as nat;
        assert(walk(p, rect, s) == next_cell(walk(p, rect, (last - i) as nat), rect));
        s
    }
}

/// Along the last row the walk moves one column at a time, and from its
/// last column it goes to the first cell of the round.
proof fn lemma_walk_along_last_row(p: Position, rect: Rect, j: nat)
    requires
        walkable(rect),
        on_grid(p, rect),
        p.y == rect.height - 1,
        p.x + j <= rect.width - 1,
    ensures
        walk(p, rect, j) == (Position { x: (p.x + j) as i32, y: p.y }),
        p.x + j == rect.width - 1 ==> walk(p, rect, j + 1) == (Position { x: 0, y: 0 }),
    decreases j,
{
    if j > 0 {
        lemma_walk_along_last_row(p, rect, (j - 1) as nat);
    }
}

/// The rounds's cells are distinct.
proof fn lemma_round_cell_injective(rect: Rect, i: int, j: int)
    requires
        walkable(rect),
        0 <= i < cycle_len(rect),
        0 <= j < cycle_len(rect),
        round_cell(rect, i) == round_cell(rect, j),
    ensures
        i == j,
{
    lemma_round_cell_bounds(rect, i);
    lemma_round_cell_bounds(rect, j);
}

/// While a grid holds fewer entities than the round has cells, the walk
/// from any of its cells comes to an empty cell, every step on the way
/// being defined.
pub proof fn law_walk_finds_empty<E>(entities: Map<Position, E>, rect: Rect, p: Position)
    requires
        walkable(rect),
        on_grid(p, rect),
        entities.dom().finite(),
        entities.dom().len() < cycle_len(rect),
    ensures
        exists|k: nat| first_empty_at(entities, rect, p, k),
{
    let s = lemma_walk_reaches_start(p, rect);
    let bound = (s + cycle_len(rect)) as nat;
    if forall|j: nat| j < bound ==> #[trigger] entities.contains_key(walk(p, rect, j)) {
        let range = vstd::set_lib::set_int_range(0, cycle_len(rect));
        let f = |i: int| round_cell(rect, i);
        vstd::set_lib::lemma_int_range(0, cycle_len(rect));
        assert(vstd::relations::injective_on(f, range)) by {
            assert forall|i: int, j: int| range.contains(i) && range.contains(j) && #[trigger] f(i) == #[trigger] f(j) implies i == j by {
                lemma_round_cell_injective(rect, i, j);
            }
        }
        vstd::set_lib::lemma_map_size(range, range.map(f), f);
        assert(range.map(f).subset_of(entities.dom())) by {
            assert forall|c: Position| #[trigger] range.map(f).contains(c) implies entities.dom().contains(c) by {
                let i = choose|i: int| range.contains(i) && f(i) == c;
                lemma_walk_round(rect, 0, i as nat);
                lemma_walk_split(p, rect, s, i as nat);
                assert(entities.contains_key(walk(p, rect, (s + i) as nat)));
            }
        }
        vstd::set_lib::lemma_len_subset(range.map(f), entities.dom());
        assert(false);
    }
    let j0 = choose|j: nat| j < bound && !entities.contains_key(#[trigger] walk(p, rect, j));
    let k = lemma_first_empty(entities, rect, p, j0);
}

/// Below an empty cell of the walk there is a first one.
proof fn lemma_first_empty<E>(entities: Map<Position, E>, rect: Rect, p: Position, j: nat) -> (k: nat)
    requires
        walkable(rect),
        on_grid(p, rect),
        !entities.contains_key(walk(p, rect, j)),
    ensures
        k <= j,
        first_empty_at(entities, rect, p, k),
    decreases j,
{
    if exists|i: nat| i < j && !entities.contains_key(#[trigger] walk(p, rect, i)) {
        let i = choose|i: nat| i < j && !entities.contains_key(#[trigger] walk(p, rect, i));
        lemma_first_empty(entities, rect, p, i)
    } else {
        assert forall|i: nat| i < j implies #[trigger] entities.contains_key(walk(p, rect, i)) && step_defined(
            walk(p, rect, i),
            rect,
        ) by {
            law_walk_stays_on_grid(p, rect, i);
        }
        j
    }
}

} // verus!
