//! The entities of the application grid, and the signals that join an
//! entity to its neighbours.
use super::grid::Grid;
use super::Position;
use crate::sim::entity::signals::{apply_connections, connect_signal, initialized_input, next_source_id, source_limit, tracker_inputs};
use crate::sim::entity::{Step, Trigger};
use screech::{Input, Output, Screech};
use vstd::prelude::*;

verus! {

/// An entity on the grid.
pub enum GridEntity {
    Step(Step),
    Trigger(Trigger),
}

/// The output signal of an entity.
pub open spec fn entity_output(e: GridEntity) -> Output {
    match e {
        GridEntity::Step(s) => s.output_signal(),
        GridEntity::Trigger(t) => t.output_signal(),
    }
}

/// The engine source that an entity belongs to.
pub open spec fn entity_source_id(e: GridEntity) -> usize {
    match e {
        GridEntity::Step(s) => s.source_id(),
        GridEntity::Trigger(t) => t.source_id(),
    }
}

/// The prompt shown for an entity.
pub open spec fn entity_prompt(e: GridEntity) -> Seq<char> {
    match e {
        GridEntity::Step(_) => "step"@,
        GridEntity::Trigger(_) => "step"@,
    }
}

/// How many settings an entity has: a trigger's tempo and share of the
/// beat; a step has none.
pub open spec fn entity_settings(e: GridEntity) -> usize {
    match e {
        GridEntity::Step(_) => 0,
        GridEntity::Trigger(_) => 2,
    }
}

/// Whether `input` is an input that the engine registered for a source
/// below `limit`.
pub open spec fn input_fits(input: Input, limit: nat) -> bool {
    exists|id: usize, name: Seq<char>| input == initialized_input(id, name) && id < limit
}

/// Whether the signals of an entity belong to a source below `limit`.
pub open spec fn entity_fits(e: GridEntity, limit: nat) -> bool {
    match e {
        GridEntity::Step(s) => s.input_signal() == initialized_input(s.source_id(), "input"@) && s.source_id()
            < limit,
        GridEntity::Trigger(_) => true,
    }
}

/// Whether every entity of the grid belongs to a source below `limit`.
pub open spec fn grid_fits(entities: Map<Position, GridEntity>, limit: nat) -> bool {
    forall|p: Position| #[trigger] entities.contains_key(p) ==> entity_fits(entities[p], limit)
}

/// The signal that feeds `from` into `to`: a step takes the output of the
/// entity next to it; a trigger takes none.
pub open spec fn link(from: GridEntity, to: GridEntity) -> Seq<(Output, Input)> {
    match to {
        GridEntity::Step(s) => seq![(entity_output(from), s.input_signal())],
        GridEntity::Trigger(_) => Seq::empty(),
    }
}

/// The link from `from` into `to` where a cell holds `from`, none otherwise.
pub open spec fn link_if(entities: Map<Position, GridEntity>, from: Position, to: Position) -> Seq<(Output, Input)> {
    if entities.contains_key(from) && entities.contains_key(to) {
        link(entities[from], entities[to])
    } else {
        Seq::empty()
    }
}

/// The signals that join the entity on `pos` to its neighbours, taken north,
/// east, south and west: the entity takes the output of its northern and
/// western neighbours, and feeds its eastern and southern ones.
pub open spec fn spec_connections(entities: Map<Position, GridEntity>, pos: Position) -> Seq<(Output, Input)> {
    let north = Position { x: pos.x, y: (pos.y - 1) as i32 };
    let east = Position { x: (pos.x + 1) as i32, y: pos.y };
    let south = Position { x: pos.x, y: (pos.y + 1) as i32 };
    let west = Position { x: (pos.x - 1) as i32, y: pos.y };
    link_if(entities, north, pos) + link_if(entities, pos, east) + link_if(entities, pos, south) + link_if(
        entities,
        west,
        pos,
    )
}

/// The cell `dx` across and `dy` down from `pos`.
pub open spec fn offset(pos: Position, dx: int, dy: int) -> Position {
    Position { x: (pos.x + dx) as i32, y: (pos.y + dy) as i32 }
}

/// Whether `pair` feeds the output of `from` into the step `to`.
pub open spec fn feeds(pair: (Output, Input), from: GridEntity, to: GridEntity) -> bool {
    to matches GridEntity::Step(s) && pair == (entity_output(from), s.input_signal())
}

/// An entity is joined both ways to the cells next to it: whatever stands
/// on `pos` feeds each step to its east and to its south, a step on `pos`
/// takes the output of whatever stands to its north and to its west, and no
/// other signal is joined; an empty cell is joined to nothing.
pub proof fn law_connections_join_neighbours(entities: Map<Position, GridEntity>, pos: Position)
    requires
        i32::MIN < pos.x < i32::MAX,
        i32::MIN < pos.y < i32::MAX,
    ensures
        !entities.contains_key(pos) ==> spec_connections(entities, pos).len() == 0,
        entities.contains_key(pos) ==> {
            let me = entities[pos];
            let c = spec_connections(entities, pos);
            &&& forall|q: Position|
                (q == offset(pos, 1, 0) || q == offset(pos, 0, 1)) && entities.contains_key(q)
                    && entities[q] is Step ==> exists|k: int|
                    0 <= k < c.len() && #[trigger] feeds(c[k], me, entities[q])
            &&& forall|q: Position|
                (q == offset(pos, 0, -1) || q == offset(pos, -1, 0)) && entities.contains_key(q) && me is Step
                    ==> exists|k: int| 0 <= k < c.len() && #[trigger] feeds(c[k], entities[q], me)
            &&& forall|k: int|
                0 <= k < c.len() ==> {
                    ||| (entities.contains_key(offset(pos, 1, 0)) && feeds(c[k], me, entities[offset(pos, 1, 0)]))
                    ||| (entities.contains_key(offset(pos, 0, 1)) && feeds(c[k], me, entities[offset(pos, 0, 1)]))
                    ||| (entities.contains_key(offset(pos, 0, -1)) && feeds(
                        c[k],
                        entities[offset(pos, 0, -1)],
                        me,
                    ))
                    ||| (entities.contains_key(offset(pos, -1, 0)) && feeds(
                        c[k],
                        entities[offset(pos, -1, 0)],
                        me,
                    ))
                }
        },
{
    let north = offset(pos, 0, -1);
    let east = offset(pos, 1, 0);
    let south = offset(pos, 0, 1);
    let west = offset(pos, -1, 0);
    let a = link_if(entities, north, pos);
    let b = link_if(entities, pos, east);
    let d = link_if(entities, pos, south);
    let w = link_if(entities, west, pos);
    let c = spec_connections(entities, pos);
    assert(c == a + b + d + w);
    if entities.contains_key(pos) {
        let me = entities[pos];
        assert(a.len() <= 1 && b.len() <= 1 && d.len() <= 1 && w.len() <= 1);
        assert forall|q: Position|
            (q == east || q == south) && entities.contains_key(q) && entities[q] is Step implies exists|k: int|
            0 <= k < c.len() && #[trigger] feeds(c[k], me, entities[q]) by {
            if q == east {
                assert(feeds(c[a.len() as int], me, entities[q]));
            } else {
                assert(feeds(c[(a.len() + b.len()) as int], me, entities[q]));
            }
        }
        assert forall|q: Position|
            (q == north || q == west) && entities.contains_key(q) && me is Step implies exists|k: int|
            0 <= k < c.len() && #[trigger] feeds(c[k], entities[q], me) by {
            if q == north {
                assert(feeds(c[0], entities[q], me));
            } else {
                assert(feeds(c[(a.len() + b.len() + d.len()) as int], entities[q], me));
            }
        }
        assert forall|k: int| 0 <= k < c.len() implies {
            ||| (entities.contains_key(east) && feeds(c[k], me, entities[east]))
            ||| (entities.contains_key(south) && feeds(c[k], me, entities[south]))
            ||| (entities.contains_key(north) && feeds(c[k], entities[north], me))
            ||| (entities.contains_key(west) && feeds(c[k], entities[west], me))
        } by {
            if k < a.len() {
                assert(c[k] == a[k]);
            } else if k < a.len() + b.len() {
                assert(c[k] == b[k - a.len()]);
            } else if k < a.len() + b.len() + d.len() {
                assert(c[k] == d[k - a.len() - b.len()]);
            } else {
                assert(c[k] == w[k - a.len() - b.len() - d.len()]);
            }
        }
    }
}

impl GridEntity {
    pub fn get_output(&self) -> (r: Output)
        ensures
            r == entity_output(*self),
    {
        match self {
            GridEntity::Step(s) => s.get_output(),
            GridEntity::Trigger(t) => t.get_output(),
        }
    }

    /// The prompt shown for the entity.
    pub fn get_prompt(&self) -> (r: String)
        ensures
            r@ == entity_prompt(*self),
    {
        match self {
            GridEntity::Step(_) => String::from_str("step"),
            GridEntity::Trigger(_) => String::from_str("step"),
        }
    }

    /// How many settings the entity has.
    pub fn settings_count(&self) -> (r: usize)
        ensures
            r == entity_settings(*self),
    {
        match self {
            GridEntity::Step(_) => 0,
            GridEntity::Trigger(_) => 2,
        }
    }
}

/// Appends the link from `from` into `to`.
fn push_link(from: &GridEntity, to: &GridEntity, v: &mut Vec<(Output, Input)>)
    ensures
        final(v)@ == old(v)@ + link(*from, *to),
{
    match to {
        GridEntity::Step(s) => {
            v.push((from.get_output(), s.get_input()));
        },
        GridEntity::Trigger(_) => {
            assert(old(v)@ + link(*from, *to) =~= old(v)@);
        },
    }
}

/// The signals that join the entity on `pos` to its neighbours (see
/// `spec_connections`).
pub fn connections(grid: &Grid<GridEntity>, pos: &Position) -> (r: Vec<(Output, Input)>)
    requires
        i32::MIN < pos.x < i32::MAX,
        i32::MIN < pos.y < i32::MAX,
    ensures
        r@ == spec_connections(grid.entities(), *pos),
{
    let mut r: Vec<(Output, Input)> = Vec::new();
    let north = Position::new(pos.x, pos.y - 1);
    let east = Position::new(pos.x + 1, pos.y);
    let south = Position::new(pos.x, pos.y + 1);
    let west = Position::new(pos.x - 1, pos.y);
    let ghost m = grid.entities();
    match grid.get_entity(pos) {
        None => {
            assert(r@ =~= spec_connections(m, *pos));
        },
        Some(me) => {
            match grid.get_entity(&north) {
                Some(n) => push_link(n, me, &mut r),
                None => {},
            }
            assert(r@ =~= link_if(m, north, *pos));
            match grid.get_entity(&east) {
                Some(e) => push_link(me, e, &mut r),
                None => {},
            }
            assert(r@ =~= link_if(m, north, *pos) + link_if(m, *pos, east));
            match grid.get_entity(&south) {
                Some(s) => push_link(me, s, &mut r),
                None => {},
            }
            assert(r@ =~= link_if(m, north, *pos) + link_if(m, *pos, east) + link_if(m, *pos, south));
            match grid.get_entity(&west) {
                Some(w) => push_link(w, me, &mut r),
                None => {},
            }
        },
    }
    r
}

/// Every signal of the grid's links goes into an input that the engine
/// registered for a source below `limit`.
proof fn lemma_connections_fit(entities: Map<Position, GridEntity>, pos: Position, limit: nat)
    requires
        grid_fits(entities, limit),
    ensures
        forall|k: int| 0 <= k < spec_connections(entities, pos).len() ==> input_fits(
            #[trigger] spec_connections(entities, pos)[k].1,
            limit,
        ),
{
    let c = spec_connections(entities, pos);
    assert forall|k: int| 0 <= k < c.len() implies input_fits(#[trigger] c[k].1, limit) by {
        let i = c[k].1;
        if exists|q: Position| entities.contains_key(q) && (entities[q] matches GridEntity::Step(s) && i
            == s.input_signal()) {
            let q = choose|q: Position| entities.contains_key(q) && (entities[q] matches GridEntity::Step(s)
                && i == s.input_signal());
            match entities[q] {
                GridEntity::Step(s) => {
                    assert(entity_fits(entities[q], limit));
                    assert(i == initialized_input(s.source_id(), "input"@));
                },
                _ => {},
            }
        }
    }
}

/// Joins the entity on `pos` to its neighbours in the engine: each pair of
/// `connections`, in order, is connected, so that every registered input
/// takes the outputs that those pairs feed into it.
pub fn connect(screech: &mut Screech, grid: &Grid<GridEntity>, pos: &Position, limit: usize)
    requires
        i32::MIN < pos.x < i32::MAX,
        i32::MIN < pos.y < i32::MAX,
        limit <= source_limit(*old(screech)),
        grid_fits(grid.entities(), limit as nat),
    ensures
        source_limit(*final(screech)) == source_limit(*old(screech)),
        next_source_id(*final(screech)) == next_source_id(*old(screech)),
        tracker_inputs(*final(screech)) == apply_connections(
            tracker_inputs(*old(screech)),
            spec_connections(grid.entities(), *pos),
        ),
{
    let conns = connections(grid, pos);
    proof {
        lemma_connections_fit(grid.entities(), *pos, limit as nat);
    }
    let mut k: usize = 0;
    while k < conns.len()
        invariant
            k <= conns@.len(),
            conns@ == spec_connections(grid.entities(), *pos),
            limit <= source_limit(*screech),
            source_limit(*screech) == source_limit(*old(screech)),
            next_source_id(*screech) == next_source_id(*old(screech)),
            forall|j: int| 0 <= j < conns@.len() ==> input_fits(#[trigger] conns@[j].1, limit as nat),
            tracker_inputs(*screech) == apply_connections(tracker_inputs(*old(screech)), conns@.take(k as int)),
        decreases conns@.len() - k,
    {
        let (output, input) = conns[k];
        assert(input_fits(conns@[k as int].1, limit as nat));
        connect_signal(screech, &output, &input);
        assert(conns@.take(k + 1).drop_last() =~= conns@.take(k as int));
        k = k + 1;
    }
    assert(conns@.take(k as int) =~= conns@);
}

} // verus!
