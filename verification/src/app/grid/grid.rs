//! The application grid: which entity stands on which cell.
use super::walk::{first_empty_at, step_defined, walk};
use super::Position;
use crate::sim::grid::Rect;
use std::collections::HashMap;
use vstd::prelude::*;

verus! {

broadcast use vstd::std_specs::hash::group_hash_axioms;

/// The number under which a cell is stored: its column times 2^32 plus its
/// row shifted by 2^31. Every `i64` is the number of exactly one cell.
pub open spec fn cell_key(p: Position) -> int {
    p.x * 0x1_0000_0000 + (p.y + 0x8000_0000)
}

/// Two cells with the same number are the same cell.
pub proof fn lemma_cell_key_injective(p: Position, q: Position)
    ensures
        cell_key(p) == cell_key(q) ==> p == q,
{
    let (px, py, qx, qy) = (p.x as int, p.y as int, q.x as int, q.y as int);
    if cell_key(p) == cell_key(q) {
        assert(px == qx) by (nonlinear_arith)
            requires
                px * 0x1_0000_0000 + (py + 0x8000_0000) == qx * 0x1_0000_0000 + (qy + 0x8000_0000),
                -0x8000_0000 <= py < 0x8000_0000,
                -0x8000_0000 <= qy < 0x8000_0000,
        ;
    }
}

/// The number of a cell fits in an `i64`.
pub proof fn lemma_cell_key_fits(p: Position)
    ensures
        i64::MIN <= cell_key(p) <= i64::MAX,
        (cell_key(p) as i64) as int == cell_key(p),
{
    let (x, y) = (p.x as int, p.y as int);
    assert(-0x8000_0000_0000_0000 <= x * 0x1_0000_0000 + (y + 0x8000_0000) <= 0x7fff_ffff_ffff_ffff) by (nonlinear_arith)
        requires
            -0x8000_0000 <= x < 0x8000_0000,
            -0x8000_0000 <= y < 0x8000_0000,
    ;
}

/// The cell whose number is `k`.
pub open spec fn key_cell(k: int) -> Position {
    Position { x: (k / 0x1_0000_0000) as i32, y: (k % 0x1_0000_0000 - 0x8000_0000) as i32 }
}

/// Every `i64` is the number of a cell.
pub proof fn lemma_key_cell(k: i64)
    ensures
        cell_key(key_cell(k as int)) == k,
{
    let q = (k as int) / 0x1_0000_0000;
    let r = (k as int) % 0x1_0000_0000;
    vstd::arithmetic::div_mod::lemma_fundamental_div_mod(k as int, 0x1_0000_0000);
    vstd::arithmetic::div_mod::lemma_mod_bound(k as int, 0x1_0000_0000);
    assert(-0x8000_0000 <= q < 0x8000_0000) by (nonlinear_arith)
        requires
            k as int == 0x1_0000_0000 * q + r,
            0 <= r < 0x1_0000_0000,
            -0x8000_0000_0000_0000 <= k < 0x8000_0000_0000_0000,
    ;
}

fn key_of(p: &Position) -> (k: i64)
    ensures
        k == cell_key(*p),
{
    proof {
        lemma_cell_key_fits(*p);
    }
    let row: i64 = (p.y as i64) + 0x8000_0000;
    (p.x as i64) * 0x1_0000_0000 + row
}

/// The four cells next to `pos`: north, east, south and west.
pub open spec fn neighbour_cells(pos: Position) -> Seq<Position> {
    seq![
        Position { x: pos.x, y: (pos.y - 1) as i32 },
        Position { x: (pos.x + 1) as i32, y: pos.y },
        Position { x: pos.x, y: (pos.y + 1) as i32 },
        Position { x: (pos.x - 1) as i32, y: pos.y },
    ]
}

/// The cells of `cells` that `entities` occupies, in order.
pub open spec fn occupied_among<E>(entities: Map<Position, E>, cells: Seq<Position>) -> Seq<Position>
    decreases cells.len(),
{
    if cells.len() == 0 {
        Seq::empty()
    } else {
        let rest = occupied_among(entities, cells.drop_last());
        if entities.contains_key(cells.last()) {
            rest.push(cells.last())
        } else {
            rest
        }
    }
}

/// The grid: its rectangle and the entities on its cells.
pub struct Grid<E> {
    pub rect: Rect,
    /// The entities by the number of their cell (see `cell_key`).
    pub entities: HashMap<i64, E>,
}

impl<E> Grid<E> {
    /// The entity on each occupied cell.
    pub open spec fn entities(&self) -> Map<Position, E> {
        Map::new(
            |p: Position| self.entities@.contains_key(cell_key(p) as i64),
            |p: Position| self.entities@[cell_key(p) as i64],
        )
    }

    /// The cells with an entity are finitely many, as many as the entities.
    pub proof fn lemma_entities_finite(&self)
        ensures
            self.entities().dom().finite(),
            self.entities().dom().len() == self.entities@.len(),
    {
        let keys = self.entities@.dom();
        let f = |k: i64| key_cell(k as int);
        assert(vstd::relations::injective_on(f, keys)) by {
            assert forall|a: i64, b: i64| keys.contains(a) && keys.contains(b) && #[trigger] f(a) == #[trigger] f(b) implies a == b by {
                lemma_key_cell(a);
                lemma_key_cell(b);
            }
        }
        assert(keys.map(f) =~= self.entities().dom()) by {
            assert forall|c: Position| #[trigger] self.entities().dom().contains(c) implies keys.map(f).contains(c) by {
                lemma_cell_key_fits(c);
                let k = cell_key(c) as i64;
                lemma_key_cell(k);
                lemma_cell_key_injective(key_cell(k as int), c);
                assert(f(k) == c);
            }
            assert forall|c: Position| #[trigger] keys.map(f).contains(c) implies self.entities().dom().contains(c) by {
                let k = choose|k: i64| keys.contains(k) && f(k) == c;
                lemma_key_cell(k);
                lemma_cell_key_fits(c);
            }
        }
        vstd::set_lib::lemma_map_size(keys, keys.map(f), f);
    }

    pub open spec fn occupied(&self, p: Position) -> bool {
        self.entities().contains_key(p)
    }

    /// An empty grid of 33 columns and 17 rows with its corner at the origin.
    pub fn new() -> (g: Self)
        ensures
            g.rect == (Rect { position: Position { x: 0, y: 0 }, width: 33, height: 17 }),
            g.entities() == Map::<Position, E>::empty(),
    {
        let g = Grid { rect: Rect::new(33, 17, Position::origin()), entities: HashMap::new() };
        assert(g.entities() =~= Map::<Position, E>::empty());
        g
    }

    /// Whether no entity stands on `pos`.
    pub fn is_empty(&self, pos: &Position) -> (r: bool)
        ensures
            r == !self.occupied(*pos),
    {
        let k = key_of(pos);
        !self.entities.contains_key(&k)
    }

    /// The entity on `pos`, if any.
    pub fn get_entity(&self, pos: &Position) -> (r: Option<&E>)
        ensures
            match r {
                Some(e) => self.occupied(*pos) && *e == self.entities()[*pos],
                None => !self.occupied(*pos),
            },
    {
        let k = key_of(pos);
        self.entities.get(&k)
    }

    /// Puts `entity` on `pos`, replacing what stood there.
    pub fn add_entity(&mut self, pos: &Position, entity: E)
        ensures
            final(self).entities() == old(self).entities().insert(*pos, entity),
            final(self).rect == old(self).rect,
    {
        let k = key_of(pos);
        self.entities.insert(k, entity);
        proof {
            assert forall|p: Position| #[trigger] self.entities().contains_key(p) == old(self).entities().insert(*pos, entity).contains_key(p) by {
                lemma_cell_key_injective(p, *pos);
                lemma_cell_key_fits(p);
                lemma_cell_key_fits(*pos);
            }
            assert forall|p: Position| #[trigger] self.entities().contains_key(p) implies self.entities()[p] == old(self).entities().insert(*pos, entity)[p] by {
                lemma_cell_key_injective(p, *pos);
                lemma_cell_key_fits(p);
                lemma_cell_key_fits(*pos);
            }
            assert(self.entities() =~= old(self).entities().insert(*pos, entity));
        }
    }

    /// Takes away the entity on `pos`, if any.
    pub fn remove_entity(&mut self, pos: &Position)
        ensures
            final(self).entities() == old(self).entities().remove(*pos),
            final(self).rect == old(self).rect,
    {
        let k = key_of(pos);
        self.entities.remove(&k);
        proof {
            assert forall|p: Position| #[trigger] self.entities().contains_key(p) == old(self).entities().remove(*pos).contains_key(p) by {
                lemma_cell_key_injective(p, *pos);
                lemma_cell_key_fits(p);
                lemma_cell_key_fits(*pos);
            }
            assert(self.entities() =~= old(self).entities().remove(*pos));
        }
    }

    /// The cells next to `pos` with an entity, north, east, south and west:
    /// the entities that an entity put on `pos` connects with.
    pub fn neighbours(&self, pos: &Position) -> (r: Vec<Position>)
        requires
            pos.x != i32::MIN,
            pos.x != i32::MAX,
            pos.y != i32::MIN,
            pos.y != i32::MAX,
        ensures
            r@ == occupied_among(self.entities(), neighbour_cells(*pos)),
    {
        let cells = [
            Position::new(pos.x, pos.y - 1),
            Position::new(pos.x + 1, pos.y),
            Position::new(pos.x, pos.y + 1),
            Position::new(pos.x - 1, pos.y),
        ];
        assert(cells@ =~= neighbour_cells(*pos));
        let mut r: Vec<Position> = Vec::new();
        let mut i: usize = 0;
        while i < 4
            invariant
                i <= 4,
                cells@ == neighbour_cells(*pos),
                r@ == occupied_among(self.entities(), cells@.take(i as int)),
            decreases 4 - i,
        {
            assert(cells@.take(i + 1).drop_last() =~= cells@.take(i as int));
            if !self.is_empty(&cells[i]) {
                r.push(cells[i]);
            }
            i = i + 1;
        }
        assert(cells@.take(4) =~= cells@);
        r
    }

    /// The first empty cell on the walk from `p`: `p` itself when it is
    /// empty, else the next cells column by column and row by row, wrapping
    /// to the first column and, past the last row but one, to the first
    /// row. Only walks that reach an empty cell are accepted.
    pub fn find_nearest_empty(&self, p: &Position) -> (r: Position)
        requires
            exists|k: nat| first_empty_at(self.entities(), self.rect, *p, k),
            self.rect.width > i32::MIN,
            self.rect.height > i32::MIN,
        ensures
            exists|k: nat| first_empty_at(self.entities(), self.rect, *p, k) && r == walk(*p, self.rect, k),
    {
        let ghost goal: nat = choose|k: nat| first_empty_at(self.entities(), self.rect, *p, k);
        let ghost mut i: nat = 0;
        let mut pos = *p;
        while !self.is_empty(&pos)
            invariant
                first_empty_at(self.entities(), self.rect, *p, goal),
                self.rect.width > i32::MIN,
                self.rect.height > i32::MIN,
                i <= goal,
                pos == walk(*p, self.rect, i),
                forall|j: nat| j < i ==> #[trigger] self.occupied(walk(*p, self.rect, j)),
            decreases goal - i,
        {
            assert(i != goal);
            assert(step_defined(walk(*p, self.rect, i), self.rect));
            if pos.x >= self.rect.width - 1 {
                pos.x = 0;
                pos.y = pos.y + 1;
                if pos.y >= self.rect.height - 1 {
                    pos.y = 0;
                }
            } else {
                pos.x = pos.x + 1;
            }
            proof {
                i = i + 1;
            }
        }
        proof {
            assert(first_empty_at(self.entities(), self.rect, *p, i));
        }
        pos
    }
}

} // verus!
