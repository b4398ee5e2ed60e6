use vstd::prelude::*;
use crate::action::Action;
use crate::entity::{EntityKind, Field};
use crate::movement::Movement;
use crate::tile::Tile;
use crate::zone::Zone;

verus! {

/// The mathematical model of a grid: its rows of tiles (row `y`, then column
/// `x`), the cached player coordinate, and the zone table.
pub struct Board {
    pub rows: Seq<Seq<Tile>>,
    pub player: (i32, i32),
    pub zones: Seq<Zone>,
}

/// The tiles among the first `n` of `row` that hold an entity of `kind`, in
/// column order.
pub open spec fn row_scan(row: Seq<Tile>, kind: EntityKind, n: int) -> Seq<Tile>
    decreases n,
{
    if n <= 0 {
        Seq::empty()
    } else {
        let before = row_scan(row, kind, n - 1);
        if row[n - 1].field.holds(kind) {
            before.push(row[n - 1])
        } else {
            before
        }
    }
}

impl Board {
    /// Whether (`x`, `y`) names a tile.
    pub open spec fn in_bounds(self, x: int, y: int) -> bool {
        0 <= y < self.rows.len() && 0 <= x < self.rows[y].len()
    }

    /// The tile at (`x`, `y`), if the coordinate is on the grid.
    pub open spec fn tile_at(self, x: int, y: int) -> Option<Tile> {
        if self.in_bounds(x, y) {
            Some(self.rows[y][x])
        } else {
            None
        }
    }

    /// The neighbour of (`x`, `y`) one step in `direction`. Standing still
    /// names no neighbour, and neither does a step off the grid or out of the
    /// coordinate range.
    pub open spec fn nearest(self, x: i32, y: i32, direction: Movement) -> Option<Tile> {
        if direction == Movement::Afk || !direction.step_fits((x, y)) {
            None
        } else {
            let t = direction.step((x as int, y as int));
            self.tile_at(t.0, t.1)
        }
    }

    /// Every tile knows its own coordinate.
    pub open spec fn wf(self) -> bool {
        forall|x: int, y: int| #[trigger]
            self.in_bounds(x, y) ==> self.rows[y][x].x == x && self.rows[y][x].y == y
    }

    /// The board after one action: the target tile holds the action's field;
    /// an action aimed off the grid changes nothing.
    pub open spec fn place(self, a: Action) -> Board {
        let x = a.position.0 as int;
        let y = a.position.1 as int;
        if self.in_bounds(x, y) {
            let t = self.rows[y][x];
            Board {
                rows: self.rows.update(
                    y,
                    self.rows[y].update(x, Tile { x: t.x, y: t.y, field: a.field }),
                ),
                player: self.player,
                zones: self.zones,
            }
        } else {
            self
        }
    }

    /// The board after a list of actions, applied in order.
    pub open spec fn place_all(self, actions: Seq<Action>) -> Board
        decreases actions.len(),
    {
        if actions.len() == 0 {
            self
        } else {
            self.place_all(actions.drop_last()).place(actions.last())
        }
    }

    /// The tiles of the first `n` rows that hold an entity of `kind`, row by
    /// row from the top, each row from the left.
    pub open spec fn scan_upto(self, kind: EntityKind, n: int) -> Seq<Tile>
        decreases n,
    {
        if n <= 0 {
            Seq::empty()
        } else {
            self.scan_upto(kind, n - 1) + row_scan(
                self.rows[n - 1],
                kind,
                self.rows[n - 1].len() as int,
            )
        }
    }

    /// All tiles that hold an entity of `kind`, in scan order.
    pub open spec fn scan(self, kind: EntityKind) -> Seq<Tile> {
        self.scan_upto(kind, self.rows.len() as int)
    }

    /// The field read back from (`x`, `y`).
    pub open spec fn field_at(self, x: int, y: int) -> Option<Field> {
        match self.tile_at(x, y) {
            Some(t) => Some(t.field),
            None => None,
        }
    }
}

/// Placing keeps the shape of the board and every tile's own coordinate.
pub proof fn lemma_place_shape(b: Board, a: Action)
    ensures
        b.place(a).rows.len() == b.rows.len(),
        forall|y: int| 0 <= y < b.rows.len() ==> #[trigger] b.place(a).rows[y].len() == b.rows[y].len(),
        forall|x: int, y: int| #[trigger] b.place(a).in_bounds(x, y) == b.in_bounds(x, y),
        b.wf() ==> b.place(a).wf(),
        b.place(a).player == b.player,
        b.place(a).zones == b.zones,
{
    let c = b.place(a);
    assert forall|y: int| 0 <= y < b.rows.len() implies #[trigger] c.rows[y].len() == b.rows[y].len() by {}
    assert forall|x: int, y: int| #[trigger] c.in_bounds(x, y) == b.in_bounds(x, y) by {}
    if b.wf() {
        assert forall|x: int, y: int| #[trigger] c.in_bounds(x, y) implies c.rows[y][x].x == x
            && c.rows[y][x].y == y by {
            assert(b.in_bounds(x, y));
        }
    }
}

/// Placing a list keeps the shape of the board and every tile's own
/// coordinate.
pub proof fn lemma_place_all_shape(b: Board, actions: Seq<Action>)
    ensures
        b.place_all(actions).rows.len() == b.rows.len(),
        forall|y: int|
            0 <= y < b.rows.len() ==> #[trigger] b.place_all(actions).rows[y].len() == b.rows[y].len(),
        forall|x: int, y: int| #[trigger] b.place_all(actions).in_bounds(x, y) == b.in_bounds(x, y),
        b.wf() ==> b.place_all(actions).wf(),
        b.place_all(actions).player == b.player,
        b.place_all(actions).zones == b.zones,
    decreases actions.len(),
{
    if actions.len() > 0 {
        let mid = b.place_all(actions.drop_last());
        lemma_place_all_shape(b, actions.drop_last());
        lemma_place_shape(mid, actions.last());
        let c = b.place_all(actions);
        assert forall|x: int, y: int| #[trigger] c.in_bounds(x, y) == b.in_bounds(x, y) by {
            assert(mid.in_bounds(x, y) == b.in_bounds(x, y));
        }
    }
}

/// Last writer wins: after two actions on one coordinate, the cell holds the
/// second action's field, whatever the first wrote.
pub proof fn lemma_last_writer_wins(b: Board, first: Action, second: Action)
    requires
        first.position == second.position,
        b.in_bounds(second.position.0 as int, second.position.1 as int),
    ensures
        b.place_all(seq![first, second]).field_at(
            second.position.0 as int,
            second.position.1 as int,
        ) == Some(second.field),
        b.place_all(seq![first, second]) == b.place(second),
{
    let both = seq![first, second];
    assert(both.drop_last() =~= seq![first]);
    assert(seq![first].drop_last() =~= Seq::<Action>::empty());
    assert(b.place_all(Seq::<Action>::empty()) == b);
    assert(b.place_all(seq![first]) == b.place(first));
    assert(b.place_all(both) == b.place(first).place(second));
    let x = second.position.0 as int;
    let y = second.position.1 as int;
    assert(b.place(first).place(second).rows =~= b.place(second).rows) by {
        assert(b.place(first).place(second).rows[y] =~= b.place(second).rows[y]);
    }
}

/// In any list of actions, the last one decides its own cell.
pub proof fn lemma_final_action_decides(b: Board, actions: Seq<Action>)
    requires
        actions.len() > 0,
        b.in_bounds(actions.last().position.0 as int, actions.last().position.1 as int),
    ensures
        b.place_all(actions).field_at(
            actions.last().position.0 as int,
            actions.last().position.1 as int,
        ) == Some(actions.last().field),
{
    lemma_place_all_shape(b, actions.drop_last());
}

} // verus!
