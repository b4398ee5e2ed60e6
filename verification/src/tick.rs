use vstd::prelude::*;
use crate::action::Action;
use crate::board::{lemma_place_all_shape, lemma_place_shape, row_scan, Board};
use crate::entity::{Entity, EntityKind, Field, Player};
use crate::movement::Movement;
use crate::tile::Tile;
use crate::zone::{zone_at, Zone};

verus! {

/// What the host has to draw after a mutation.
#[derive(Clone, Copy, Debug, PartialEq, Eq)]
pub enum Redraw {
    /// Draw the cell that an action wrote, within the zone.
    Cell(Zone, Action),
    /// Draw the whole zone afresh.
    Whole(Zone),
}

/// One cell redraw per action when a zone is shown; nothing otherwise.
pub open spec fn cell_redraws(zone: Option<Zone>, actions: Seq<Action>) -> Seq<Redraw> {
    match zone {
        Some(z) => Seq::new(actions.len(), |i: int| Redraw::Cell(z, actions[i])),
        None => Seq::empty(),
    }
}

impl Entity {
    /// The actions an entity decides on for one tick, read off board `b`.
    pub open spec fn spec_update(self, b: Board) -> Seq<Action> {
        match self {
            Entity::Rock(r) => r.spec_fall(b),
            Entity::Diamond(d) => d.spec_fall(b),
            Entity::Player(p) => p.spec_update(b),
        }
    }
}

/// The actions of whatever stands on a tile: those of its entity, or none.
pub open spec fn tile_actions(t: Tile, b: Board) -> Seq<Action> {
    match t.field {
        Field::Entity(e) => e.spec_update(b),
        _ => Seq::empty(),
    }
}

impl Board {
    /// The tile's own coordinate names a tile of this board.
    pub open spec fn on_board(self, t: Tile) -> bool {
        self.in_bounds(t.x as int, t.y as int)
    }

    /// The player is in a zone, and so is every tile: a tick can run.
    pub open spec fn playable(self) -> bool {
        &&& zone_at(self.zones, self.player.0 as int, self.player.1 as int) is Some
        &&& forall|x: int, y: int| #[trigger] self.in_bounds(x, y) ==> zone_at(self.zones, x, y) is Some
    }

    /// The actions of the first `n` of `tiles`, each decided on this board,
    /// one after the other.
    pub open spec fn pass_actions(self, tiles: Seq<Tile>, n: int) -> Seq<Action>
        decreases n,
    {
        if n <= 0 {
            Seq::empty()
        } else {
            self.pass_actions(tiles, n - 1) + tile_actions(tiles[n - 1], self)
        }
    }

    /// The actions of all entities of one kind, in scan order, all decided
    /// on this board before any of them is applied.
    pub open spec fn kind_pass(self, kind: EntityKind) -> Seq<Action> {
        self.pass_actions(self.scan(kind), self.scan(kind).len() as int)
    }

    /// The actions of whatever stands on the player's cached coordinate.
    pub open spec fn player_pass(self) -> Seq<Action> {
        match self.tile_at(self.player.0 as int, self.player.1 as int) {
            Some(t) => tile_actions(t, self),
            None => Seq::empty(),
        }
    }

    /// The board after the player at the cached coordinate has taken up a
    /// movement intent. When pushing, the player with the new intent is put
    /// back on the cached coordinate; otherwise its push is cancelled. A
    /// board without a player there stays as it is.
    pub open spec fn with_intent(self, movement: Movement, pushing: bool) -> Board {
        match self.tile_at(self.player.0 as int, self.player.1 as int) {
            Some(t) => match t.field {
                Field::Entity(Entity::Player(p)) => {
                    let q = Player { position: p.position, movement, pushing: p.pushing };
                    if pushing {
                        self.place(
                            Action { position: self.player, field: Field::Entity(Entity::Player(q)) },
                        )
                    } else {
                        self.place(q.spec_cancel_push())
                    }
                },
                _ => self,
            },
            None => self,
        }
    }

    /// The board with its cached player coordinate read afresh from the
    /// first tile that holds a player; without one it stays.
    pub open spec fn resync(self) -> Board {
        let found = self.scan(EntityKind::Player);
        if found.len() > 0 {
            Board { rows: self.rows, player: (found[0].x, found[0].y), zones: self.zones }
        } else {
            self
        }
    }

    /// The board after the rocks' pass.
    pub open spec fn after_rocks(self) -> Board {
        self.place_all(self.kind_pass(EntityKind::Rock))
    }

    /// The board after the rocks' and the player's pass. A player that
    /// decides on nothing is recorded as idle.
    pub open spec fn after_player(self) -> Board {
        let r = self.after_rocks();
        let acts = r.player_pass();
        let moved = if acts.len() == 0 {
            r.with_intent(Movement::Afk, false)
        } else {
            r.place_all(acts)
        };
        moved.resync()
    }

    /// The board after one tick: rocks, then the player, then diamonds.
    pub open spec fn tick(self) -> Board {
        let p = self.after_player();
        p.place_all(p.kind_pass(EntityKind::Diamond))
    }

    /// What one tick asks the host to draw, in order.
    pub open spec fn tick_redraws(self) -> Seq<Redraw> {
        let z0 = zone_at(self.zones, self.player.0 as int, self.player.1 as int);
        let r = self.after_rocks();
        let acts = r.player_pass();
        let p = self.after_player();
        let z1 = zone_at(p.zones, p.player.0 as int, p.player.1 as int);
        cell_redraws(z0, self.kind_pass(EntityKind::Rock)) + (if acts.len() == 0 {
            Seq::empty()
        } else {
            cell_redraws(z0, acts)
        }) + (if z0 != z1 && z1 is Some {
            seq![Redraw::Whole(z1->0)]
        } else {
            Seq::empty()
        }) + cell_redraws(z1, p.kind_pass(EntityKind::Diamond))
    }
}

/// On a board whose tiles know their coordinates, every tile that a row scan
/// finds is a tile of the board.
pub proof fn lemma_row_scan_on_board(b: Board, y: int, kind: EntityKind, n: int)
    requires
        b.wf(),
        0 <= y < b.rows.len(),
        0 <= n <= b.rows[y].len(),
    ensures
        forall|i: int|
            0 <= i < row_scan(b.rows[y], kind, n).len() ==> b.on_board(
                #[trigger] row_scan(b.rows[y], kind, n)[i],
            ),
    decreases n,
{
    if n > 0 {
        lemma_row_scan_on_board(b, y, kind, n - 1);
        assert(b.in_bounds(n - 1, y));
        let prev = row_scan(b.rows[y], kind, n - 1);
        let cur = row_scan(b.rows[y], kind, n);
        assert forall|i: int| 0 <= i < cur.len() implies b.on_board(#[trigger] cur[i]) by {
            if i < prev.len() {
                assert(cur[i] == prev[i]);
            } else {
                assert(cur[i] == b.rows[y][n - 1]);
            }
        }
    }
}

/// On a board whose tiles know their coordinates, every tile that a scan
/// finds is a tile of the board.
pub proof fn lemma_scan_on_board(b: Board, kind: EntityKind, n: int)
    requires
        b.wf(),
        0 <= n <= b.rows.len(),
    ensures
        forall|i: int|
            0 <= i < b.scan_upto(kind, n).len() ==> b.on_board(#[trigger] b.scan_upto(kind, n)[i]),
    decreases n,
{
    if n > 0 {
        lemma_scan_on_board(b, kind, n - 1);
        lemma_row_scan_on_board(b, n - 1, kind, b.rows[n - 1].len() as int);
        let prev = b.scan_upto(kind, n - 1);
        let row = row_scan(b.rows[n - 1], kind, b.rows[n - 1].len() as int);
        let cur = b.scan_upto(kind, n);
        assert forall|i: int| 0 <= i < cur.len() implies b.on_board(#[trigger] cur[i]) by {
            if i < prev.len() {
                assert(cur[i] == prev[i]);
            } else {
                assert(cur[i] == row[i - prev.len()]);
            }
        }
    }
}

/// Taking up an intent keeps the board's shape, coordinates, zones and
/// cached player coordinate.
pub proof fn lemma_with_intent_shape(b: Board, movement: Movement, pushing: bool)
    ensures
        forall|x: int, y: int| #[trigger]
            b.with_intent(movement, pushing).in_bounds(x, y) == b.in_bounds(x, y),
        b.wf() ==> b.with_intent(movement, pushing).wf(),
        b.with_intent(movement, pushing).player == b.player,
        b.with_intent(movement, pushing).zones == b.zones,
{
    match b.tile_at(b.player.0 as int, b.player.1 as int) {
        Some(t) => match t.field {
            Field::Entity(Entity::Player(p)) => {
                let q = Player { position: p.position, movement, pushing: p.pushing };
                lemma_place_shape(
                    b,
                    Action { position: b.player, field: Field::Entity(Entity::Player(q)) },
                );
                lemma_place_shape(b, q.spec_cancel_push());
            },
            _ => {},
        },
        None => {},
    }
}

/// A tick keeps a board playable: the tiles keep their coordinates, and the
/// player and every tile stay within the zones.
pub proof fn lemma_tick_keeps_playable(b: Board)
    requires
        b.wf(),
        b.playable(),
    ensures
        b.after_rocks().wf(),
        b.after_rocks().playable(),
        b.after_player().wf(),
        b.after_player().playable(),
        b.tick().wf(),
        b.tick().playable(),
        b.tick().zones == b.zones,
{
    let r = b.after_rocks();
    lemma_place_all_shape(b, b.kind_pass(EntityKind::Rock));
    assert(r.playable()) by {
        assert forall|x: int, y: int| #[trigger] r.in_bounds(x, y) implies zone_at(r.zones, x, y)
            is Some by {
            assert(b.in_bounds(x, y));
        }
    }
    let acts = r.player_pass();
    let moved = if acts.len() == 0 {
        r.with_intent(Movement::Afk, false)
    } else {
        r.place_all(acts)
    };
    lemma_with_intent_shape(r, Movement::Afk, false);
    lemma_place_all_shape(r, acts);
    assert(moved.wf());
    assert forall|x: int, y: int| #[trigger] moved.in_bounds(x, y) implies zone_at(moved.zones, x, y)
        is Some by {
        assert(r.in_bounds(x, y));
    }
    let p = moved.resync();
    assert(p == b.after_player());
    let found = moved.scan(EntityKind::Player);
    lemma_scan_on_board(moved, EntityKind::Player, moved.rows.len() as int);
    if found.len() > 0 {
        assert(moved.on_board(found[0]));
        assert(moved.in_bounds(found[0].x as int, found[0].y as int));
    }
    assert(p.wf()) by {
        assert forall|x: int, y: int| #[trigger] p.in_bounds(x, y) implies p.rows[y][x].x == x
            && p.rows[y][x].y == y by {
            assert(moved.in_bounds(x, y));
        }
    }
    assert(p.playable()) by {
        assert forall|x: int, y: int| #[trigger] p.in_bounds(x, y) implies zone_at(p.zones, x, y)
            is Some by {
            assert(moved.in_bounds(x, y));
        }
    }
    let t = b.tick();
    lemma_place_all_shape(p, p.kind_pass(EntityKind::Diamond));
    assert(t.playable()) by {
        assert forall|x: int, y: int| #[trigger] t.in_bounds(x, y) implies zone_at(t.zones, x, y)
            is Some by {
            assert(p.in_bounds(x, y));
        }
    }
}

} // verus!
