use vstd::prelude::*;
use crate::action::Action;
use crate::board::{lemma_place_all_shape, lemma_place_shape, row_scan, Board};
use crate::entity::{Entity, EntityKind, Field, Player};
use crate::level::{field_of, level_board, level_rows, lemma_level_round_trip, rows_from};
use crate::movement::Movement;
use crate::reader::{find_content_end, find_line_end, read_pair, read_rows, to_chars};
use crate::tick::{cell_redraws, lemma_tick_keeps_playable, lemma_with_intent_shape, tile_actions, Redraw};
use crate::tile::Tile;
use crate::zone::{zone_at, Zone};

verus! {

/// The playing field: rows of tiles, the cached player coordinate and the
/// zone table.
#[derive(Debug)]
pub struct Grid {
    tiles: Vec<Vec<Tile>>,
    player_position: (i32, i32),
    zones: Vec<Zone>,
}

impl View for Grid {
    type V = Board;

    closed spec fn view(&self) -> Board {
        Board {
            rows: Seq::new(self.tiles@.len(), |i: int| self.tiles@[i]@),
            player: self.player_position,
            zones: self.zones@,
        }
    }
}

impl Entity {
    /// The actions this entity decides on for one tick, read off the grid as
    /// it is.
    pub fn update(&self, grid: &Grid) -> (out: Vec<Action>)
        ensures
            out@ == self.spec_update(grid@),
    {
        match self {
            Entity::Rock(r) => r.update(grid),
            Entity::Diamond(d) => d.update(grid),
            Entity::Player(p) => p.update(grid),
        }
    }
}

impl Tile {
    /// The actions of whatever stands on this tile: those of its entity, or
    /// none.
    pub fn update(&self, grid: &Grid) -> (out: Vec<Action>)
        ensures
            out@ == tile_actions(*self, grid@),
    {
        match self.get_field() {
            Field::Entity(e) => e.update(grid),
            _ => Vec::new(),
        }
    }
}

impl Grid {
    /// A grid without tiles or zones.
    pub fn default() -> (out: Self)
        ensures
            out@.rows.len() == 0,
            out@.player == (0i32, 0i32),
            out@.zones.len() == 0,
            out@.wf(),
    {
        Grid { tiles: Vec::new(), player_position: (0, 0), zones: Vec::new() }
    }

    /// Reads a level text for a canvas of `canvas_sx` by `canvas_sy` pixels.
    /// Gives the grid that the text describes, or nothing where the text is
    /// malformed.
    pub fn parse(input: &str, canvas_sx: i32, canvas_sy: i32) -> (out: Option<Self>)
        ensures
            match level_board(input@, canvas_sx, canvas_sy) {
                Some(b) => out matches Some(g) && g@ == b && g@.wf(),
                None => out is None,
            },
    {
        let s = to_chars(input);
        let end1 = find_line_end(&s, 0);
        let stop1 = find_content_end(&s, 0, end1);
        let size = read_pair(&s, 0, stop1);
        if end1 >= s.len() {
            return None;
        }
        let line2: usize = end1 + 1;
        let end2 = find_line_end(&s, line2);
        let stop2 = find_content_end(&s, line2, end2);
        let player = read_pair(&s, line2, stop2);
        let body: usize = if end2 >= s.len() {
            s.len()
        } else {
            let end3 = find_line_end(&s, end2 + 1);
            if end3 >= s.len() {
                s.len()
            } else {
                end3 + 1
            }
        };
        assert(rows_from(s@, body as int) == level_rows(s@));
        match (size, player) {
            (Some(size), Some(player)) => {
                match read_rows(&s, body) {
                    Some(tiles) => {
                        let zones = Zone::from_map(size.1, size.0, canvas_sx, canvas_sy);
                        let grid = Grid { tiles, player_position: player, zones };
                        proof {
                            let b = level_board(input@, canvas_sx, canvas_sy)->0;
                            assert(grid@.rows =~= b.rows);
                            lemma_level_round_trip(input@, canvas_sx, canvas_sy);
                        }
                        Some(grid)
                    },
                    None => None,
                }
            },
            _ => None,
        }
    }

    /// Builds the grid of a well-formed level text.
    pub fn from_str(input: &str, canvas_sx: i32, canvas_sy: i32) -> (out: Self)
        requires
            level_board(input@, canvas_sx, canvas_sy) is Some,
        ensures
            out@ == level_board(input@, canvas_sx, canvas_sy)->0,
            out@.wf(),
            forall|x: int, y: int|
                #![trigger out@.field_at(x, y)]
                0 <= y < level_rows(input@).len() && 0 <= x < level_rows(input@)[y].len()
                    ==> out@.field_at(x, y) == Some(
                    field_of(level_rows(input@)[y][x], x as i32, y as i32),
                ),
    {
        proof {
            lemma_level_round_trip(input@, canvas_sx, canvas_sy);
        }
        Grid::parse(input, canvas_sx, canvas_sy).unwrap()
    }

    /// Builds the grid of a well-formed level text.
    pub fn new(level_text: &str, canvas_sx: i32, canvas_sy: i32) -> (out: Self)
        requires
            level_board(level_text@, canvas_sx, canvas_sy) is Some,
        ensures
            out@ == level_board(level_text@, canvas_sx, canvas_sy)->0,
            out@.wf(),
    {
        Grid::from_str(level_text, canvas_sx, canvas_sy)
    }

    fn tile_wide(&self, x: i64, y: i64) -> (out: Option<&Tile>)
        ensures
            out == (match self@.tile_at(x as int, y as int) {
                Some(t) => Some(&t),
                None => None::<&Tile>,
            }),
    {
        if x < 0 || y < 0 || (y as u64) >= (self.tiles.len() as u64) {
            return None;
        }
        let row = &self.tiles[y as usize];
        if (x as u64) >= (row.len() as u64) {
            return None;
        }
        Some(&row[x as usize])
    }

    /// The tile at (`x`, `y`), or nothing when the coordinate is off the grid.
    pub fn get_tile(&self, x: i32, y: i32) -> (out: Option<&Tile>)
        ensures
            out == (match self@.tile_at(x as int, y as int) {
                Some(t) => Some(&t),
                None => None::<&Tile>,
            }),
    {
        self.tile_wide(x as i64, y as i64)
    }

    /// The tile at (`x`, `y`) for writing, or nothing when the coordinate is
    /// off the grid. Whatever the caller leaves in the tile is what the grid
    /// holds there afterwards; the rest of the grid stays.
    pub fn get_mut_tile(&mut self, x: i32, y: i32) -> (out: Option<&mut Tile>)
        ensures
            match out {
                Some(t) => old(self)@.tile_at(x as int, y as int) == Some(*t) && final(self)@.rows
                    =~= old(self)@.rows.update(
                    y as int,
                    old(self)@.rows[y as int].update(x as int, *final(t)),
                ) && final(self)@.player == old(self)@.player && final(self)@.zones == old(
                    self,
                )@.zones,
                None => old(self)@.tile_at(x as int, y as int) is None && final(self)@ == old(self)@,
            },
    {
        if x < 0 || y < 0 || (y as usize) >= self.tiles.len() {
            return None;
        }
        if (x as usize) >= self.tiles[y as usize].len() {
            return None;
        }
        Some(&mut self.tiles[y as usize][x as usize])
    }

    /// The neighbour of (`x`, `y`) one step in `direction`, or nothing when
    /// that step leaves the grid. Standing still names no neighbour: the
    /// origin tile is never returned for it.
    pub fn get_nearest_tile(&self, x: i32, y: i32, direction: Movement) -> (out: Option<&Tile>)
        ensures
            out == (match self@.nearest(x, y, direction) {
                Some(t) => Some(&t),
                None => None::<&Tile>,
            }),
            direction == Movement::Afk ==> out is None,
    {
        match direction {
            Movement::Afk => None,
            Movement::MoveUp => self.tile_wide(x as i64, y as i64 - 1),
            Movement::MoveDown => if y < i32::MAX {
                self.tile_wide(x as i64, y as i64 + 1)
            } else {
                None
            },
            Movement::MoveLeft => self.tile_wide(x as i64 - 1, y as i64),
            Movement::MoveRight => if x < i32::MAX {
                self.tile_wide(x as i64 + 1, y as i64)
            } else {
                None
            },
        }
    }

    /// The cached player coordinate.
    pub fn get_player_position(&self) -> (out: (i32, i32))
        ensures
            out == self@.player,
    {
        self.player_position
    }

    /// The zone that currently contains the player, if any.
    pub fn get_player_zone(&self) -> (out: Option<Zone>)
        ensures
            out == zone_at(self@.zones, self@.player.0 as int, self@.player.1 as int),
    {
        Zone::get_current_zone(self.player_position.0, self.player_position.1, &self.zones)
    }

    /// All tiles that hold an entity of `kind`: a full scan, rows from the
    /// top, each row from the left.
    #[verifier::loop_isolation(false)]
    pub fn get_tiles_with_entity(&self, kind: EntityKind) -> (out: Vec<Tile>)
        ensures
            out@ == self@.scan(kind),
    {
        let mut found: Vec<Tile> = Vec::new();
        let mut y: usize = 0;
        while y < self.tiles.len()
            invariant
                y <= self.tiles.len(),
                found@ == self@.scan_upto(kind, y as int),
            decreases self.tiles.len() - y,
        {
            let row = &self.tiles[y];
            let ghost before = found@;
            let mut x: usize = 0;
            while x < row.len()
                invariant
                    x <= row.len(),
                    found@ == before + row_scan(row@, kind, x as int),
                decreases row.len() - x,
            {
                let tile = row[x];
                if tile.holds_kind(kind) {
                    found.push(tile);
                }
                assert(found@ =~= before + row_scan(row@, kind, x + 1));
                x = x + 1;
            }
            y = y + 1;
        }
        found
    }

    /// Writes one action into the grid: the target tile takes the action's
    /// field. An action aimed off the grid changes nothing.
    pub fn apply_action(&mut self, action: &Action)
        ensures
            final(self)@ == old(self)@.place(*action),
            old(self)@.wf() ==> final(self)@.wf(),
    {
        proof {
            lemma_place_shape(old(self)@, *action);
        }
        let x = action.position.0;
        let y = action.position.1;
        if x < 0 || y < 0 || (y as usize) >= self.tiles.len() {
            return;
        }
        if (x as usize) >= self.tiles[y as usize].len() {
            return;
        }
        let t = self.tiles[y as usize][x as usize];
        self.tiles[y as usize].set(x as usize, Tile { x: t.x, y: t.y, field: action.field });
        assert(self@.rows =~= old(self)@.place(*action).rows);
    }

    /// Applies the actions in order, so that a later action overwrites what
    /// an earlier one wrote to the same cell. Returns what to draw: one cell
    /// per action within the zone that contains the player, or nothing when
    /// the player is in no zone.
    #[verifier::loop_isolation(false)]
    pub fn apply_actions(&mut self, actions: Vec<Action>) -> (out: Vec<Redraw>)
        ensures
            final(self)@ == old(self)@.place_all(actions@),
            old(self)@.wf() ==> final(self)@.wf(),
            out@ == cell_redraws(
                zone_at(old(self)@.zones, old(self)@.player.0 as int, old(self)@.player.1 as int),
                actions@,
            ),
    {
        proof {
            lemma_place_all_shape(old(self)@, actions@);
        }
        let zone = self.get_player_zone();
        let mut draws: Vec<Redraw> = Vec::new();
        let mut i: usize = 0;
        assert(actions@.subrange(0, 0) =~= Seq::<Action>::empty());
        while i < actions.len()
            invariant
                i <= actions.len(),
                self@ == old(self)@.place_all(actions@.subrange(0, i as int)),
                draws@ == cell_redraws(zone, actions@.subrange(0, i as int)),
            decreases actions.len() - i,
        {
            let action = actions[i];
            self.apply_action(&action);
            if let Some(z) = zone {
                draws.push(Redraw::Cell(z, action));
            }
            assert(actions@.subrange(0, i + 1).drop_last() =~= actions@.subrange(0, i as int));
            assert(draws@ =~= cell_redraws(zone, actions@.subrange(0, i + 1)));
            i = i + 1;
        }
        assert(actions@.subrange(0, actions@.len() as int) =~= actions@);
        draws
    }

    /// Gathers the actions of all entities of one kind, in scan order, each
    /// decided on the grid as it is now.
    #[verifier::loop_isolation(false)]
    pub fn collect_actions(&self, kind: EntityKind) -> (out: Vec<Action>)
        ensures
            out@ == self@.kind_pass(kind),
    {
        let tiles = self.get_tiles_with_entity(kind);
        let mut actions: Vec<Action> = Vec::new();
        let mut i: usize = 0;
        while i < tiles.len()
            invariant
                i <= tiles.len(),
                tiles@ == self@.scan(kind),
                actions@ == self@.pass_actions(tiles@, i as int),
            decreases tiles.len() - i,
        {
            let mut more = tiles[i].update(self);
            actions.append(&mut more);
            i = i + 1;
        }
        actions
    }

    /// Records what the player intends. The player on the cached coordinate
    /// takes up `movement`; when `pushing`, it is put back on that
    /// coordinate, otherwise its push is cancelled. Without a player there,
    /// nothing changes.
    pub fn set_player_doing(&mut self, movement: Movement, pushing: bool)
        ensures
            final(self)@ == old(self)@.with_intent(movement, pushing),
            old(self)@.wf() ==> final(self)@.wf(),
    {
        proof {
            lemma_with_intent_shape(old(self)@, movement, pushing);
        }
        let (x, y) = self.player_position;
        let mut found: Option<Player> = None;
        if let Some(tile) = self.get_tile(x, y) {
            if let Some(Field::Entity(Entity::Player(p))) = tile.get_object_on() {
                found = Some(p);
            }
        }
        if let Some(player) = found {
            let mut intent = player;
            intent.set_movement(movement);
            let action = if !pushing {
                intent.canced_push()
            } else {
                Action::new((x, y), Field::Entity(Entity::Player(intent)))
            };
            self.apply_action(&action);
        }
    }

    /// Whether a tick can run: the player is in a zone, and so is every tile.
    #[verifier::loop_isolation(false)]
    pub fn is_playable(&self) -> (out: bool)
        requires
            self@.wf(),
        ensures
            out == self@.playable(),
    {
        if self.get_player_zone().is_none() {
            return false;
        }
        let mut y: usize = 0;
        while y < self.tiles.len()
            invariant
                y <= self.tiles.len(),
                forall|a: int, b: int| #[trigger]
                    self@.in_bounds(a, b) && b < y ==> zone_at(self@.zones, a, b) is Some,
            decreases self.tiles.len() - y,
        {
            let mut x: usize = 0;
            while x < self.tiles[y].len()
                invariant
                    y < self.tiles.len(),
                    x <= self.tiles[y as int].len(),
                    forall|a: int, b: int| #[trigger]
                        self@.in_bounds(a, b) && (b < y || (b == y && a < x)) ==> zone_at(
                            self@.zones,
                            a,
                            b,
                        ) is Some,
                decreases self.tiles[y as int].len() - x,
            {
                assert(self@.in_bounds(x as int, y as int));
                assert(self@.rows[y as int][x as int].x == x && self@.rows[y as int][x as int].y == y);
                if Zone::get_current_zone(x as i32, y as i32, &self.zones).is_none() {
                    return false;
                }
                x = x + 1;
            }
            y = y + 1;
        }
        true
    }

    /// Advances the simulation by one tick and says what to draw. Rocks
    /// decide first, all on the grid as it stood, and their actions are
    /// applied; then whatever stands on the player's coordinate decides and
    /// acts, or is recorded as idle when it decides on nothing; the cached
    /// player coordinate is read afresh; and last the diamonds decide and
    /// act. When the player has changed zone, the new zone is drawn whole.
    pub fn update(&mut self) -> (out: Vec<Redraw>)
        requires
            old(self)@.wf(),
            old(self)@.playable(),
        ensures
            final(self)@ == old(self)@.tick(),
            out@ == old(self)@.tick_redraws(),
            final(self)@.wf(),
            final(self)@.playable(),
    {
        proof {
            lemma_tick_keeps_playable(old(self)@);
            lemma_place_all_shape(old(self)@, old(self)@.kind_pass(EntityKind::Rock));
        }
        let rocks = self.collect_actions(EntityKind::Rock);
        let mut draws = self.apply_actions(rocks);
        let zone = self.get_player_zone().unwrap();
        let (px, py) = self.player_position;
        let actions = match self.get_tile(px, py) {
            Some(tile) => tile.update(self),
            None => Vec::new(),
        };
        if actions.len() == 0 {
            self.set_player_doing(Movement::Afk, false);
        } else {
            let mut more = self.apply_actions(actions);
            draws.append(&mut more);
        }
        let players = self.get_tiles_with_entity(EntityKind::Player);
        if players.len() > 0 {
            self.player_position = players[0].get_position();
        }
        assert(self@ == old(self)@.after_player());
        let now = self.get_player_zone().unwrap();
        let ghost first = draws@;
        if zone != now {
            draws.push(Redraw::Whole(now));
        }
        let ghost second = draws@;
        let diamonds = self.collect_actions(EntityKind::Diamond);
        let mut last = self.apply_actions(diamonds);
        let ghost tail = last@;
        draws.append(&mut last);
        assert(draws@ == second + tail);
        assert(second == first + (if Some(zone) != Some(now) {
            seq![Redraw::Whole(now)]
        } else {
            Seq::<Redraw>::empty()
        })) by {
            assert(first + Seq::<Redraw>::empty() =~= first);
            assert(first.push(Redraw::Whole(now)) =~= first + seq![Redraw::Whole(now)]);
        }
        assert(draws@ =~= old(self)@.tick_redraws());
        draws
    }

    /// The zone to draw whole, if the player is in one.
    pub fn render_player_zone(&self) -> (out: Option<Redraw>)
        ensures
            out == (match zone_at(self@.zones, self@.player.0 as int, self@.player.1 as int) {
                Some(z) => Some(Redraw::Whole(z)),
                None => None::<Redraw>,
            }),
    {
        match self.get_player_zone() {
            Some(z) => Some(Redraw::Whole(z)),
            None => None,
        }
    }
}

} // verus!
