use vstd::prelude::*;
use crate::action::Action;
use crate::board::Board;
use crate::entity::{Entity, EntityKind, Field, Player};
use crate::falling::target_of;
use crate::grid::Grid;
use crate::movement::Movement;

verus! {

impl Player {
    /// An idle player at (`x`, `y`).
    pub fn new(x: i32, y: i32) -> (out: Self)
        ensures
            out == (Player { position: (x, y), movement: Movement::Afk, pushing: false }),
    {
        Player { position: (x, y), movement: Movement::Afk, pushing: false }
    }

    /// The kind tag of this entity.
    pub fn get_type(&self) -> (out: EntityKind)
        ensures
            out == EntityKind::Player,
    {
        EntityKind::Player
    }

    pub fn get_position(&self) -> (out: (i32, i32))
        ensures
            out == self.position,
    {
        self.position
    }

    pub fn get_movement(&self) -> (out: Movement)
        ensures
            out == self.movement,
    {
        self.movement
    }

    /// Records the movement the player intends; nothing else changes.
    pub fn set_movement(&mut self, movement: Movement)
        ensures
            *final(self) == (Player {
                position: old(self).position,
                movement,
                pushing: old(self).pushing,
            }),
    {
        self.movement = movement;
    }

    /// The action that cancels any push: the player, no longer pushing, is
    /// put back on its own cell.
    pub open spec fn spec_cancel_push(self) -> Action {
        Action {
            position: self.position,
            field: Field::Entity(
                Entity::Player(
                    Player { position: self.position, movement: self.movement, pushing: false },
                ),
            ),
        }
    }

    pub fn canced_push(&self) -> (out: Action)
        ensures
            out == self.spec_cancel_push(),
    {
        let calm = Player { position: self.position, movement: self.movement, pushing: false };
        Action::new(self.position, Field::Entity(Entity::Player(calm)))
    }

    /// Whether the player can step onto a cell: it walks on empty cells and
    /// digs through dirt.
    pub open spec fn walkable(field: Field) -> bool {
        field is Empty || field is Dirt
    }

    /// The actions of one tick: with an intent and a walkable neighbour in
    /// that direction the player vacates its cell and occupies the
    /// neighbour, now holding that coordinate; otherwise it does nothing.
    pub open spec fn spec_update(self, b: Board) -> Seq<Action> {
        match b.nearest(self.position.0, self.position.1, self.movement) {
            Some(t) => if Self::walkable(t.field) {
                let to = target_of(self.position, self.movement);
                seq![
                    Action { position: self.position, field: Field::Empty },
                    Action {
                        position: to,
                        field: Field::Entity(
                            Entity::Player(
                                Player { position: to, movement: self.movement, pushing: self.pushing },
                            ),
                        ),
                    },
                ]
            } else {
                Seq::empty()
            },
            None => Seq::empty(),
        }
    }

    pub fn update(&self, grid: &Grid) -> (out: Vec<Action>)
        ensures
            out@ == self.spec_update(grid@),
    {
        let mut actions: Vec<Action> = Vec::new();
        if let Some(t) = grid.get_nearest_tile(self.position.0, self.position.1, self.movement) {
            let free = match t.get_field() {
                Field::Empty | Field::Dirt => true,
                _ => false,
            };
            if free {
                let to = self.movement.edit_position(self.position);
                let moved = Player { position: to, movement: self.movement, pushing: self.pushing };
                actions.push(Action::new(self.position, Field::Empty));
                actions.push(Action::new(to, Field::Entity(Entity::Player(moved))));
            }
        }
        assert(actions@ =~= self.spec_update(grid@));
        actions
    }
}

} // verus!
