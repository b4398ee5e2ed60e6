use vstd::prelude::*;
use crate::movement::Movement;

verus! {

/// An immovable wall block.
#[derive(Clone, Copy, Debug, PartialEq, Eq)]
pub struct Wall {
    pub position: (i32, i32),
}

impl Wall {
    pub fn new(x: i32, y: i32) -> (out: Self)
        ensures
            out == (Wall { position: (x, y) }),
    {
        Wall { position: (x, y) }
    }
}

/// A rock: a falling entity. `falling_since` counts the consecutive ticks it
/// has spent in free fall; `position` is the coordinate it was created at.
#[derive(Clone, Copy, Debug, PartialEq, Eq)]
pub struct Rock {
    pub position: (i32, i32),
    pub falling_since: i32,
}

/// A diamond: a falling entity with the same gravity rules as a rock.
#[derive(Clone, Copy, Debug, PartialEq, Eq)]
pub struct Diamond {
    pub position: (i32, i32),
    pub falling_since: i32,
}

/// The player: a position, the movement it intends, and whether it pushes.
#[derive(Clone, Copy, Debug, PartialEq, Eq)]
pub struct Player {
    pub position: (i32, i32),
    pub movement: Movement,
    pub pushing: bool,
}

/// The kinds of entity that can occupy a cell.
#[derive(Clone, Copy, Debug, PartialEq, Eq, Structural)]
pub enum EntityKind {
    Rock,
    Diamond,
    Player,
}

/// An entity value. Entities are immutable: a move is expressed by placing a
/// new value on a cell.
#[derive(Clone, Copy, Debug, PartialEq, Eq)]
pub enum Entity {
    Rock(Rock),
    Diamond(Diamond),
    Player(Player),
}

impl Entity {
    pub open spec fn kind(self) -> EntityKind {
        match self {
            Entity::Rock(_) => EntityKind::Rock,
            Entity::Diamond(_) => EntityKind::Diamond,
            Entity::Player(_) => EntityKind::Player,
        }
    }

    /// The kind tag of this entity.
    pub fn get_kind(&self) -> (out: EntityKind)
        ensures
            out == self.kind(),
    {
        match self {
            Entity::Rock(_) => EntityKind::Rock,
            Entity::Diamond(_) => EntityKind::Diamond,
            Entity::Player(_) => EntityKind::Player,
        }
    }

    pub open spec fn position(self) -> (i32, i32) {
        match self {
            Entity::Rock(r) => r.position,
            Entity::Diamond(d) => d.position,
            Entity::Player(p) => p.position,
        }
    }

    /// The coordinate the entity holds for itself.
    pub fn get_position(&self) -> (out: (i32, i32))
        ensures
            out == self.position(),
    {
        match self {
            Entity::Rock(r) => r.position,
            Entity::Diamond(d) => d.position,
            Entity::Player(p) => p.position,
        }
    }
}

/// What occupies a cell.
#[derive(Clone, Copy, Debug, PartialEq, Eq)]
pub enum Field {
    Empty,
    Dirt,
    Wall(Wall),
    Exit,
    Entity(Entity),
}

impl Field {
    /// Whether the field holds an entity of the given kind.
    pub open spec fn holds(self, kind: EntityKind) -> bool {
        match self {
            Field::Entity(e) => e.kind() == kind,
            _ => false,
        }
    }

    /// Whether the field is of interest to collision and falling queries:
    /// an entity, a wall or the exit.
    pub open spec fn is_object(self) -> bool {
        self is Entity || self is Wall || self is Exit
    }
}

} // verus!
