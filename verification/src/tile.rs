use vstd::prelude::*;
use crate::entity::{EntityKind, Field};

verus! {

/// One grid cell: a fixed position and the field currently on it.
#[derive(Clone, Copy, Debug, PartialEq, Eq)]
pub struct Tile {
    pub x: i32,
    pub y: i32,
    pub field: Field,
}

impl Tile {
    pub fn new(x: i32, y: i32, field: Field) -> (out: Self)
        ensures
            out == (Tile { x, y, field }),
    {
        Tile { x, y, field }
    }

    pub fn get_position(&self) -> (out: (i32, i32))
        ensures
            out == (self.x, self.y),
    {
        (self.x, self.y)
    }

    /// The field on this tile, whatever it is.
    pub fn get_field(&self) -> (out: Field)
        ensures
            out == self.field,
    {
        self.field
    }

    /// The occupant, if it is an entity, a wall or the exit; dirt and empty
    /// cells hold nothing of interest.
    pub fn get_object_on(&self) -> (out: Option<Field>)
        ensures
            out == (if self.field.is_object() { Some(self.field) } else { None::<Field> }),
    {
        match self.field {
            Field::Entity(_) | Field::Wall(_) | Field::Exit => Some(self.field),
            _ => None,
        }
    }

    /// Overwrites the occupant; the position stays.
    pub fn set_object_on(&mut self, field: Field)
        ensures
            *final(self) == (Tile { x: old(self).x, y: old(self).y, field }),
    {
        self.field = field;
    }

    /// Whether the tile holds an entity of the given kind.
    pub fn holds_kind(&self, kind: EntityKind) -> (out: bool)
        ensures
            out == self.field.holds(kind),
    {
        match self.field {
            Field::Entity(e) => e.get_kind() == kind,
            _ => false,
        }
    }
}

} // verus!
