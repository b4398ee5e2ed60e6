use vstd::prelude::*;
use crate::entity::Field;

verus! {

/// A deferred mutation: the coordinate to write and the field it shall hold.
#[derive(Clone, Copy, Debug, PartialEq, Eq)]
pub struct Action {
    pub position: (i32, i32),
    pub field: Field,
}

impl Action {
    pub fn new(position: (i32, i32), field: Field) -> (out: Self)
        ensures
            out == (Action { position, field }),
    {
        Action { position, field }
    }
}

} // verus!
