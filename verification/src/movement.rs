use vstd::prelude::*;

verus! {

/// A step intent: one of the four cardinal directions, or no intent at all.
#[derive(Clone, Copy, Debug, PartialEq, Eq, Structural)]
pub enum Movement {
    Afk,
    MoveUp,
    MoveDown,
    MoveLeft,
    MoveRight,
}

impl Movement {
    /// Horizontal displacement of one step.
    pub open spec fn dx(self) -> int {
        match self {
            Movement::MoveLeft => -1,
            Movement::MoveRight => 1,
            _ => 0,
        }
    }

    /// Vertical displacement of one step; rows grow downwards.
    pub open spec fn dy(self) -> int {
        match self {
            Movement::MoveUp => -1,
            Movement::MoveDown => 1,
            _ => 0,
        }
    }

    /// The coordinate one step away from `pos`, over the unbounded integers.
    pub open spec fn step(self, pos: (int, int)) -> (int, int) {
        (pos.0 + self.dx(), pos.1 + self.dy())
    }

    /// Whether the step from `pos` stays inside the 32-bit coordinate range.
    pub open spec fn step_fits(self, pos: (i32, i32)) -> bool {
        let t = self.step((pos.0 as int, pos.1 as int));
        i32::MIN <= t.0 <= i32::MAX && i32::MIN <= t.1 <= i32::MAX
    }

    /// Translates `pos` by one step. Standing still has no displacement and is
    /// not a direction, so it is excluded.
    pub fn edit_position(self, pos: (i32, i32)) -> (out: (i32, i32))
        requires
            self != Movement::Afk,
            self.step_fits(pos),
        ensures
            (out.0 as int, out.1 as int) == self.step((pos.0 as int, pos.1 as int)),
    {
        match self {
            Movement::MoveUp => (pos.0, pos.1 - 1),
            Movement::MoveDown => (pos.0, pos.1 + 1),
            Movement::MoveLeft => (pos.0 - 1, pos.1),
            _ => (pos.0 + 1, pos.1),
        }
    }
}

} // verus!
