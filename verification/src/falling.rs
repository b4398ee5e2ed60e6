use vstd::prelude::*;
use crate::board::Board;
use crate::entity::{Entity, Field};
use crate::grid::Grid;
use crate::movement::Movement;
use crate::tile::Tile;

verus! {

/// Whether a falling entity that has been falling for `falling_since` ticks
/// may move in direction `movement` onto `target`: an empty cell always
/// admits it; the player's cell admits it only straight down and only when
/// the entity is already falling; anything else, or no cell at all, does not.
pub open spec fn eligible(target: Option<Tile>, movement: Movement, falling_since: i32) -> bool {
    match target {
        Some(t) => match t.field {
            Field::Empty => true,
            Field::Entity(Entity::Player(_)) => falling_since > 0 && movement == Movement::MoveDown,
            _ => false,
        },
        None => false,
    }
}

/// The direction in which an entity at `position` falls: the first eligible
/// one of down, left, right.
pub open spec fn fall_direction(b: Board, position: (i32, i32), falling_since: i32) -> Option<
    Movement,
> {
    if eligible(b.nearest(position.0, position.1, Movement::MoveDown), Movement::MoveDown, falling_since) {
        Some(Movement::MoveDown)
    } else if eligible(
        b.nearest(position.0, position.1, Movement::MoveLeft),
        Movement::MoveLeft,
        falling_since,
    ) {
        Some(Movement::MoveLeft)
    } else if eligible(
        b.nearest(position.0, position.1, Movement::MoveRight),
        Movement::MoveRight,
        falling_since,
    ) {
        Some(Movement::MoveRight)
    } else {
        None
    }
}

/// The counter of an entity that falls one more tick. It stops at the
/// largest value the counter can hold.
pub open spec fn bumped(falling_since: i32) -> i32 {
    if falling_since < i32::MAX {
        (falling_since + 1) as i32
    } else {
        falling_since
    }
}

/// The coordinate one step from `position`, where that step fits.
pub open spec fn target_of(position: (i32, i32), movement: Movement) -> (i32, i32) {
    ((position.0 + movement.dx()) as i32, (position.1 + movement.dy()) as i32)
}

/// Tests one fall candidate.
pub fn can_move_to(tile: Option<&Tile>, movement: Movement, falling_since: i32) -> (out: Option<
    Movement,
>)
    ensures
        out == (if eligible(
            match tile {
                Some(t) => Some(*t),
                None => None,
            },
            movement,
            falling_since,
        ) {
            Some(movement)
        } else {
            None
        }),
{
    match tile {
        Some(t) => match t.get_field() {
            Field::Empty => Some(movement),
            Field::Entity(Entity::Player(_)) => {
                if falling_since > 0 && movement == Movement::MoveDown {
                    Some(movement)
                } else {
                    None
                }
            },
            _ => None,
        },
        None => None,
    }
}

/// Resolves the fall of an entity at `position` against the grid as it is.
pub fn falling_direction(grid: &Grid, position: (i32, i32), falling_since: i32) -> (out: Option<
    Movement,
>)
    ensures
        out == fall_direction(grid@, position, falling_since),
        out matches Some(d) ==> d != Movement::Afk && d.step_fits(position),
{
    if let Some(m) = can_move_to(
        grid.get_nearest_tile(position.0, position.1, Movement::MoveDown),
        Movement::MoveDown,
        falling_since,
    ) {
        return Some(m);
    }
    if let Some(m) = can_move_to(
        grid.get_nearest_tile(position.0, position.1, Movement::MoveLeft),
        Movement::MoveLeft,
        falling_since,
    ) {
        return Some(m);
    }
    if let Some(m) = can_move_to(
        grid.get_nearest_tile(position.0, position.1, Movement::MoveRight),
        Movement::MoveRight,
        falling_since,
    ) {
        return Some(m);
    }
    None
}

/// Adds one tick to a fall counter.
pub fn bump(falling_since: i32) -> (out: i32)
    ensures
        out == bumped(falling_since),
{
    if falling_since < i32::MAX {
        falling_since + 1
    } else {
        falling_since
    }
}

/// An empty destination always admits the fall, and the direction chosen
/// respects the priority down, then left, then right.
pub proof fn lemma_empty_destination_is_eligible(
    b: Board,
    position: (i32, i32),
    falling_since: i32,
    d: Movement,
)
    requires
        d == Movement::MoveDown || d == Movement::MoveLeft || d == Movement::MoveRight,
        b.nearest(position.0, position.1, d) matches Some(t) && t.field is Empty,
    ensures
        eligible(b.nearest(position.0, position.1, d), d, falling_since),
        fall_direction(b, position, falling_since) is Some,
        d == Movement::MoveDown ==> fall_direction(b, position, falling_since) == Some(d),
        d == Movement::MoveLeft && !eligible(
            b.nearest(position.0, position.1, Movement::MoveDown),
            Movement::MoveDown,
            falling_since,
        ) ==> fall_direction(b, position, falling_since) == Some(d),
        d == Movement::MoveRight && !eligible(
            b.nearest(position.0, position.1, Movement::MoveDown),
            Movement::MoveDown,
            falling_since,
        ) && !eligible(
            b.nearest(position.0, position.1, Movement::MoveLeft),
            Movement::MoveLeft,
            falling_since,
        ) ==> fall_direction(b, position, falling_since) == Some(d),
{
}

/// An entity at rest never moves onto the player, in any direction; one
/// that is already falling does, straight down and only so.
pub proof fn lemma_player_cell(target: Tile, falling_since: i32, d: Movement)
    requires
        target.field matches Field::Entity(Entity::Player(_)),
    ensures
        falling_since == 0 ==> !eligible(Some(target), d, falling_since),
        falling_since >= 1 ==> eligible(Some(target), Movement::MoveDown, falling_since),
        eligible(Some(target), d, falling_since) <==> falling_since >= 1 && d == Movement::MoveDown,
{
}

/// A resting entity directly above the player stays clear of the player's
/// cell: if it moves at all, it moves sideways.
pub proof fn lemma_resting_spares_player(b: Board, position: (i32, i32))
    requires
        b.nearest(position.0, position.1, Movement::MoveDown) matches Some(t) && t.field
            matches Field::Entity(Entity::Player(_)),
    ensures
        fall_direction(b, position, 0) != Some(Movement::MoveDown),
        forall|fs: i32| fs >= 1 ==> fall_direction(b, position, fs) == Some(Movement::MoveDown),
{
}

} // verus!
