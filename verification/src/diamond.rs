use vstd::prelude::*;
use crate::action::Action;
use crate::board::Board;
use crate::entity::{Diamond, Entity, EntityKind, Field};
use crate::falling::{bump, bumped, fall_direction, falling_direction, target_of};
use crate::grid::Grid;
use crate::movement::Movement;

verus! {

impl Diamond {
    /// A diamond at rest at (`x`, `y`).
    pub fn new(x: i32, y: i32) -> (out: Self)
        ensures
            out == (Diamond { position: (x, y), falling_since: 0 }),
    {
        Diamond { position: (x, y), falling_since: 0 }
    }

    /// The kind tag of this entity.
    pub fn get_type(&self) -> (out: EntityKind)
        ensures
            out == EntityKind::Diamond,
    {
        EntityKind::Diamond
    }

    pub fn get_position(&self) -> (out: (i32, i32))
        ensures
            out == self.position,
    {
        self.position
    }

    /// The direction in which this diamond falls on board `b`, if any.
    pub open spec fn spec_is_falling(self, b: Board) -> Option<Movement> {
        fall_direction(b, self.position, self.falling_since)
    }

    /// Resolves the fall against the grid as it is: down, then left, then
    /// right; the first eligible direction wins.
    pub fn is_falling(&self, grid: &Grid) -> (out: Option<Movement>)
        ensures
            out == self.spec_is_falling(grid@),
            out matches Some(d) ==> d != Movement::Afk && d.step_fits(self.position),
    {
        falling_direction(grid, self.position, self.falling_since)
    }

    /// The two actions of a move: vacate (`ax`, `ay`), occupy (`nx`, `ny`)
    /// with this diamond.
    pub open spec fn spec_move_to(self, ax: i32, ay: i32, nx: i32, ny: i32) -> Seq<Action> {
        seq![
            Action { position: (ax, ay), field: Field::Empty },
            Action { position: (nx, ny), field: Field::Entity(Entity::Diamond(self)) },
        ]
    }

    pub fn move_to(&self, ax: i32, ay: i32, nx: i32, ny: i32) -> (out: Vec<Action>)
        ensures
            out@ == self.spec_move_to(ax, ay, nx, ny),
    {
        let mut actions: Vec<Action> = Vec::new();
        actions.push(Action::new((ax, ay), Field::Empty));
        actions.push(Action::new((nx, ny), Field::Entity(Entity::Diamond(*self))));
        assert(actions@ =~= self.spec_move_to(ax, ay, nx, ny));
        actions
    }

    /// Where this diamond will be after the tick: one step in its fall
    /// direction, or where it is.
    pub open spec fn future_position(self, b: Board) -> (i32, i32) {
        match self.spec_is_falling(b) {
            Some(d) => target_of(self.position, d),
            None => self.position,
        }
    }

    pub fn get_future_position(&self, grid: &Grid) -> (out: (i32, i32))
        ensures
            out == self.future_position(grid@),
    {
        if let Some(direction) = self.is_falling(grid) {
            direction.edit_position(self.position)
        } else {
            self.position
        }
    }

    /// Whether this diamond's next position is where `other` is now.
    pub fn check_collision(&self, other: &Entity, grid: &Grid) -> (out: bool)
        ensures
            out == (self.future_position(grid@) == other.position()),
    {
        let next = self.get_future_position(grid);
        let there = other.get_position();
        next.0 == there.0 && next.1 == there.1
    }

    /// The actions of one tick of gravity. A falling diamond vacates its cell
    /// and occupies the next one with its counter raised by one; a blocked
    /// one is put back on its cell with its counter at zero.
    pub open spec fn spec_fall(self, b: Board) -> Seq<Action> {
        match self.spec_is_falling(b) {
            Some(d) => {
                let t = target_of(self.position, d);
                (Diamond { position: self.position, falling_since: bumped(self.falling_since) })
                    .spec_move_to(self.position.0, self.position.1, t.0, t.1)
            },
            None => seq![
                Action {
                    position: self.position,
                    field: Field::Entity(
                        Entity::Diamond(Diamond { position: self.position, falling_since: 0 }),
                    ),
                },
            ],
        }
    }

    pub fn fall(&self, grid: &Grid) -> (out: Vec<Action>)
        ensures
            out@ == self.spec_fall(grid@),
    {
        if let Some(movement) = self.is_falling(grid) {
            let (x, y) = movement.edit_position(self.position);
            let moved = Diamond { position: self.position, falling_since: bump(self.falling_since) };
            moved.move_to(self.position.0, self.position.1, x, y)
        } else {
            let mut actions: Vec<Action> = Vec::new();
            let rested = Diamond { position: self.position, falling_since: 0 };
            actions.push(Action::new(self.position, Field::Entity(Entity::Diamond(rested))));
            assert(actions@ =~= self.spec_fall(grid@));
            actions
        }
    }

    /// The actions of this diamond for one tick: its fall.
    pub fn update(&self, grid: &Grid) -> (out: Vec<Action>)
        ensures
            out@ == self.spec_fall(grid@),
    {
        self.fall(grid)
    }

    /// A diamond that cannot fall is at rest afterwards: the cell it is put
    /// back on holds it with a counter of zero.
    pub proof fn lemma_blocked_rests(self, b: Board)
        requires
            self.spec_is_falling(b) is None,
            b.in_bounds(self.position.0 as int, self.position.1 as int),
        ensures
            self.spec_fall(b).len() == 1,
            b.place_all(self.spec_fall(b)).field_at(self.position.0 as int, self.position.1 as int)
                == Some(
                Field::Entity(Entity::Diamond(Diamond { position: self.position, falling_since: 0 })),
            ),
    {
        let acts = self.spec_fall(b);
        assert(acts.drop_last() =~= Seq::<Action>::empty());
        assert(b.place_all(acts.drop_last()) == b);
    }

    /// A diamond that falls leaves an empty cell behind and arrives with its
    /// counter raised.
    pub proof fn lemma_falling_moves(self, b: Board)
        requires
            self.spec_is_falling(b) is Some,
        ensures
            self.spec_fall(b).len() == 2,
            self.spec_fall(b)[0] == (Action { position: self.position, field: Field::Empty }),
            self.spec_fall(b)[1].position == self.future_position(b),
            self.spec_fall(b)[1].field == Field::Entity(
                Entity::Diamond(
                    Diamond { position: self.position, falling_since: bumped(self.falling_since) },
                ),
            ),
    {
    }
}

} // verus!
