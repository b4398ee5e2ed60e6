use boulder_core::action::Action;
use boulder_core::entity::{Diamond, Entity, EntityKind, Field, Player, Rock, Wall};
use boulder_core::falling::{bump, can_move_to};
use boulder_core::grid::Grid;
use boulder_core::movement::Movement;
use boulder_core::tick::Redraw;
use boulder_core::tile::Tile;
use boulder_core::zone::Zone;

fn level(rows: &[&str]) -> Grid {
    let mut text = format!("{} {}\n0 0\n\n", rows.len(), rows.first().map_or(0, |r| r.len()));
    for r in rows {
        text.push_str(r);
        text.push('\n');
    }
    Grid::parse(&text, 320, 320).expect("well-formed level")
}

fn field(grid: &Grid, x: i32, y: i32) -> Field {
    grid.get_tile(x, y).expect("tile on the grid").get_field()
}

fn rock(x: i32, y: i32, falling_since: i32) -> Rock {
    Rock { position: (x, y), falling_since }
}

#[test]
fn edit_position_steps_one_cell() {
    assert_eq!(Movement::MoveUp.edit_position((3, 4)), (3, 3));
    assert_eq!(Movement::MoveDown.edit_position((3, 4)), (3, 5));
    assert_eq!(Movement::MoveLeft.edit_position((3, 4)), (2, 4));
    assert_eq!(Movement::MoveRight.edit_position((3, 4)), (4, 4));
}

#[test]
fn tile_reports_only_objects_of_interest() {
    let wall = Field::Wall(Wall::new(1, 2));
    assert_eq!(Tile::new(1, 2, wall).get_object_on(), Some(wall));
    assert_eq!(Tile::new(1, 2, Field::Exit).get_object_on(), Some(Field::Exit));
    let d = Field::Entity(Entity::Diamond(Diamond::new(1, 2)));
    assert_eq!(Tile::new(1, 2, d).get_object_on(), Some(d));
    assert_eq!(Tile::new(1, 2, Field::Dirt).get_object_on(), None);
    assert_eq!(Tile::new(1, 2, Field::Empty).get_object_on(), None);
    assert_eq!(Tile::new(1, 2, Field::Dirt).get_field(), Field::Dirt);
}

#[test]
fn tile_overwrite_keeps_position() {
    let mut t = Tile::new(4, 7, Field::Dirt);
    t.set_object_on(Field::Exit);
    assert_eq!(t.get_position(), (4, 7));
    assert_eq!(t.get_field(), Field::Exit);
    assert!(!t.holds_kind(EntityKind::Rock));
    t.set_object_on(Field::Entity(Entity::Rock(Rock::new(4, 7))));
    assert!(t.holds_kind(EntityKind::Rock));
    assert!(!t.holds_kind(EntityKind::Diamond));
}

#[test]
fn diamond_starts_at_rest() {
    let d = Diamond::new(3, 9);
    assert_eq!(d.get_position(), (3, 9));
    assert_eq!(d.falling_since, 0);
    assert_eq!(Entity::Diamond(d).get_kind(), EntityKind::Diamond);
    assert_eq!(Entity::Diamond(d).get_position(), (3, 9));
}

#[test]
fn empty_destination_admits_by_priority() {
    // Down is empty: down wins although left and right are empty too.
    let g = level(&[" r ", "   "]);
    assert_eq!(rock(1, 0, 0).is_falling(&g), Some(Movement::MoveDown));
    // Down is blocked, left is empty: left wins over right.
    let g = level(&[" r ", " W "]);
    assert_eq!(rock(1, 0, 0).is_falling(&g), Some(Movement::MoveLeft));
    // Only right is empty.
    let g = level(&["Wr ", " W "]);
    assert_eq!(rock(1, 0, 0).is_falling(&g), Some(Movement::MoveRight));
    let g = level(&["Wd ", " W "]);
    assert_eq!(Diamond::new(1, 0).is_falling(&g), Some(Movement::MoveRight));
}

#[test]
fn walls_dirt_exit_and_entities_block() {
    for below in ["W", ".", "X", "r", "d"] {
        let g = level(&["r", below]);
        assert_eq!(rock(0, 0, 0).is_falling(&g), None, "below: {below}");
        assert_eq!(rock(0, 0, 5).is_falling(&g), None, "below: {below}");
    }
    // Off the grid in every direction.
    let g = level(&["r"]);
    assert_eq!(rock(0, 0, 3).is_falling(&g), None);
}

#[test]
fn resting_entity_never_moves_onto_player() {
    let g = level(&["r", "P", " "]);
    assert_eq!(rock(0, 0, 0).is_falling(&g), None);
    let g = level(&["Pr", "WW"]);
    assert_eq!(rock(1, 0, 0).is_falling(&g), None);
    assert_eq!(rock(1, 0, 4).is_falling(&g), None);
    let p = Tile::new(0, 1, Field::Entity(Entity::Player(Player::new(0, 1))));
    assert_eq!(can_move_to(Some(&p), Movement::MoveDown, 0), None);
    assert_eq!(can_move_to(Some(&p), Movement::MoveLeft, 3), None);
    assert_eq!(can_move_to(Some(&p), Movement::MoveRight, 3), None);
    assert_eq!(can_move_to(Some(&p), Movement::MoveDown, 1), Some(Movement::MoveDown));
    assert_eq!(can_move_to(None, Movement::MoveDown, 1), None);
}

#[test]
fn falling_rock_above_player_is_eligible_to_move_down() {
    let g = level(&["r", "P", " "]);
    let r = rock(0, 0, 1);
    assert_eq!(r.is_falling(&g), Some(Movement::MoveDown));
    assert_eq!(r.get_future_position(&g), (0, 1));
    let player = Entity::Player(Player::new(0, 1));
    assert!(r.check_collision(&player, &g));
    assert!(!rock(0, 0, 0).check_collision(&player, &g));
    let acts = r.fall(&g);
    assert_eq!(
        acts,
        vec![
            Action::new((0, 0), Field::Empty),
            Action::new((0, 1), Field::Entity(Entity::Rock(rock(0, 0, 2)))),
        ]
    );
}

#[test]
fn blocked_entity_is_put_back_at_rest() {
    let g = level(&["r", "W"]);
    let acts = rock(0, 0, 7).fall(&g);
    assert_eq!(acts, vec![Action::new((0, 0), Field::Entity(Entity::Rock(rock(0, 0, 0))))]);
    let g = level(&["d", "."]);
    let d = Diamond { position: (0, 0), falling_since: 3 };
    let acts = d.update(&g);
    assert_eq!(acts, vec![Action::new((0, 0), Field::Entity(Entity::Diamond(Diamond::new(0, 0))))]);
    assert_eq!(d.get_future_position(&g), (0, 0));
}

#[test]
fn counter_is_zero_on_entry_to_the_tick_after_a_blocked_one() {
    let mut g = level(&["r", "W"]);
    g.apply_action(&Action::new((0, 0), Field::Entity(Entity::Rock(rock(0, 0, 9)))));
    assert!(g.is_playable());
    g.update();
    assert_eq!(field(&g, 0, 0), Field::Entity(Entity::Rock(rock(0, 0, 0))));
}

#[test]
fn rock_in_a_single_row_rolls_left() {
    let mut g = level(&[". r.."]);
    assert_eq!(rock(2, 0, 0).is_falling(&g), Some(Movement::MoveLeft));
    assert!(g.is_playable());
    g.update();
    assert_eq!(field(&g, 2, 0), Field::Empty);
    assert_eq!(field(&g, 1, 0), Field::Entity(Entity::Rock(rock(2, 0, 1))));
    assert_eq!(field(&g, 0, 0), Field::Dirt);
    assert_eq!(field(&g, 3, 0), Field::Dirt);
}

#[test]
fn move_to_vacates_then_occupies() {
    let d = Diamond { position: (1, 1), falling_since: 2 };
    assert_eq!(
        d.move_to(1, 1, 1, 2),
        vec![
            Action::new((1, 1), Field::Empty),
            Action::new((1, 2), Field::Entity(Entity::Diamond(d))),
        ]
    );
}

#[test]
fn fall_counter_saturates() {
    assert_eq!(bump(0), 1);
    assert_eq!(bump(41), 42);
    assert_eq!(bump(i32::MAX), i32::MAX);
}

#[test]
fn later_action_overwrites_earlier_one() {
    let mut g = level(&["..", ".."]);
    let first = Action::new((1, 1), Field::Exit);
    let second = Action::new((1, 1), Field::Entity(Entity::Rock(Rock::new(1, 1))));
    g.apply_actions(vec![first, second]);
    assert_eq!(field(&g, 1, 1), second.field);
    let mut h = level(&["..", ".."]);
    h.apply_actions(vec![second, first]);
    assert_eq!(field(&h, 1, 1), Field::Exit);
    assert_eq!(field(&h, 0, 0), Field::Dirt);
}

#[test]
fn actions_off_the_grid_change_nothing() {
    let mut g = level(&["..", ".."]);
    g.apply_actions(vec![
        Action::new((2, 0), Field::Exit),
        Action::new((0, 2), Field::Exit),
        Action::new((-1, 0), Field::Exit),
        Action::new((0, -1), Field::Exit),
    ]);
    for y in 0..2 {
        for x in 0..2 {
            assert_eq!(field(&g, x, y), Field::Dirt);
        }
    }
}

#[test]
fn apply_actions_draws_each_action_in_the_player_zone() {
    let mut g = level(&["..", ".."]);
    let a = Action::new((1, 0), Field::Empty);
    let b = Action::new((0, 1), Field::Exit);
    let zone = Zone { x: 0, y: 0, width: 10, height: 10 };
    assert_eq!(g.apply_actions(vec![a, b]), vec![Redraw::Cell(zone, a), Redraw::Cell(zone, b)]);
    // Without a zone nothing is drawn, and the actions still apply.
    let mut h = Grid::parse("1 1\n0 0\n\n.\n", 10, 10).unwrap();
    assert_eq!(h.apply_actions(vec![Action::new((0, 0), Field::Exit)]), vec![]);
    assert_eq!(field(&h, 0, 0), Field::Exit);
    assert!(!h.is_playable());
    assert_eq!(h.render_player_zone(), None);
    assert_eq!(g.render_player_zone(), Some(Redraw::Whole(zone)));
}

#[test]
fn afk_names_no_neighbour() {
    let g = level(&["...", ".P.", "..."]);
    for y in -1..4 {
        for x in -1..4 {
            assert!(g.get_nearest_tile(x, y, Movement::Afk).is_none());
        }
    }
}

#[test]
fn nearest_tile_is_one_step_away() {
    let g = level(&["W.X", "rPd", "   "]);
    assert_eq!(g.get_nearest_tile(1, 1, Movement::MoveUp).unwrap().get_position(), (1, 0));
    assert_eq!(g.get_nearest_tile(1, 1, Movement::MoveDown).unwrap().get_position(), (1, 2));
    assert_eq!(g.get_nearest_tile(1, 1, Movement::MoveLeft).unwrap().get_position(), (0, 1));
    assert_eq!(g.get_nearest_tile(1, 1, Movement::MoveRight).unwrap().get_position(), (2, 1));
    assert!(g.get_nearest_tile(0, 0, Movement::MoveUp).is_none());
    assert!(g.get_nearest_tile(0, 0, Movement::MoveLeft).is_none());
    assert!(g.get_nearest_tile(2, 2, Movement::MoveDown).is_none());
    assert!(g.get_nearest_tile(2, 2, Movement::MoveRight).is_none());
    assert!(g.get_nearest_tile(i32::MAX, 0, Movement::MoveRight).is_none());
    assert!(g.get_nearest_tile(0, i32::MAX, Movement::MoveDown).is_none());
    assert!(g.get_nearest_tile(i32::MIN, 0, Movement::MoveLeft).is_none());
    assert!(g.get_nearest_tile(0, i32::MIN, Movement::MoveUp).is_none());
}

#[test]
fn get_tile_is_bounds_checked() {
    let g = level(&["ab", "c"]);
    assert!(g.get_tile(0, 0).is_some());
    assert!(g.get_tile(1, 0).is_some());
    assert!(g.get_tile(2, 0).is_none());
    assert!(g.get_tile(0, 1).is_some());
    assert!(g.get_tile(1, 1).is_none());
    assert!(g.get_tile(0, 2).is_none());
    assert!(g.get_tile(-1, 0).is_none());
    assert!(g.get_tile(0, -1).is_none());
}

#[test]
fn get_mut_tile_writes_through() {
    let mut g = level(&["..", ".."]);
    g.get_mut_tile(1, 0).unwrap().set_object_on(Field::Exit);
    assert_eq!(field(&g, 1, 0), Field::Exit);
    assert_eq!(field(&g, 0, 0), Field::Dirt);
    assert!(g.get_mut_tile(2, 0).is_none());
    assert!(g.get_mut_tile(0, -1).is_none());
}

#[test]
fn scan_goes_row_by_row_from_the_left() {
    let g = level(&[".r.d", "r.Pr", "d..."]);
    let rocks: Vec<(i32, i32)> =
        g.get_tiles_with_entity(EntityKind::Rock).iter().map(|t| t.get_position()).collect();
    assert_eq!(rocks, vec![(1, 0), (0, 1), (3, 1)]);
    let diamonds: Vec<(i32, i32)> =
        g.get_tiles_with_entity(EntityKind::Diamond).iter().map(|t| t.get_position()).collect();
    assert_eq!(diamonds, vec![(3, 0), (0, 2)]);
    let players = g.get_tiles_with_entity(EntityKind::Player);
    assert_eq!(players.len(), 1);
    assert_eq!(players[0].get_position(), (2, 1));
    assert_eq!(level(&["..."]).get_tiles_with_entity(EntityKind::Rock), vec![]);
}

#[test]
fn default_grid_is_empty() {
    let g = Grid::default();
    assert_eq!(g.get_player_position(), (0, 0));
    assert!(g.get_tile(0, 0).is_none());
    assert_eq!(g.get_player_zone(), None);
    assert!(!g.is_playable());
}

#[test]
fn entities_report_their_kind() {
    assert_eq!(Rock::new(0, 0).get_type(), EntityKind::Rock);
    assert_eq!(Diamond::new(0, 0).get_type(), EntityKind::Diamond);
    assert_eq!(Player::new(0, 0).get_type(), EntityKind::Player);
    assert_eq!(Entity::Rock(Rock::new(1, 2)).get_kind(), EntityKind::Rock);
    assert_eq!(Entity::Player(Player::new(1, 2)).get_position(), (1, 2));
}

#[test]
fn entity_update_dispatches_by_kind() {
    let g = level(&["r d", "   "]);
    let r = Entity::Rock(Rock::new(0, 0));
    assert_eq!(
        r.update(&g),
        vec![
            Action::new((0, 0), Field::Empty),
            Action::new((0, 1), Field::Entity(Entity::Rock(rock(0, 0, 1)))),
        ]
    );
    let dirt = Tile::new(1, 0, Field::Dirt);
    assert_eq!(dirt.update(&g), vec![]);
    assert_eq!(g.collect_actions(EntityKind::Diamond).len(), 2);
    assert_eq!(g.collect_actions(EntityKind::Player), vec![]);
}
