use boulder_core::entity::{Diamond, Entity, Field, Player, Rock, Wall};
use boulder_core::grid::Grid;
use boulder_core::movement::Movement;
use boulder_core::reader::{field_for, read_int, read_pair, to_chars};
use boulder_core::tick::Redraw;
use boulder_core::action::Action;
use boulder_core::zone::Zone;

fn expected(c: char, x: i32, y: i32) -> Field {
    match c {
        'W' => Field::Wall(Wall { position: (x, y) }),
        'r' => Field::Entity(Entity::Rock(Rock { position: (x, y), falling_since: 0 })),
        'd' => Field::Entity(Entity::Diamond(Diamond { position: (x, y), falling_since: 0 })),
        '.' => Field::Dirt,
        'P' => Field::Entity(Entity::Player(Player {
            position: (x, y),
            movement: Movement::Afk,
            pushing: false,
        })),
        'X' => Field::Exit,
        _ => Field::Empty,
    }
}

#[test]
fn grid_reads_back_the_level_text() {
    let rows = ["WWWWWW", "W.r dW", "WP..XW", "W ?#~W", "WWWWWW"];
    let text = format!("5 6\n1 2\nlevel one\n{}", rows.join("\n"));
    let g = Grid::from_str(&text, 64, 64);
    assert_eq!(g.get_player_position(), (1, 2));
    for (y, row) in rows.iter().enumerate() {
        for (x, c) in row.chars().enumerate() {
            let t = g.get_tile(x as i32, y as i32).unwrap();
            assert_eq!(t.get_position(), (x as i32, y as i32));
            assert_eq!(t.get_field(), expected(c, x as i32, y as i32), "at ({x}, {y})");
        }
        assert!(g.get_tile(row.len() as i32, y as i32).is_none());
    }
    assert!(g.get_tile(0, rows.len() as i32).is_none());
}

#[test]
fn new_reads_the_same_grid() {
    let text = "2 3\n2 1\n\nr.d\nW P\n";
    let g = Grid::new(text, 96, 64);
    assert_eq!(g.get_player_position(), (2, 1));
    assert_eq!(g.get_tile(2, 1).unwrap().get_field(), expected('P', 2, 1));
    assert_eq!(g.get_tile(1, 1).unwrap().get_field(), Field::Empty);
    assert!(g.get_tile(0, 2).is_none());
    assert!(g.is_playable());
}

#[test]
fn rows_may_end_in_carriage_returns_and_differ_in_length() {
    let g = Grid::parse("2 3\r\n0 0\r\n\r\nr.\r\nW.P\r\n", 96, 64).unwrap();
    assert_eq!(g.get_tile(1, 0).unwrap().get_field(), Field::Dirt);
    assert!(g.get_tile(2, 0).is_none());
    assert_eq!(g.get_tile(2, 1).unwrap().get_field(), expected('P', 2, 1));
    assert!(g.get_tile(3, 1).is_none());
    assert!(g.get_tile(0, 2).is_none());
}

#[test]
fn header_numbers_take_blanks_and_signs() {
    let g = Grid::parse("  1\t 1  extra\n -3 +4\n", 32, 32).unwrap();
    assert_eq!(g.get_player_position(), (-3, 4));
    assert!(g.get_tile(0, 0).is_none());
    let g = Grid::parse("1\u{a0}2\u{3000}\n\u{2003}7\u{b}8\r\n", 32, 32).unwrap();
    assert_eq!(g.get_player_position(), (7, 8));
    // A carriage return that ends the text is a cell of its row.
    let g = Grid::parse("1 2\n0 0\n\n.\r\n.\r", 64, 32).unwrap();
    assert!(g.get_tile(1, 0).is_none());
    assert_eq!(g.get_tile(1, 1).unwrap().get_field(), Field::Empty);
    // And one that ends a header line without a line feed is white space.
    assert!(Grid::parse("1 2\n3 4\r", 64, 32).is_some());
}

#[test]
fn malformed_levels_are_refused() {
    assert!(Grid::parse("", 32, 32).is_none());
    assert!(Grid::parse("3 3", 32, 32).is_none());
    assert!(Grid::parse("3 3\n", 32, 32).is_none());
    assert!(Grid::parse("3\n1 1\n\n", 32, 32).is_none());
    assert!(Grid::parse("3 3\n1\n\n", 32, 32).is_none());
    assert!(Grid::parse("a 3\n1 1\n\n", 32, 32).is_none());
    assert!(Grid::parse("3 3\n1 x1\n\n", 32, 32).is_none());
    assert!(Grid::parse("3 3\n1 -\n\n", 32, 32).is_none());
    assert!(Grid::parse("3 2147483648\n1 1\n\n", 32, 32).is_none());
    assert!(Grid::parse("3 3\n-2147483649 1\n\n", 32, 32).is_none());
    assert!(Grid::parse("3 3\n1 1", 32, 32).is_some());
}

#[test]
fn numbers_are_read_exactly() {
    let s = to_chars("-2147483648 2147483647 0007 +12 99999999999 1a");
    assert_eq!(s.len(), 46);
    assert_eq!(read_int(&s, 0, 11), Some(i32::MIN));
    assert_eq!(read_int(&s, 12, 22), Some(i32::MAX));
    assert_eq!(read_int(&s, 23, 27), Some(7));
    assert_eq!(read_int(&s, 28, 31), Some(12));
    assert_eq!(read_int(&s, 32, 43), None);
    assert_eq!(read_int(&s, 44, 46), None);
    assert_eq!(read_int(&s, 0, 1), None);
    assert_eq!(read_int(&s, 5, 5), None);
    assert_eq!(read_pair(&s, 0, 46), Some((i32::MIN, i32::MAX)));
    assert_eq!(read_pair(&s, 23, 31), Some((7, 12)));
    assert_eq!(read_pair(&s, 28, 46), None);
    assert_eq!(read_pair(&s, 28, 31), None);
}

#[test]
fn characters_map_to_fields() {
    for c in ['W', 'r', 'd', '.', 'P', 'X', ' ', 'w', 'R', '#', 'é'] {
        assert_eq!(field_for(c, 3, 5), expected(c, 3, 5));
    }
    assert_eq!(to_chars("aé\n"), vec!['a', 'é', '\n']);
}

#[test]
fn zones_tile_the_map() {
    // A canvas of 64 by 96 pixels shows 2 by 3 tiles.
    let zones = Zone::from_map(5, 4, 64, 96);
    assert_eq!(
        zones,
        vec![
            Zone { x: 0, y: 0, width: 2, height: 3 },
            Zone { x: 2, y: 0, width: 2, height: 3 },
            Zone { x: 4, y: 0, width: 2, height: 3 },
            Zone { x: 0, y: 3, width: 2, height: 3 },
            Zone { x: 2, y: 3, width: 2, height: 3 },
            Zone { x: 4, y: 3, width: 2, height: 3 },
        ]
    );
    assert_eq!(Zone::get_current_zone(0, 0, &zones), Some(zones[0]));
    assert_eq!(Zone::get_current_zone(3, 2, &zones), Some(zones[1]));
    assert_eq!(Zone::get_current_zone(4, 3, &zones), Some(zones[5]));
    assert_eq!(Zone::get_current_zone(6, 0, &zones), None);
    assert_eq!(Zone::get_current_zone(0, 6, &zones), None);
    assert_eq!(Zone::get_current_zone(-1, 0, &zones), None);
    assert!(zones[1].covers(2, 2));
    assert!(!zones[1].covers(4, 2));
    assert!(!zones[1].covers(2, 3));
}

#[test]
fn degenerate_maps_have_no_zones() {
    assert_eq!(Zone::from_map(0, 4, 64, 64), vec![]);
    assert_eq!(Zone::from_map(4, 0, 64, 64), vec![]);
    assert_eq!(Zone::from_map(-1, 4, 64, 64), vec![]);
    assert_eq!(Zone::from_map(4, 4, 31, 64), vec![]);
    assert_eq!(Zone::from_map(4, 4, 64, -5), vec![]);
    assert_eq!(
        Zone::from_map(1, 1, i32::MAX, i32::MAX),
        vec![Zone { x: 0, y: 0, width: 67108863, height: 67108863 }]
    );
    assert_eq!(Zone::from_map(i32::MAX, 1, i32::MAX, 32).len(), 33);
}

#[test]
fn first_matching_zone_wins() {
    let zones = vec![
        Zone { x: 0, y: 0, width: 2, height: 2 },
        Zone { x: 1, y: 1, width: 2, height: 2 },
    ];
    assert_eq!(Zone::get_current_zone(1, 1, &zones), Some(zones[0]));
    assert_eq!(Zone::get_current_zone(2, 2, &zones), Some(zones[1]));
    assert_eq!(Zone::get_current_zone(2, 0, &zones), None);
}

#[test]
fn player_intent_is_recorded_on_its_tile() {
    let mut g = Grid::parse("1 3\n1 0\n\n.P.\n", 96, 32).unwrap();
    g.set_player_doing(Movement::MoveLeft, true);
    let want = Player { position: (1, 0), movement: Movement::MoveLeft, pushing: false };
    assert_eq!(g.get_tile(1, 0).unwrap().get_field(), Field::Entity(Entity::Player(want)));
    g.set_player_doing(Movement::Afk, false);
    let idle = Player { position: (1, 0), movement: Movement::Afk, pushing: false };
    assert_eq!(g.get_tile(1, 0).unwrap().get_field(), Field::Entity(Entity::Player(idle)));
    // No player on the cached coordinate: nothing changes.
    let mut h = Grid::parse("1 3\n0 0\n\n.P.\n", 96, 32).unwrap();
    h.set_player_doing(Movement::MoveLeft, true);
    assert_eq!(h.get_tile(0, 0).unwrap().get_field(), Field::Dirt);
    assert_eq!(h.get_tile(1, 0).unwrap().get_field(), expected('P', 1, 0));
}

#[test]
fn cancelled_push_puts_the_player_back() {
    let p = Player { position: (2, 3), movement: Movement::MoveUp, pushing: true };
    let want = Player { position: (2, 3), movement: Movement::MoveUp, pushing: false };
    assert_eq!(p.canced_push(), Action::new((2, 3), Field::Entity(Entity::Player(want))));
    let mut q = p;
    q.set_movement(Movement::MoveDown);
    assert_eq!(q, Player { position: (2, 3), movement: Movement::MoveDown, pushing: true });
    assert_eq!(q.get_movement(), Movement::MoveDown);
    assert_eq!(q.get_position(), (2, 3));
}

#[test]
fn player_walks_digs_and_stops() {
    let g = Grid::parse("1 4\n1 0\n\n.P W\n", 128, 32).unwrap();
    let mut p = Player::new(1, 0);
    assert_eq!(p.update(&g), vec![]);
    p.set_movement(Movement::MoveLeft);
    let moved = Player { position: (0, 0), movement: Movement::MoveLeft, pushing: false };
    assert_eq!(
        p.update(&g),
        vec![
            Action::new((1, 0), Field::Empty),
            Action::new((0, 0), Field::Entity(Entity::Player(moved))),
        ]
    );
    p.set_movement(Movement::MoveUp);
    assert_eq!(p.update(&g), vec![]);
    let at_gap = Player { position: (2, 0), movement: Movement::MoveRight, pushing: false };
    assert_eq!(at_gap.update(&g), vec![]);
}

#[test]
fn tick_runs_rocks_then_player_then_diamonds() {
    // The canvas shows 2 by 2 tiles, so the map of 4 by 2 has two zones.
    let mut g = Grid::parse("2 4\n1 0\n\nrP.d\n  W \n", 64, 64).unwrap();
    assert!(g.is_playable());
    g.set_player_doing(Movement::MoveRight, true);
    let left = Zone { x: 0, y: 0, width: 2, height: 2 };
    let right = Zone { x: 2, y: 0, width: 2, height: 2 };
    let draws = g.update();
    let rock = Field::Entity(Entity::Rock(Rock { position: (0, 0), falling_since: 1 }));
    let player = Field::Entity(Entity::Player(Player {
        position: (2, 0),
        movement: Movement::MoveRight,
        pushing: false,
    }));
    let diamond = Field::Entity(Entity::Diamond(Diamond { position: (3, 0), falling_since: 1 }));
    assert_eq!(
        draws,
        vec![
            Redraw::Cell(left, Action::new((0, 0), Field::Empty)),
            Redraw::Cell(left, Action::new((0, 1), rock)),
            Redraw::Cell(left, Action::new((1, 0), Field::Empty)),
            Redraw::Cell(left, Action::new((2, 0), player)),
            Redraw::Whole(right),
            Redraw::Cell(right, Action::new((3, 0), Field::Empty)),
            Redraw::Cell(right, Action::new((3, 1), diamond)),
        ]
    );
    assert_eq!(g.get_player_position(), (2, 0));
    assert_eq!(g.get_tile(0, 0).unwrap().get_field(), Field::Empty);
    assert_eq!(g.get_tile(0, 1).unwrap().get_field(), rock);
    assert_eq!(g.get_tile(1, 0).unwrap().get_field(), Field::Empty);
    assert_eq!(g.get_tile(2, 0).unwrap().get_field(), player);
    assert_eq!(g.get_tile(3, 0).unwrap().get_field(), Field::Empty);
    assert_eq!(g.get_tile(3, 1).unwrap().get_field(), diamond);
    assert!(g.is_playable());
}

#[test]
fn blocked_player_becomes_idle() {
    let mut g = Grid::parse("1 2\n0 0\n\nPW\n", 64, 32).unwrap();
    g.set_player_doing(Movement::MoveRight, true);
    let draws = g.update();
    assert_eq!(draws, vec![]);
    let idle = Player { position: (0, 0), movement: Movement::Afk, pushing: false };
    assert_eq!(g.get_tile(0, 0).unwrap().get_field(), Field::Entity(Entity::Player(idle)));
    assert_eq!(g.get_player_position(), (0, 0));
}

#[test]
fn cached_player_coordinate_follows_the_player_tile() {
    // The header names a coordinate that holds no player; the tick reads it
    // afresh from the tile that does.
    let mut g = Grid::parse("2 2\n0 0\n\n..\n.P\n", 64, 64).unwrap();
    assert_eq!(g.get_player_position(), (0, 0));
    g.update();
    assert_eq!(g.get_player_position(), (1, 1));
}
