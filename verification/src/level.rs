use vstd::prelude::*;
use crate::board::Board;
use crate::entity::{Diamond, Entity, Field, Player, Rock, Wall};
use crate::movement::Movement;
use crate::tile::Tile;
use crate::zone::{lemma_zones_cover_map, zone_at, zones_of, TILE_PIXELS};

verus! {

/// White space separates the numbers of a header line: the characters that
/// Unicode gives the property White_Space.
pub open spec fn is_blank(c: char) -> bool {
    let v = c as u32;
    9 <= v <= 13 || v == 0x20 || v == 0x85 || v == 0xA0 || v == 0x1680 || 0x2000 <= v <= 0x200A || v
        == 0x2028 || v == 0x2029 || v == 0x202F || v == 0x205F || v == 0x3000
}

/// A decimal digit.
pub open spec fn is_digit(c: char) -> bool {
    48 <= c as u32 <= 57
}

/// The index of the line feed that ends the line starting at `from`, or the
/// text's length where no line feed follows.
pub open spec fn line_end(s: Seq<char>, from: int) -> int
    decreases s.len() - from,
{
    if from < 0 || from >= s.len() {
        s.len() as int
    } else if s[from] == '\n' {
        from
    } else {
        line_end(s, from + 1)
    }
}

/// Where the content of the line starting at `from` ends: at its line feed,
/// or one earlier when a carriage return precedes the line feed. A carriage
/// return at the very end of the text belongs to the line.
pub open spec fn content_end(s: Seq<char>, from: int) -> int {
    let e = line_end(s, from);
    if from < e < s.len() && s[e - 1] == '\r' {
        e - 1
    } else {
        e
    }
}

/// The first index from `i` on, below `end`, that holds no white space; `end`
/// where there is none.
pub open spec fn skip_blanks(s: Seq<char>, i: int, end: int) -> int
    decreases end - i,
{
    if i < 0 || i >= end || i >= s.len() || !is_blank(s[i]) {
        i
    } else {
        skip_blanks(s, i + 1, end)
    }
}

/// The first index from `i` on, below `end`, that holds white space; `end`
/// where there is none.
pub open spec fn token_end(s: Seq<char>, i: int, end: int) -> int
    decreases end - i,
{
    if i < 0 || i >= end || i >= s.len() || is_blank(s[i]) {
        i
    } else {
        token_end(s, i + 1, end)
    }
}

/// The decimal value of the digits from `i` to `end`, continuing from
/// `acc`; nothing where a character is no digit.
pub open spec fn digits_from(s: Seq<char>, i: int, end: int, acc: int) -> Option<int>
    decreases end - i,
{
    if i < 0 || i >= end || i >= s.len() {
        Some(acc)
    } else if !is_digit(s[i]) {
        None
    } else {
        digits_from(s, i + 1, end, acc * 10 + (s[i] as u32 - 48))
    }
}

/// The number written from `a` to `b`: an optional sign, then at least one
/// digit, with a value that a 32-bit integer holds.
pub open spec fn int_token(s: Seq<char>, a: int, b: int) -> Option<i32> {
    if a < 0 || a >= b || b > s.len() {
        None
    } else {
        let start = if s[a] == '-' || s[a] == '+' {
            a + 1
        } else {
            a
        };
        if start >= b {
            None
        } else {
            match digits_from(s, start, b, 0) {
                Some(v) => {
                    let val = if s[a] == '-' {
                        -v
                    } else {
                        v
                    };
                    if i32::MIN <= val <= i32::MAX {
                        Some(val as i32)
                    } else {
                        None
                    }
                },
                None => None,
            }
        }
    }
}

/// The number whose token is the first from `i` on, below `end`, with the
/// index just behind the token.
pub open spec fn number_at(s: Seq<char>, i: int, end: int) -> Option<(i32, int)> {
    let a = skip_blanks(s, i, end);
    let b = token_end(s, a, end);
    match int_token(s, a, b) {
        Some(v) => Some((v, b)),
        None => None,
    }
}

/// The first two numbers of the line from `from` to `end`.
pub open spec fn pair_at(s: Seq<char>, from: int, end: int) -> Option<(i32, i32)> {
    match number_at(s, from, end) {
        Some((first, behind)) => match number_at(s, behind, end) {
            Some((second, _)) => Some((first, second)),
            None => None,
        },
        None => None,
    }
}

/// The contents of the lines from `from` on, one sequence per line.
pub open spec fn rows_from(s: Seq<char>, from: int) -> Seq<Seq<char>>
    decreases (if from < s.len() { s.len() - from } else { 0 }),
{
    let e = line_end(s, from);
    if from < 0 || from >= s.len() || e < from {
        Seq::empty()
    } else {
        seq![s.subrange(from, content_end(s, from))] + rows_from(s, e + 1)
    }
}

/// The start of the second line.
pub open spec fn second_line(s: Seq<char>) -> int {
    line_end(s, 0) + 1
}

/// The start of the first row of cells: behind the size line, the player
/// line and one more line that is skipped.
pub open spec fn body_start(s: Seq<char>) -> int {
    line_end(s, line_end(s, second_line(s)) + 1) + 1
}

/// The rows of cells of a level text, as written.
pub open spec fn level_rows(s: Seq<char>) -> Seq<Seq<char>> {
    rows_from(s, body_start(s))
}

/// The field that a character of a level text stands for at (`x`, `y`).
pub open spec fn field_of(c: char, x: i32, y: i32) -> Field {
    if c == 'W' {
        Field::Wall(Wall { position: (x, y) })
    } else if c == 'r' {
        Field::Entity(Entity::Rock(Rock { position: (x, y), falling_since: 0 }))
    } else if c == 'd' {
        Field::Entity(Entity::Diamond(Diamond { position: (x, y), falling_since: 0 }))
    } else if c == '.' {
        Field::Dirt
    } else if c == 'P' {
        Field::Entity(
            Entity::Player(Player { position: (x, y), movement: Movement::Afk, pushing: false }),
        )
    } else if c == 'X' {
        Field::Exit
    } else {
        Field::Empty
    }
}

/// The tiles of one row of cells.
pub open spec fn tiles_of(row: Seq<char>, y: int) -> Seq<Tile> {
    Seq::new(
        row.len(),
        |x: int| Tile { x: x as i32, y: y as i32, field: field_of(row[x], x as i32, y as i32) },
    )
}

/// Whether every cell's coordinate fits a 32-bit integer.
pub open spec fn rows_fit(rows: Seq<Seq<char>>) -> bool {
    rows.len() <= i32::MAX && forall|y: int| 0 <= y < rows.len() ==> (#[trigger] rows[y]).len() <= i32::MAX
}

/// The height and width that the first line announces.
pub open spec fn level_size(s: Seq<char>) -> Option<(i32, i32)> {
    pair_at(s, 0, content_end(s, 0))
}

/// The player's x and y that the second line announces.
pub open spec fn level_player(s: Seq<char>) -> Option<(i32, i32)> {
    pair_at(s, second_line(s), content_end(s, second_line(s)))
}

/// The board that a level text describes on a canvas of `canvas_sx` by
/// `canvas_sy` pixels, or nothing where the text is malformed: the first
/// line holds height and width, the second the player's x and y, the third
/// is skipped, and every further line is a row of cells.
pub open spec fn level_board(s: Seq<char>, canvas_sx: i32, canvas_sy: i32) -> Option<Board> {
    match (level_size(s), level_player(s)) {
        (Some(size), Some(player)) => {
            let rows = level_rows(s);
            if rows_fit(rows) {
                Some(
                    Board {
                        rows: Seq::new(rows.len(), |y: int| tiles_of(rows[y], y)),
                        player,
                        zones: zones_of(size.1 as int, size.0 as int, canvas_sx as int, canvas_sy as int),
                    },
                )
            } else {
                None
            }
        },
        _ => None,
    }
}

/// Digits only ever add to a value.
pub proof fn lemma_digits_grow(s: Seq<char>, i: int, end: int, acc: int)
    requires
        acc >= 0,
    ensures
        digits_from(s, i, end, acc) matches Some(v) ==> v >= acc,
    decreases end - i,
{
    if !(i < 0 || i >= end || i >= s.len()) && is_digit(s[i]) {
        lemma_digits_grow(s, i + 1, end, acc * 10 + (s[i] as u32 - 48));
    }
}

/// Reading a level back gives the text's own cells: every cell of every row
/// holds the field that its character stands for, and there are no others.
pub proof fn lemma_level_round_trip(s: Seq<char>, canvas_sx: i32, canvas_sy: i32)
    requires
        level_board(s, canvas_sx, canvas_sy) is Some,
    ensures
        level_board(s, canvas_sx, canvas_sy)->0.wf(),
        level_board(s, canvas_sx, canvas_sy)->0.rows.len() == level_rows(s).len(),
        forall|x: int, y: int|
            #![trigger level_board(s, canvas_sx, canvas_sy)->0.field_at(x, y)]
            0 <= y < level_rows(s).len() && 0 <= x < level_rows(s)[y].len() ==> level_board(
                s,
                canvas_sx,
                canvas_sy,
            )->0.field_at(x, y) == Some(field_of(level_rows(s)[y][x], x as i32, y as i32)),
        forall|x: int, y: int|
            #![trigger level_board(s, canvas_sx, canvas_sy)->0.field_at(x, y)]
            !(0 <= y < level_rows(s).len() && 0 <= x < level_rows(s)[y].len()) ==> level_board(
                s,
                canvas_sx,
                canvas_sy,
            )->0.field_at(x, y) is None,
{
    let b = level_board(s, canvas_sx, canvas_sy)->0;
    let rows = level_rows(s);
    assert(rows_fit(rows));
    assert forall|x: int, y: int| #[trigger] b.in_bounds(x, y) implies b.rows[y][x].x == x
        && b.rows[y][x].y == y by {
        assert(rows[y].len() <= i32::MAX);
    }
}

/// A level whose header tells the truth can be played: when no row is
/// longer than the announced width, there are no more rows than the
/// announced height, the announced player coordinate lies within both, and
/// the canvas shows at least one tile, then the player and every tile are
/// in a zone.
pub proof fn lemma_honest_level_is_playable(s: Seq<char>, canvas_sx: i32, canvas_sy: i32)
    requires
        level_board(s, canvas_sx, canvas_sy) is Some,
        canvas_sx >= TILE_PIXELS,
        canvas_sy >= TILE_PIXELS,
        level_size(s) matches Some(size) && level_player(s) matches Some(player) && ({
            &&& level_rows(s).len() <= size.0
            &&& forall|y: int|
                0 <= y < level_rows(s).len() ==> (#[trigger] level_rows(s)[y]).len() <= size.1
            &&& 0 <= player.0 < size.1
            &&& 0 <= player.1 < size.0
        }),
    ensures
        level_board(s, canvas_sx, canvas_sy)->0.playable(),
{
    let b = level_board(s, canvas_sx, canvas_sy)->0;
    let size = level_size(s)->0;
    let player = level_player(s)->0;
    lemma_zones_cover_map(size.1, size.0, canvas_sx, canvas_sy, player.0 as int, player.1 as int);
    assert forall|x: int, y: int| #[trigger] b.in_bounds(x, y) implies zone_at(b.zones, x, y) is Some by {
        assert(level_rows(s)[y].len() <= size.1);
        lemma_zones_cover_map(size.1, size.0, canvas_sx, canvas_sy, x, y);
    }
}

} // verus!
