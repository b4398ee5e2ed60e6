use vstd::prelude::*;
use vstd::string::*;
use crate::entity::{Diamond, Entity, Field, Player, Rock, Wall};
use crate::level::{
    content_end, digits_from, field_of, int_token, is_blank, lemma_digits_grow, line_end,
    number_at, pair_at, rows_fit, rows_from, skip_blanks, tiles_of, token_end,
};
use crate::tile::Tile;

verus! {

/// The characters of a string, one by one.
#[verifier::loop_isolation(false)]
pub fn to_chars(s: &str) -> (out: Vec<char>)
    ensures
        out@ == s@,
{
    let n = s.unicode_len();
    let mut out: Vec<char> = Vec::new();
    let mut i: usize = 0;
    while i < n
        invariant
            i <= n,
            out@ == s@.subrange(0, i as int),
        decreases n - i,
    {
        out.push(s.get_char(i));
        assert(out@ =~= s@.subrange(0, i + 1));
        i = i + 1;
    }
    assert(s@.subrange(0, n as int) =~= s@);
    out
}

/// Finds the end of the line that starts at `from`.
#[verifier::loop_isolation(false)]
pub fn find_line_end(s: &Vec<char>, from: usize) -> (out: usize)
    requires
        from <= s.len(),
    ensures
        out == line_end(s@, from as int),
        from <= out <= s.len(),
{
    let mut i: usize = from;
    while i < s.len() && s[i] != '\n'
        invariant
            from <= i <= s.len(),
            line_end(s@, from as int) == line_end(s@, i as int),
        decreases s.len() - i,
    {
        i = i + 1;
    }
    i
}

/// Finds the end of the content of the line that starts at `from` and ends
/// at `end`.
pub fn find_content_end(s: &Vec<char>, from: usize, end: usize) -> (out: usize)
    requires
        from <= end <= s.len(),
        end == line_end(s@, from as int),
    ensures
        out == content_end(s@, from as int),
        from <= out <= end,
{
    if end > from && end < s.len() && s[end - 1] == '\r' {
        end - 1
    } else {
        end
    }
}

fn blank(c: char) -> (out: bool)
    ensures
        out == is_blank(c),
{
    let v: u32 = c as u32;
    (9 <= v && v <= 13) || v == 0x20 || v == 0x85 || v == 0xA0 || v == 0x1680 || (0x2000 <= v && v
        <= 0x200A) || v == 0x2028 || v == 0x2029 || v == 0x202F || v == 0x205F || v == 0x3000
}

/// Steps over the white space from `i` on.
#[verifier::loop_isolation(false)]
pub fn skip_blanks_in(s: &Vec<char>, i: usize, end: usize) -> (out: usize)
    requires
        i <= end <= s.len(),
    ensures
        out == skip_blanks(s@, i as int, end as int),
        i <= out <= end,
{
    let mut k: usize = i;
    while k < end && blank(s[k])
        invariant
            i <= k <= end,
            skip_blanks(s@, i as int, end as int) == skip_blanks(s@, k as int, end as int),
        decreases end - k,
    {
        k = k + 1;
    }
    k
}

/// Steps over the token from `i` on.
#[verifier::loop_isolation(false)]
pub fn token_end_in(s: &Vec<char>, i: usize, end: usize) -> (out: usize)
    requires
        i <= end <= s.len(),
    ensures
        out == token_end(s@, i as int, end as int),
        i <= out <= end,
{
    let mut k: usize = i;
    while k < end && !blank(s[k])
        invariant
            i <= k <= end,
            token_end(s@, i as int, end as int) == token_end(s@, k as int, end as int),
        decreases end - k,
    {
        k = k + 1;
    }
    k
}

/// Reads the number written from `a` to `b`.
#[verifier::loop_isolation(false)]
pub fn read_int(s: &Vec<char>, a: usize, b: usize) -> (out: Option<i32>)
    requires
        a <= b <= s.len(),
    ensures
        out == int_token(s@, a as int, b as int),
{
    if a >= b {
        return None;
    }
    let negative = s[a] == '-';
    let start: usize = if s[a] == '-' || s[a] == '+' {
        a + 1
    } else {
        a
    };
    if start >= b {
        return None;
    }
    let mut acc: i64 = 0;
    let mut i: usize = start;
    while i < b
        invariant
            start <= i <= b,
            0 <= acc <= 2147483648,
            digits_from(s@, start as int, b as int, 0) == digits_from(s@, i as int, b as int, acc as int),
        decreases b - i,
    {
        let v: u32 = s[i] as u32;
        if v < 48 || v > 57 {
            return None;
        }
        let next: i64 = acc * 10 + (v - 48) as i64;
        if next > 2147483648 {
            proof {
                lemma_digits_grow(s@, i + 1, b as int, next as int);
            }
            return None;
        }
        acc = next;
        i = i + 1;
    }
    let val: i64 = if negative {
        -acc
    } else {
        acc
    };
    if val < -2147483648 || val > 2147483647 {
        None
    } else {
        Some(val as i32)
    }
}

/// Reads the first number from `i` on, and says where its token ends.
pub fn read_number(s: &Vec<char>, i: usize, end: usize) -> (out: Option<(i32, usize)>)
    requires
        i <= end <= s.len(),
    ensures
        match number_at(s@, i as int, end as int) {
            Some((v, behind)) => out == Some((v, behind as usize)) && i <= behind <= end,
            None => out is None,
        },
{
    let a = skip_blanks_in(s, i, end);
    let b = token_end_in(s, a, end);
    match read_int(s, a, b) {
        Some(v) => Some((v, b)),
        None => None,
    }
}

/// Reads the first two numbers of the line from `from` to `end`.
pub fn read_pair(s: &Vec<char>, from: usize, end: usize) -> (out: Option<(i32, i32)>)
    requires
        from <= end <= s.len(),
    ensures
        out == pair_at(s@, from as int, end as int),
{
    match read_number(s, from, end) {
        Some((first, behind)) => match read_number(s, behind, end) {
            Some((second, _)) => Some((first, second)),
            None => None,
        },
        None => None,
    }
}

/// The field that a character stands for at (`x`, `y`).
pub fn field_for(c: char, x: i32, y: i32) -> (out: Field)
    ensures
        out == field_of(c, x, y),
{
    if c == 'W' {
        Field::Wall(Wall::new(x, y))
    } else if c == 'r' {
        Field::Entity(Entity::Rock(Rock::new(x, y)))
    } else if c == 'd' {
        Field::Entity(Entity::Diamond(Diamond::new(x, y)))
    } else if c == '.' {
        Field::Dirt
    } else if c == 'P' {
        Field::Entity(Entity::Player(Player::new(x, y)))
    } else if c == 'X' {
        Field::Exit
    } else {
        Field::Empty
    }
}

/// Reads the rows of cells from `from` on into tiles. Fails where a
/// coordinate would not fit a 32-bit integer.
#[verifier::loop_isolation(false)]
pub fn read_rows(s: &Vec<char>, from: usize) -> (out: Option<Vec<Vec<Tile>>>)
    requires
        from <= s.len(),
    ensures
        match out {
            Some(t) => {
                &&& rows_fit(rows_from(s@, from as int))
                &&& t@.len() == rows_from(s@, from as int).len()
                &&& forall|y: int|
                    0 <= y < t@.len() ==> (#[trigger] t@[y])@ == tiles_of(rows_from(s@, from as int)[y], y)
            },
            None => !rows_fit(rows_from(s@, from as int)),
        },
{
    let ghost all = rows_from(s@, from as int);
    let ghost mut done: Seq<Seq<char>> = Seq::empty();
    let mut tiles: Vec<Vec<Tile>> = Vec::new();
    let mut pos: usize = from;
    while pos < s.len()
        invariant
            from <= pos <= s.len(),
            done + rows_from(s@, pos as int) == all,
            tiles@.len() == done.len(),
            done.len() <= i32::MAX,
            forall|y: int| 0 <= y < done.len() ==> (#[trigger] done[y]).len() <= i32::MAX,
            forall|y: int| 0 <= y < tiles@.len() ==> (#[trigger] tiles@[y])@ == tiles_of(done[y], y),
        decreases s.len() - pos,
    {
        let end = find_line_end(s, pos);
        let stop = find_content_end(s, pos, end);
        let next: usize = if end < s.len() {
            end + 1
        } else {
            end
        };
        let ghost line = s@.subrange(pos as int, stop as int);
        assert(rows_from(s@, pos as int) == seq![line] + rows_from(s@, end + 1));
        assert(rows_from(s@, end + 1) == rows_from(s@, next as int));
        assert(all =~= done.push(line) + rows_from(s@, next as int));
        assert(all[done.len() as int] == line);
        let y: usize = tiles.len();
        if y >= 2147483647 || stop - pos > 2147483647 {
            return None;
        }
        let mut row: Vec<Tile> = Vec::new();
        let mut k: usize = pos;
        while k < stop
            invariant
                pos <= k <= stop,
                row@.len() == k - pos,
                forall|j: int| 0 <= j < row@.len() ==> #[trigger] row@[j] == tiles_of(line, y as int)[j],
            decreases stop - k,
        {
            let x: i32 = (k - pos) as i32;
            row.push(Tile::new(x, y as i32, field_for(s[k], x, y as i32)));
            k = k + 1;
        }
        assert(row@ =~= tiles_of(line, y as int));
        tiles.push(row);
        proof {
            done = done.push(line);
        }
        pos = next;
    }
    assert(done + Seq::<Seq<char>>::empty() =~= done);
    Some(tiles)
}

} // verus!
