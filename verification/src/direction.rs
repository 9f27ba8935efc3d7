//! Compass directions and vulnerabilities.
//!
//! A direction is one of the four seats at the table; the seats form a
//! cyclic group of order four under clockwise rotation, indexed
//! 0 = North, 1 = East, 2 = South, 3 = West.
use vstd::prelude::*;

verus! {

#[derive(Clone, Copy, PartialEq, Eq, Structural, Debug)]
pub enum Direction {
    North,
    East,
    South,
    West,
}

#[derive(Clone, Copy, PartialEq, Eq, Structural, Debug)]
pub enum Vulnerability {
    Neither,
    NorthSouth,
    EastWest,
    Both,
}

// ---------------------------------------------------------------------------
// Direction indices and rotation
// ---------------------------------------------------------------------------

/// Clockwise position of a direction: 0 = North, 1 = East, 2 = South,
/// 3 = West.
pub open spec fn direction_index_spec(d: Direction) -> int {
    match d {
        Direction::North => 0,
        Direction::East => 1,
        Direction::South => 2,
        Direction::West => 3,
    }
}

pub open spec fn direction_from_index_spec(i: int) -> Direction {
    if i == 0 {
        Direction::North
    } else if i == 1 {
        Direction::East
    } else if i == 2 {
        Direction::South
    } else {
        Direction::West
    }
}

/// The direction `r` clockwise quarter-turns past `d`.
pub open spec fn rotate_direction_spec(d: Direction, r: int) -> Direction {
    direction_from_index_spec((direction_index_spec(d) + r) % 4)
}

/// How many clockwise quarter-turns take `from` to `to`; always in 0..=3.
pub open spec fn rotation_amount_spec(from: Direction, to: Direction) -> int {
    (direction_index_spec(to) + 4 - direction_index_spec(from)) % 4
}

pub fn direction_index(dir: Direction) -> (r: usize)
    ensures
        r == direction_index_spec(dir),
{
    match dir {
        Direction::North => 0,
        Direction::East => 1,
        Direction::South => 2,
        Direction::West => 3,
    }
}

pub fn rotate_direction(dir: Direction, rotation: u8) -> (r: Direction)
    ensures
        r == rotate_direction_spec(dir, rotation as int),
{
    let idx = direction_index(dir);
    let new_idx = (idx + rotation as usize) % 4;
    if new_idx == 0 {
        Direction::North
    } else if new_idx == 1 {
        Direction::East
    } else if new_idx == 2 {
        Direction::South
    } else {
        Direction::West
    }
}

/// The clockwise distance from `from` to `to`, in 0..=3.
pub fn rotation_amount(from: Direction, to: Direction) -> (r: u8)
    ensures
        r == rotation_amount_spec(from, to),
        r < 4,
{
    let from_idx = direction_index(from);
    let to_idx = direction_index(to);
    ((to_idx + 4 - from_idx) % 4) as u8
}

// ---------------------------------------------------------------------------
// Characters
// ---------------------------------------------------------------------------

/// A direction read from its initial, accepting either letter case.
pub open spec fn direction_from_char_spec(c: char) -> Option<Direction> {
    if c == 'N' || c == 'n' {
        Some(Direction::North)
    } else if c == 'E' || c == 'e' {
        Some(Direction::East)
    } else if c == 'S' || c == 's' {
        Some(Direction::South)
    } else if c == 'W' || c == 'w' {
        Some(Direction::West)
    } else {
        None
    }
}

pub fn direction_from_char(c: char) -> (r: Option<Direction>)
    ensures
        r == direction_from_char_spec(c),
{
    if c == 'N' || c == 'n' {
        Some(Direction::North)
    } else if c == 'E' || c == 'e' {
        Some(Direction::East)
    } else if c == 'S' || c == 's' {
        Some(Direction::South)
    } else if c == 'W' || c == 'w' {
        Some(Direction::West)
    } else {
        None
    }
}

/// The canonical upper-case initial of a direction.
pub open spec fn direction_char_spec(d: Direction) -> char {
    match d {
        Direction::North => 'N',
        Direction::East => 'E',
        Direction::South => 'S',
        Direction::West => 'W',
    }
}

pub fn direction_char(d: Direction) -> (r: char)
    ensures
        r == direction_char_spec(d),
{
    match d {
        Direction::North => 'N',
        Direction::East => 'E',
        Direction::South => 'S',
        Direction::West => 'W',
    }
}

/// The lower-case initial of a direction.
pub open spec fn direction_char_lower_spec(d: Direction) -> char {
    match d {
        Direction::North => 'n',
        Direction::East => 'e',
        Direction::South => 's',
        Direction::West => 'w',
    }
}

pub fn direction_char_lower(d: Direction) -> (r: char)
    ensures
        r == direction_char_lower_spec(d),
{
    match d {
        Direction::North => 'n',
        Direction::East => 'e',
        Direction::South => 's',
        Direction::West => 'w',
    }
}

// ---------------------------------------------------------------------------
// Vulnerability
// ---------------------------------------------------------------------------

/// The PBN token of a vulnerability.
pub open spec fn vulnerability_token_spec(v: Vulnerability) -> Seq<char> {
    match v {
        Vulnerability::Neither => "None"@,
        Vulnerability::NorthSouth => "NS"@,
        Vulnerability::EastWest => "EW"@,
        Vulnerability::Both => "All"@,
    }
}

/// Renders a vulnerability as its PBN token.
pub fn vulnerability_token(v: Vulnerability) -> (r: &'static str)
    ensures
        r@ == vulnerability_token_spec(v),
{
    match v {
        Vulnerability::Neither => "None",
        Vulnerability::NorthSouth => "NS",
        Vulnerability::EastWest => "EW",
        Vulnerability::Both => "All",
    }
}

/// Swapping the two sides of a vulnerability, as an odd rotation does.
pub open spec fn swap_vulnerability_spec(v: Vulnerability) -> Vulnerability {
    match v {
        Vulnerability::NorthSouth => Vulnerability::EastWest,
        Vulnerability::EastWest => Vulnerability::NorthSouth,
        other => other,
    }
}

pub fn swap_vulnerability(v: Vulnerability) -> (r: Vulnerability)
    ensures
        r == swap_vulnerability_spec(v),
{
    match v {
        Vulnerability::NorthSouth => Vulnerability::EastWest,
        Vulnerability::EastWest => Vulnerability::NorthSouth,
        other => other,
    }
}

/// The standard sixteen-board vulnerability cycle, by zero-based position.
pub open spec fn standard_vul_table_spec(i: int) -> Vulnerability {
    let k = i % 16;
    if k == 0 || k == 7 || k == 10 || k == 13 {
        Vulnerability::Neither
    } else if k == 1 || k == 4 || k == 11 || k == 14 {
        Vulnerability::NorthSouth
    } else if k == 2 || k == 5 || k == 8 || k == 15 {
        Vulnerability::EastWest
    } else {
        Vulnerability::Both
    }
}

/// The standard vulnerability at zero-based position `index` of the
/// sixteen-board cycle.
pub fn standard_vul(index: usize) -> (r: Vulnerability)
    ensures
        r == standard_vul_table_spec(index as int),
{
    let k = index % 16;
    if k == 0 || k == 7 || k == 10 || k == 13 {
        Vulnerability::Neither
    } else if k == 1 || k == 4 || k == 11 || k == 14 {
        Vulnerability::NorthSouth
    } else if k == 2 || k == 5 || k == 8 || k == 15 {
        Vulnerability::EastWest
    } else {
        Vulnerability::Both
    }
}

/// The standard vulnerability of board number `n` (numbered from 1).
pub open spec fn standard_vul_for_board_spec(n: int) -> Vulnerability {
    standard_vul_table_spec((n + 15) % 16)
}

pub fn standard_vul_for_board(n: u32) -> (r: Vulnerability)
    ensures
        r == standard_vul_for_board_spec(n as int),
{
    let idx = ((n % 16) as usize + 15) % 16;
    proof {
        assert((n as int + 15) % 16 == ((n as int % 16) + 15) % 16) by {
            assert(n as int % 16 == (n as int + 15) - 15 - 16 * ((n as int) / 16)) by {
                vstd::arithmetic::div_mod::lemma_fundamental_div_mod(n as int, 16);
            }
            vstd::arithmetic::div_mod::lemma_mod_sub_multiples_vanish(
                (n as int % 16) + 15,
                16,
            );
            vstd::arithmetic::div_mod::lemma_mod_breakdown(n as int + 15, 16, 1);
        }
    }
    standard_vul(idx)
}

/// The standard dealer at zero-based position `index` of the four-board
/// cycle: North, East, South, West.
pub fn standard_dealer(index: usize) -> (r: Direction)
    ensures
        r == direction_from_index_spec(index as int % 4),
{
    let k = index % 4;
    if k == 0 {
        Direction::North
    } else if k == 1 {
        Direction::East
    } else if k == 2 {
        Direction::South
    } else {
        Direction::West
    }
}

// ---------------------------------------------------------------------------
// Laws of the rotation group
// ---------------------------------------------------------------------------

/// The rotation taking `a` to `b` and the rotation taking `b` back to `a`
/// cancel: their sum is a multiple of four quarter-turns, and the rotation
/// from a direction to itself is zero.
pub proof fn lemma_rotation_amounts_cancel(a: Direction, b: Direction)
    ensures
        (rotation_amount_spec(a, b) + rotation_amount_spec(b, a)) % 4 == 0,
        rotation_amount_spec(a, a) == 0,
{
}

/// Rotating by `r1` and then by `r2` is one rotation by `(r1 + r2) % 4`.
pub proof fn lemma_rotate_direction_compose(d: Direction, r1: int, r2: int)
    requires
        0 <= r1 < 4,
        0 <= r2 < 4,
    ensures
        rotate_direction_spec(rotate_direction_spec(d, r1), r2) == rotate_direction_spec(
            d,
            (r1 + r2) % 4,
        ),
{
}

/// Rotating from the basis by the computed rotation amount reaches the
/// target direction.
pub proof fn lemma_rotation_amount_reaches(from: Direction, to: Direction)
    ensures
        rotate_direction_spec(from, rotation_amount_spec(from, to)) == to,
{
}

} // verus!
