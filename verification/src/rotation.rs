//! Rotation of a board and of seat-dependent tag values.
//!
//! `find_basis` decides which direction a board is currently oriented to;
//! `rotate_board` turns the table by a quarter-turn count; the remaining
//! functions rotate single tag values taken from the record text.
use vstd::prelude::*;
use crate::board::Board;
use crate::board::Deal;
use crate::board::board_has_valid_deal_spec;
use crate::board::clone_hand;
use crate::board::deal_hand_spec;
use crate::board::deal_like;
use crate::board::hand_like;
use crate::direction::Direction;
use crate::direction::Vulnerability;
use crate::direction::direction_char_lower_spec;
use crate::direction::direction_char_spec;
use crate::direction::direction_from_char_spec;
use crate::direction::direction_index_spec;
use crate::direction::rotate_direction_spec;
use crate::direction::standard_vul_for_board_spec;
use crate::direction::swap_vulnerability_spec;
use crate::text::dec_spec;

verus! {

/// How the reference direction of a board is chosen.
#[derive(Clone, Copy, PartialEq, Eq, Structural, Debug, Default)]
pub enum RotationBasis {
    /// Priority chain: basis tag, then Student, Declarer, Dealer, Deal.
    #[default]
    Standard,
    /// The RotationBasis tag.
    BasisTag,
    /// The Student tag.
    Student,
    /// The Declarer tag.
    Declarer,
    /// The Dealer tag.
    Dealer,
    /// The first-listed seat of the deal; falls back to the dealer.
    Deal,
    /// Every board is taken as oriented to North.
    North,
    /// Every board is taken as oriented to South.
    South,
    /// Every board is taken as oriented to East.
    East,
    /// Every board is taken as oriented to West.
    West,
}

/// One tag value captured by line scanning, keyed by board number and tag
/// name.
pub struct TagEntry {
    pub board: u32,
    pub name: String,
    pub value: String,
}

/// The mathematical view of a captured tag list: board number, tag name,
/// tag value.
pub open spec fn entries_view(s: Seq<TagEntry>) -> Seq<(u32, Seq<char>, Seq<char>)> {
    s.map_values(|e: TagEntry| (e.board, e.name@, e.value@))
}

/// The value of the last captured occurrence of a tag for a board.
pub open spec fn tag_lookup_spec(
    entries: Seq<(u32, Seq<char>, Seq<char>)>,
    board: u32,
    name: Seq<char>,
) -> Option<Seq<char>>
    decreases entries.len(),
{
    if entries.len() == 0 {
        None
    } else {
        let last = entries[entries.len() - 1];
        if last.0 == board && last.1 == name {
            Some(last.2)
        } else {
            tag_lookup_spec(entries.drop_last(), board, name)
        }
    }
}

pub fn tag_lookup(entries: &Vec<TagEntry>, board: u32, name: &str) -> (r: Option<String>)
    ensures
        match r {
            Some(v) => tag_lookup_spec(entries_view(entries@), board, name@) == Some(v@),
            None => tag_lookup_spec(entries_view(entries@), board, name@) is None,
        },
{
    let ghost ev = entries_view(entries@);
    let mut i: usize = entries.len();
    proof {
        assert(ev.subrange(0, ev.len() as int) =~= ev);
    }
    while i > 0
        invariant
            ev == entries_view(entries@),
            i <= entries@.len(),
            ev.len() == entries@.len(),
            tag_lookup_spec(ev, board, name@) == tag_lookup_spec(
                ev.subrange(0, i as int),
                board,
                name@,
            ),
        decreases i,
    {
        i -= 1;
        let e = &entries[i];
        let matches_name = crate::text::chars_eq_str(&crate::text::str_to_chars(e.name.as_str()), name);
        proof {
            assert(ev.subrange(0, i + 1).drop_last() =~= ev.subrange(0, i as int));
            assert(ev.subrange(0, i + 1).last() == ev[i as int]);
            assert(ev[i as int] == (entries@[i as int].board, entries@[i as int].name@, entries@[i as int].value@));
        }
        if e.board == board && matches_name {
            return Some(e.value.clone());
        }
    }
    proof {
        assert(ev.subrange(0, 0) =~= Seq::<(u32, Seq<char>, Seq<char>)>::empty());
    }
    None
}

/// The direction read from the first character of a tag's value.
pub open spec fn tag_direction_spec(
    entries: Seq<(u32, Seq<char>, Seq<char>)>,
    board: u32,
    name: Seq<char>,
) -> Option<Direction> {
    match tag_lookup_spec(entries, board, name) {
        Some(v) => if v.len() > 0 {
            direction_from_char_spec(v[0])
        } else {
            None
        },
        None => None,
    }
}

fn tag_direction(entries: &Vec<TagEntry>, board: u32, name: &str) -> (r: Option<Direction>)
    ensures
        r == tag_direction_spec(entries_view(entries@), board, name@),
{
    match tag_lookup(entries, board, name) {
        Some(v) => {
            let s = v.as_str();
            if s.unicode_len() > 0 {
                crate::direction::direction_from_char(s.get_char(0))
            } else {
                None
            }
        },
        None => None,
    }
}

// ---------------------------------------------------------------------------
// Basis resolution
// ---------------------------------------------------------------------------

/// The direction a board is taken to be oriented to, under the chosen
/// basis mode.  Unresolvable inputs fall back to North; there is no
/// failure path.
pub open spec fn find_basis_dir_spec(
    b: Board,
    entries: Seq<(u32, Seq<char>, Seq<char>)>,
    board_num: u32,
    basis: RotationBasis,
) -> Direction {
    match basis {
        RotationBasis::Standard => {
            if tag_direction_spec(entries, board_num, "RotationBasis"@) is Some {
                tag_direction_spec(entries, board_num, "RotationBasis"@)->Some_0
            } else if tag_direction_spec(entries, board_num, "Student"@) is Some {
                tag_direction_spec(entries, board_num, "Student"@)->Some_0
            } else if tag_direction_spec(entries, board_num, "Declarer"@) is Some {
                tag_direction_spec(entries, board_num, "Declarer"@)->Some_0
            } else if b.dealer is Some {
                b.dealer->0
            } else {
                Direction::North
            }
        },
        RotationBasis::BasisTag => match tag_direction_spec(entries, board_num, "RotationBasis"@) {
            Some(d) => d,
            None => Direction::North,
        },
        RotationBasis::Student => match tag_direction_spec(entries, board_num, "Student"@) {
            Some(d) => d,
            None => Direction::North,
        },
        RotationBasis::Declarer => match tag_direction_spec(entries, board_num, "Declarer"@) {
            Some(d) => d,
            None => Direction::North,
        },
        RotationBasis::Dealer => match b.dealer {
            Some(d) => d,
            None => Direction::North,
        },
        RotationBasis::Deal => match b.dealer {
            Some(d) => d,
            None => Direction::North,
        },
        RotationBasis::North => Direction::North,
        RotationBasis::South => Direction::South,
        RotationBasis::East => Direction::East,
        RotationBasis::West => Direction::West,
    }
}

/// The label naming which source resolved the basis, for diagnostics.
pub open spec fn find_basis_kind_spec(
    b: Board,
    entries: Seq<(u32, Seq<char>, Seq<char>)>,
    board_num: u32,
    basis: RotationBasis,
) -> Seq<char> {
    match basis {
        RotationBasis::Standard => {
            if tag_direction_spec(entries, board_num, "RotationBasis"@) is Some {
                "RotationBasis"@
            } else if tag_direction_spec(entries, board_num, "Student"@) is Some {
                "Student"@
            } else if tag_direction_spec(entries, board_num, "Declarer"@) is Some {
                "Declarer"@
            } else if b.dealer is Some {
                "Dealer"@
            } else {
                "North"@
            }
        },
        RotationBasis::BasisTag => "RotationBasis"@,
        RotationBasis::Student => "Student"@,
        RotationBasis::Declarer => "Declarer"@,
        RotationBasis::Dealer => "Dealer"@,
        RotationBasis::Deal => "Deal"@,
        RotationBasis::North => "North"@,
        RotationBasis::South => "South"@,
        RotationBasis::East => "East"@,
        RotationBasis::West => "West"@,
    }
}

/// Resolves the basis direction of a board and the label of its source.
pub fn find_basis(
    b: &Board,
    entries: &Vec<TagEntry>,
    board_num: u32,
    basis: RotationBasis,
) -> (r: (Direction, &'static str))
    ensures
        r.0 == find_basis_dir_spec(*b, entries_view(entries@), board_num, basis),
        r.1@ == find_basis_kind_spec(*b, entries_view(entries@), board_num, basis),
{
    match basis {
        RotationBasis::Standard => {
            if let Some(d) = tag_direction(entries, board_num, "RotationBasis") {
                (d, "RotationBasis")
            } else if let Some(d) = tag_direction(entries, board_num, "Student") {
                (d, "Student")
            } else if let Some(d) = tag_direction(entries, board_num, "Declarer") {
                (d, "Declarer")
            } else if let Some(d) = b.dealer {
                (d, "Dealer")
            } else {
                (Direction::North, "North")
            }
        },
        RotationBasis::BasisTag => (
            match tag_direction(entries, board_num, "RotationBasis") {
                Some(d) => d,
                None => Direction::North,
            },
            "RotationBasis",
        ),
        RotationBasis::Student => (
            match tag_direction(entries, board_num, "Student") {
                Some(d) => d,
                None => Direction::North,
            },
            "Student",
        ),
        RotationBasis::Declarer => (
            match tag_direction(entries, board_num, "Declarer") {
                Some(d) => d,
                None => Direction::North,
            },
            "Declarer",
        ),
        RotationBasis::Dealer => (
            match b.dealer {
                Some(d) => d,
                None => Direction::North,
            },
            "Dealer",
        ),
        RotationBasis::Deal => (
            // the first-listed seat of the raw deal is not modelled; the
            // dealer stands in for it
            match b.dealer {
                Some(d) => d,
                None => Direction::North,
            },
            "Deal",
        ),
        RotationBasis::North => (Direction::North, "North"),
        RotationBasis::South => (Direction::South, "South"),
        RotationBasis::East => (Direction::East, "East"),
        RotationBasis::West => (Direction::West, "West"),
    }
}

// ---------------------------------------------------------------------------
// Rotating a board
// ---------------------------------------------------------------------------

/// The dealer after rotation.
pub open spec fn rotated_dealer_spec(dealer: Option<Direction>, r: int) -> Option<Direction> {
    match dealer {
        Some(d) => Some(rotate_direction_spec(d, r)),
        None => None,
    }
}

/// The vulnerability after rotation: under standard-vulnerability mode it
/// is read from the board number; otherwise an odd rotation swaps the two
/// sides and an even one leaves it unchanged.
pub open spec fn rotated_vulnerability_spec(
    vul: Vulnerability,
    number: Option<u32>,
    r: int,
    use_standard_vul: bool,
) -> Vulnerability {
    if use_standard_vul {
        match number {
            Some(n) => standard_vul_for_board_spec(n as int),
            None => vul,
        }
    } else {
        if r % 2 == 1 {
            swap_vulnerability_spec(vul)
        } else {
            vul
        }
    }
}

/// After rotating the table by `r`, the hand at each direction `d` is the
/// hand that previously sat `r` quarter-turns counter-clockwise, that is
/// at `rotate_direction(d, 4 - r)`.
pub open spec fn rotated_deal_hand_spec(deal: Deal, d: Direction, r: int) -> crate::board::Hand {
    deal_hand_spec(deal, rotate_direction_spec(d, 4 - r))
}

/// Rotates a board in place by `rotation` clockwise quarter-turns: the
/// dealer, the vulnerability and the four hands move; the number, the
/// auction, the play and the player names stay.
pub fn rotate_board(board: &mut Board, rotation: u8, use_standard_vul: bool)
    requires
        rotation < 4,
    ensures
        final(board).number == old(board).number,
        final(board).dealer == rotated_dealer_spec(old(board).dealer, rotation as int),
        final(board).vulnerable == rotated_vulnerability_spec(
            old(board).vulnerable,
            old(board).number,
            rotation as int,
            use_standard_vul,
        ),
        hand_like(
            final(board).deal.north,
            rotated_deal_hand_spec(old(board).deal, Direction::North, rotation as int),
        ),
        hand_like(
            final(board).deal.east,
            rotated_deal_hand_spec(old(board).deal, Direction::East, rotation as int),
        ),
        hand_like(
            final(board).deal.south,
            rotated_deal_hand_spec(old(board).deal, Direction::South, rotation as int),
        ),
        hand_like(
            final(board).deal.west,
            rotated_deal_hand_spec(old(board).deal, Direction::West, rotation as int),
        ),
        final(board).auction == old(board).auction,
        final(board).play == old(board).play,
        final(board).players == old(board).players,
{
    if let Some(dealer) = board.dealer {
        board.dealer = Some(crate::direction::rotate_direction(dealer, rotation));
    }
    if use_standard_vul {
        if let Some(num) = board.number {
            board.vulnerable = crate::direction::standard_vul_for_board(num);
        }
    } else {
        if rotation % 2 == 1 {
            board.vulnerable = crate::direction::swap_vulnerability(board.vulnerable);
        }
    }
    // all four reads happen on a snapshot taken before any write, so a hand
    // is never overwritten before it moves
    let back: u8 = 4 - rotation;
    let north = clone_hand(board.deal.hand(crate::direction::rotate_direction(Direction::North, back)));
    let east = clone_hand(board.deal.hand(crate::direction::rotate_direction(Direction::East, back)));
    let south = clone_hand(board.deal.hand(crate::direction::rotate_direction(Direction::South, back)));
    let west = clone_hand(board.deal.hand(crate::direction::rotate_direction(Direction::West, back)));
    board.deal.north = north;
    board.deal.east = east;
    board.deal.south = south;
    board.deal.west = west;
}

/// Rotating a board by zero quarter-turns without standard-vulnerability
/// mode leaves the dealer, the vulnerability and every hand as they were.
pub proof fn lemma_rotate_board_zero_is_identity(b: Board)
    ensures
        rotated_dealer_spec(b.dealer, 0) == b.dealer,
        rotated_vulnerability_spec(b.vulnerable, b.number, 0, false) == b.vulnerable,
        forall|d: Direction| #[trigger] rotated_deal_hand_spec(b.deal, d, 0) == deal_hand_spec(
            b.deal,
            d,
        ),
{
    assert forall|d: Direction| #[trigger] rotated_deal_hand_spec(b.deal, d, 0) == deal_hand_spec(
        b.deal,
        d,
    ) by {
        assert(rotate_direction_spec(d, 4) == d);
    }
}

// ---------------------------------------------------------------------------
// Rotating raw tag values
// ---------------------------------------------------------------------------

/// A direction initial rotated in place, keeping its letter case; any
/// other character is left alone.
pub open spec fn rotate_direction_char_spec(c: char, r: int) -> char {
    match direction_from_char_spec(c) {
        Some(d) => {
            let rotated = rotate_direction_spec(d, r);
            if c == 'N' || c == 'E' || c == 'S' || c == 'W' {
                direction_char_spec(rotated)
            } else {
                direction_char_lower_spec(rotated)
            }
        },
        None => c,
    }
}

pub fn rotate_direction_char(c: char, rotation: u8) -> (r: char)
    ensures
        r == rotate_direction_char_spec(c, rotation as int),
{
    match crate::direction::direction_from_char(c) {
        Some(d) => {
            let rotated = crate::direction::rotate_direction(d, rotation);
            if c == 'N' || c == 'E' || c == 'S' || c == 'W' {
                crate::direction::direction_char(rotated)
            } else {
                crate::direction::direction_char_lower(rotated)
            }
        },
        None => c,
    }
}

/// A tag value that is a single direction initial is rotated; any other
/// value is returned unchanged.
pub open spec fn rotate_direction_value_spec(s: Seq<char>, r: int) -> Seq<char> {
    if s.len() == 1 {
        seq![rotate_direction_char_spec(s[0], r)]
    } else {
        s
    }
}

pub fn rotate_direction_value(value: &str, rotation: u8) -> (r: String)
    ensures
        r@ == rotate_direction_value_spec(value@, rotation as int),
{
    let chars = crate::text::str_to_chars(value);
    if chars.len() == 1 {
        let mut out: Vec<char> = Vec::new();
        out.push(rotate_direction_char(chars[0], rotation));
        proof {
            assert(out@ =~= rotate_direction_value_spec(value@, rotation as int));
        }
        crate::text::chars_to_string(&out)
    } else {
        crate::text::chars_to_string(&chars)
    }
}

/// A score value beginning with the side token `NS` or `EW` has the token
/// flipped by an odd rotation; an even rotation, or any other value,
/// leaves it unchanged.
pub open spec fn rotate_score_value_spec(s: Seq<char>, r: int) -> Seq<char> {
    if r % 2 == 0 {
        s
    } else if s.len() >= 2 && s[0] == 'N' && s[1] == 'S' {
        "EW"@ + s.skip(2)
    } else if s.len() >= 2 && s[0] == 'E' && s[1] == 'W' {
        "NS"@ + s.skip(2)
    } else {
        s
    }
}

pub fn rotate_score_value(value: &str, rotation: u8) -> (r: String)
    ensures
        r@ == rotate_score_value_spec(value@, rotation as int),
{
    let chars = crate::text::str_to_chars(value);
    if rotation % 2 == 0 {
        return crate::text::chars_to_string(&chars);
    }
    if chars.len() >= 2 && chars[0] == 'N' && chars[1] == 'S' {
        let mut out: Vec<char> = Vec::new();
        crate::text::push_str_chars(&mut out, "EW");
        push_tail(&mut out, &chars);
        proof {
            assert(out@ =~= rotate_score_value_spec(value@, rotation as int));
        }
        crate::text::chars_to_string(&out)
    } else if chars.len() >= 2 && chars[0] == 'E' && chars[1] == 'W' {
        let mut out: Vec<char> = Vec::new();
        crate::text::push_str_chars(&mut out, "NS");
        push_tail(&mut out, &chars);
        proof {
            assert(out@ =~= rotate_score_value_spec(value@, rotation as int));
        }
        crate::text::chars_to_string(&out)
    } else {
        crate::text::chars_to_string(&chars)
    }
}

/// Appends everything past the first two characters of `chars`.
fn push_tail(out: &mut Vec<char>, chars: &Vec<char>)
    requires
        chars@.len() >= 2,
    ensures
        final(out)@ == old(out)@ + chars@.skip(2),
{
    let mut i: usize = 2;
    while i < chars.len()
        invariant
            2 <= i <= chars@.len(),
            out@ == old(out)@ + chars@.subrange(2, i as int),
        decreases chars@.len() - i,
    {
        out.push(chars[i]);
        proof {
            assert(chars@.subrange(2, i + 1 as int) =~= chars@.subrange(2, i as int).push(
                chars@[i as int],
            ));
        }
        i += 1;
    }
    proof {
        assert(chars@.subrange(2, chars@.len() as int) =~= chars@.skip(2));
    }
}

// ---------------------------------------------------------------------------
// Rotation diagnostics
// ---------------------------------------------------------------------------

/// What was decided for one board under one pattern: the quarter-turn
/// count, the target direction, the resolved basis and its label, and
/// whether standard vulnerability was requested.
pub struct RotationInfo {
    pub rotation: u8,
    pub target: Direction,
    pub basis: Direction,
    pub basis_kind: String,
    pub use_standard_vul: bool,
}

/// The diagnostic RotationNote line recording a board's rotation.
pub open spec fn rotation_note_spec(
    rotation: u8,
    target: Direction,
    basis: Direction,
    basis_kind: Seq<char>,
    use_standard_vul: bool,
    board_num: u32,
) -> Seq<char> {
    "[RotationNote \"Board "@ + dec_spec(board_num as int) + ", chOption: "@ + seq![
        direction_char_spec(target),
    ] + ", chBasis: "@ + seq![direction_char_spec(basis)] + ", basisKind:"@ + basis_kind
        + ", nOption:"@ + dec_spec(direction_index_spec(target)) + ", nBasis: "@ + dec_spec(
        direction_index_spec(basis),
    ) + ", nRot: "@ + dec_spec(rotation as int) + ", useStandardVul: "@ + (if use_standard_vul {
        "true"@
    } else {
        "false"@
    }) + "\"]"@
}

impl RotationInfo {
    /// Renders the RotationNote diagnostic line for a board.
    pub fn to_rotation_note(&self, board_num: u32) -> (r: String)
        ensures
            r@ == rotation_note_spec(
                self.rotation,
                self.target,
                self.basis,
                self.basis_kind@,
                self.use_standard_vul,
                board_num,
            ),
    {
        let mut out: Vec<char> = Vec::new();
        crate::text::push_str_chars(&mut out, "[RotationNote \"Board ");
        crate::text::push_dec_u64(&mut out, board_num as u64);
        crate::text::push_str_chars(&mut out, ", chOption: ");
        out.push(crate::direction::direction_char(self.target));
        crate::text::push_str_chars(&mut out, ", chBasis: ");
        out.push(crate::direction::direction_char(self.basis));
        crate::text::push_str_chars(&mut out, ", basisKind:");
        crate::text::push_str_chars(&mut out, self.basis_kind.as_str());
        crate::text::push_str_chars(&mut out, ", nOption:");
        crate::text::push_dec_u64(&mut out, crate::direction::direction_index(self.target) as u64);
        crate::text::push_str_chars(&mut out, ", nBasis: ");
        crate::text::push_dec_u64(&mut out, crate::direction::direction_index(self.basis) as u64);
        crate::text::push_str_chars(&mut out, ", nRot: ");
        crate::text::push_dec_u64(&mut out, self.rotation as u64);
        crate::text::push_str_chars(&mut out, ", useStandardVul: ");
        if self.use_standard_vul {
            crate::text::push_str_chars(&mut out, "true");
        } else {
            crate::text::push_str_chars(&mut out, "false");
        }
        crate::text::push_str_chars(&mut out, "\"]");
        proof {
            assert(out@ =~= rotation_note_spec(
                self.rotation,
                self.target,
                self.basis,
                self.basis_kind@,
                self.use_standard_vul,
                board_num,
            ));
        }
        crate::text::chars_to_string(&out)
    }
}

} // verus!
