//! Encoding boards in the LIN notation: player names, the deal keyed by
//! the dealer digit, vulnerability, board header, auction calls with
//! their annotations, and the play sequence.
use vstd::prelude::*;
use crate::board::AnnotatedCall;
use crate::board::Auction;
use crate::board::Board;
use crate::board::Call;
use crate::board::Hand;
use crate::board::PlaySequence;
use crate::board::Strain;
use crate::board::Suit;
use crate::board::Trick;
use crate::direction::Direction;
use crate::direction::Vulnerability;
use crate::text::dec_spec;

verus! {

broadcast use vstd::array::group_array_axioms;

/// The abstract command surface of the LIN conversion run.
pub struct Args {
    /// Input record file path.
    pub input: String,
    /// Optional output path for the LIN file.
    pub output: Option<String>,
}

// ---------------------------------------------------------------------------
// Hands
// ---------------------------------------------------------------------------

/// The LIN text of one hand: each nonempty suit as its letter followed
/// by the rank letters, in the order spades, hearts, diamonds, clubs.
pub open spec fn encode_hand_spec(h: Hand) -> Seq<char> {
    (if h.spades@.len() > 0 {
        "S"@ + h.spades@
    } else {
        Seq::empty()
    }) + (if h.hearts@.len() > 0 {
        "H"@ + h.hearts@
    } else {
        Seq::empty()
    }) + (if h.diamonds@.len() > 0 {
        "D"@ + h.diamonds@
    } else {
        Seq::empty()
    }) + (if h.clubs@.len() > 0 {
        "C"@ + h.clubs@
    } else {
        Seq::empty()
    })
}

/// Encodes one hand in LIN notation.
pub fn encode_hand(h: &Hand) -> (r: String)
    ensures
        r@ == encode_hand_spec(*h),
{
    let mut out: Vec<char> = Vec::new();
    push_hand_lin(&mut out, h);
    crate::text::chars_to_string(&out)
}

#[verifier::rlimit(100)]
#[verifier::spinoff_prover]
fn push_hand_lin(out: &mut Vec<char>, h: &Hand)
    ensures
        final(out)@ == old(out)@ + encode_hand_spec(*h),
{
    if h.spades.as_str().unicode_len() > 0 {
        crate::text::push_str_chars(out, "S");
        crate::text::push_str_chars(out, h.spades.as_str());
    }
    if h.hearts.as_str().unicode_len() > 0 {
        crate::text::push_str_chars(out, "H");
        crate::text::push_str_chars(out, h.hearts.as_str());
    }
    if h.diamonds.as_str().unicode_len() > 0 {
        crate::text::push_str_chars(out, "D");
        crate::text::push_str_chars(out, h.diamonds.as_str());
    }
    if h.clubs.as_str().unicode_len() > 0 {
        crate::text::push_str_chars(out, "C");
        crate::text::push_str_chars(out, h.clubs.as_str());
    }
    proof {
        assert(final(out)@ =~= old(out)@ + encode_hand_spec(*h));
    }
}

// ---------------------------------------------------------------------------
// Calls and annotations
// ---------------------------------------------------------------------------

pub open spec fn strain_char_spec(s: Strain) -> char {
    match s {
        Strain::Clubs => 'C',
        Strain::Diamonds => 'D',
        Strain::Hearts => 'H',
        Strain::Spades => 'S',
        Strain::NoTrump => 'N',
    }
}

/// The LIN text of one call, without its alert marker.
pub open spec fn call_text_spec(c: Call) -> Seq<char> {
    match c {
        Call::Pass => "p"@,
        Call::Double => "d"@,
        Call::Redouble => "r"@,
        Call::Continue => Seq::empty(),
        Call::Bid { level, strain } => dec_spec(level as int) + seq![strain_char_spec(strain)],
    }
}

/// An annotation with every space turned into a plus sign.
pub open spec fn encode_note_spec(a: Seq<char>) -> Seq<char> {
    Seq::new(a.len(), |i: int| if a[i] == ' ' {
        '+'
    } else {
        a[i]
    })
}

/// What one annotated call contributes: its `mb` part with an alert
/// marker when annotated, then an `an` part holding the annotation;
/// continuation markers contribute nothing.
pub open spec fn encode_call_spec(ac: AnnotatedCall) -> Seq<char> {
    match ac.call {
        Call::Continue => Seq::empty(),
        _ => {
            let marker: Seq<char> = if ac.annotation is Some {
                "!"@
            } else {
                Seq::empty()
            };
            let note: Seq<char> = match ac.annotation {
                Some(a) => "an|"@ + encode_note_spec(a@) + "|"@,
                None => Seq::empty(),
            };
            "mb|"@ + call_text_spec(ac.call) + marker + "|"@ + note
        },
    }
}

pub open spec fn encode_auction_from(calls: Seq<AnnotatedCall>, i: nat) -> Seq<char>
    decreases calls.len() - i,
{
    if i >= calls.len() {
        Seq::empty()
    } else {
        encode_call_spec(calls[i as int]) + encode_auction_from(calls, i + 1)
    }
}

/// Appends the LIN parts of an auction.
pub fn push_auction_lin(out: &mut Vec<char>, auction: &Auction)
    ensures
        final(out)@ == old(out)@ + encode_auction_from(auction.calls@, 0),
{
    let n = auction.calls.len();
    let mut i: usize = 0;
    while i < n
        invariant
            n == auction.calls@.len(),
            i <= n,
            old(out)@ + encode_auction_from(auction.calls@, 0) == out@ + encode_auction_from(
                auction.calls@,
                i as nat,
            ),
        decreases n - i,
    {
        let ghost before = out@;
        let ac = &auction.calls[i];
        let skip = match ac.call {
            Call::Continue => true,
            _ => false,
        };
        if !skip {
            crate::text::push_str_chars(out, "mb|");
            match ac.call {
                Call::Pass => {
                    crate::text::push_str_chars(out, "p");
                },
                Call::Double => {
                    crate::text::push_str_chars(out, "d");
                },
                Call::Redouble => {
                    crate::text::push_str_chars(out, "r");
                },
                Call::Continue => {},
                Call::Bid { level, strain } => {
                    crate::text::push_dec_u64(out, level as u64);
                    let c = match strain {
                        Strain::Clubs => 'C',
                        Strain::Diamonds => 'D',
                        Strain::Hearts => 'H',
                        Strain::Spades => 'S',
                        Strain::NoTrump => 'N',
                    };
                    out.push(c);
                },
            }
            let has_note = match &ac.annotation {
                Some(_) => true,
                None => false,
            };
            if has_note {
                crate::text::push_str_chars(out, "!");
            }
            crate::text::push_str_chars(out, "|");
            match &ac.annotation {
                Some(a) => {
                    crate::text::push_str_chars(out, "an|");
                    push_note(out, a);
                    crate::text::push_str_chars(out, "|");
                },
                None => {},
            }
        }
        proof {
            assert(out@ =~= before + encode_call_spec(auction.calls@[i as int]));
        }
        i += 1;
    }
}

/// Appends an annotation with spaces turned into plus signs.
fn push_note(out: &mut Vec<char>, a: &String)
    ensures
        final(out)@ == old(out)@ + encode_note_spec(a@),
{
    let chars = crate::text::str_to_chars(a.as_str());
    let n = chars.len();
    let mut i: usize = 0;
    while i < n
        invariant
            chars@ == a@,
            i <= n,
            n == a@.len(),
            out@.len() == old(out)@.len() + i,
            out@ == old(out)@ + encode_note_spec(a@).subrange(0, i as int),
        decreases n - i,
    {
        let c = chars[i];
        if c == ' ' {
            out.push('+');
        } else {
            out.push(c);
        }
        proof {
            assert(encode_note_spec(a@).subrange(0, i + 1 as int) =~= encode_note_spec(
                a@,
            ).subrange(0, i as int).push(encode_note_spec(a@)[i as int]));
        }
        i += 1;
    }
    proof {
        assert(encode_note_spec(a@).subrange(0, n as int) =~= encode_note_spec(a@));
    }
}

// ---------------------------------------------------------------------------
// Play
// ---------------------------------------------------------------------------

pub open spec fn suit_char_spec(s: Suit) -> char {
    match s {
        Suit::Spades => 'S',
        Suit::Hearts => 'H',
        Suit::Diamonds => 'D',
        Suit::Clubs => 'C',
    }
}

/// What the card slots of one trick from slot `j` on contribute: a `pc`
/// part per played card, empty slots passed over.
pub open spec fn encode_trick_from(t: Trick, j: nat) -> Seq<char>
    decreases 4 - j,
{
    if j >= 4 {
        Seq::empty()
    } else {
        (match t.cards@[j as int] {
            Some(card) => "pc|"@ + seq![suit_char_spec(card.suit)] + seq![card.rank] + "|"@,
            None => Seq::empty(),
        }) + encode_trick_from(t, j + 1)
    }
}

pub open spec fn encode_play_from(tricks: Seq<Trick>, i: nat) -> Seq<char>
    decreases tricks.len() - i,
{
    if i >= tricks.len() {
        Seq::empty()
    } else {
        encode_trick_from(tricks[i as int], 0) + encode_play_from(tricks, i + 1)
    }
}

/// Appends the LIN parts of a play sequence.
pub fn push_play_lin(out: &mut Vec<char>, play: &PlaySequence)
    ensures
        final(out)@ == old(out)@ + encode_play_from(play.tricks@, 0),
{
    let n = play.tricks.len();
    let mut i: usize = 0;
    while i < n
        invariant
            n == play.tricks@.len(),
            i <= n,
            old(out)@ + encode_play_from(play.tricks@, 0) == out@ + encode_play_from(
                play.tricks@,
                i as nat,
            ),
        decreases n - i,
    {
        let ghost before = out@;
        let t = play.tricks[i];
        let mut j: usize = 0;
        while j < 4
            invariant
                j <= 4,
                before + encode_trick_from(t, 0) == out@ + encode_trick_from(t, j as nat),
            decreases 4 - j,
        {
            match &t.cards[j] {
                Some(card) => {
                    crate::text::push_str_chars(out, "pc|");
                    let sc = match card.suit {
                        Suit::Spades => 'S',
                        Suit::Hearts => 'H',
                        Suit::Diamonds => 'D',
                        Suit::Clubs => 'C',
                    };
                    out.push(sc);
                    out.push(card.rank);
                    crate::text::push_str_chars(out, "|");
                },
                None => {},
            }
            j += 1;
        }
        proof {
            assert(encode_trick_from(t, 4) == Seq::<char>::empty());
            assert(out@ =~= before + encode_trick_from(t, 0));
        }
        i += 1;
    }
}

// ---------------------------------------------------------------------------
// The whole board
// ---------------------------------------------------------------------------

/// The LIN digit keying the deal to its dealer.
pub open spec fn dealer_digit_spec(d: Direction) -> char {
    match d {
        Direction::South => '1',
        Direction::West => '2',
        Direction::North => '3',
        Direction::East => '4',
    }
}

/// The LIN vulnerability letter.
pub open spec fn lin_vul_spec(v: Vulnerability) -> Seq<char> {
    match v {
        Vulnerability::Neither => "o"@,
        Vulnerability::NorthSouth => "n"@,
        Vulnerability::EastWest => "e"@,
        Vulnerability::Both => "b"@,
    }
}

/// Encodes a vulnerability as its LIN letter.
pub fn encode_vulnerability(v: Vulnerability) -> (r: &'static str)
    ensures
        r@ == lin_vul_spec(v),
{
    match v {
        Vulnerability::Neither => "o",
        Vulnerability::NorthSouth => "n",
        Vulnerability::EastWest => "e",
        Vulnerability::Both => "b",
    }
}

pub open spec fn player_name_spec(p: Option<String>) -> Seq<char> {
    match p {
        Some(s) => s@,
        None => Seq::empty(),
    }
}

/// The whole LIN line of one board: player names south, west, north,
/// east; the deal keyed by the dealer digit with the south, west and
/// north hands (east is implied); the vulnerability; the board header
/// when numbered; then the auction and play.
pub open spec fn encode_board_spec(b: Board) -> Seq<char> {
    let dealer = match b.dealer {
        Some(d) => d,
        None => Direction::North,
    };
    "pn|"@ + player_name_spec(b.players.south) + ","@ + player_name_spec(b.players.west) + ","@
        + player_name_spec(b.players.north) + ","@ + player_name_spec(b.players.east) + "|"@
        + "md|"@ + seq![dealer_digit_spec(dealer)] + encode_hand_spec(b.deal.south) + ","@
        + encode_hand_spec(b.deal.west) + ","@ + encode_hand_spec(b.deal.north) + "|"@ + "sv|"@
        + lin_vul_spec(b.vulnerable) + "|"@ + (match b.number {
        Some(n) => "ah|Board "@ + dec_spec(n as int) + "|"@,
        None => Seq::empty(),
    }) + (match b.auction {
        Some(a) => encode_auction_from(a.calls@, 0),
        None => Seq::empty(),
    }) + (match b.play {
        Some(p) => encode_play_from(p.tricks@, 0),
        None => Seq::empty(),
    })
}

fn push_player(out: &mut Vec<char>, p: &Option<String>)
    ensures
        final(out)@ == old(out)@ + player_name_spec(*p),
{
    match p {
        Some(s) => {
            crate::text::push_str_chars(out, s.as_str());
        },
        None => {
            proof {
                assert(final(out)@ =~= old(out)@ + player_name_spec(*p));
            }
        },
    }
}

/// Encodes one board as a LIN line.
#[verifier::rlimit(100)]
pub fn encode_board_to_lin(b: &Board) -> (r: String)
    ensures
        r@ == encode_board_spec(*b),
{
    let mut out: Vec<char> = Vec::new();
    crate::text::push_str_chars(&mut out, "pn|");
    push_player(&mut out, &b.players.south);
    crate::text::push_str_chars(&mut out, ",");
    push_player(&mut out, &b.players.west);
    crate::text::push_str_chars(&mut out, ",");
    push_player(&mut out, &b.players.north);
    crate::text::push_str_chars(&mut out, ",");
    push_player(&mut out, &b.players.east);
    crate::text::push_str_chars(&mut out, "|");
    crate::text::push_str_chars(&mut out, "md|");
    let dealer = match b.dealer {
        Some(d) => d,
        None => Direction::North,
    };
    let digit = match dealer {
        Direction::South => '1',
        Direction::West => '2',
        Direction::North => '3',
        Direction::East => '4',
    };
    out.push(digit);
    push_hand_lin(&mut out, &b.deal.south);
    crate::text::push_str_chars(&mut out, ",");
    push_hand_lin(&mut out, &b.deal.west);
    crate::text::push_str_chars(&mut out, ",");
    push_hand_lin(&mut out, &b.deal.north);
    crate::text::push_str_chars(&mut out, "|");
    crate::text::push_str_chars(&mut out, "sv|");
    crate::text::push_str_chars(&mut out, encode_vulnerability(b.vulnerable));
    crate::text::push_str_chars(&mut out, "|");
    match b.number {
        Some(n) => {
            crate::text::push_str_chars(&mut out, "ah|Board ");
            crate::text::push_dec_u64(&mut out, n as u64);
            crate::text::push_str_chars(&mut out, "|");
        },
        None => {},
    }
    match &b.auction {
        Some(a) => {
            push_auction_lin(&mut out, a);
        },
        None => {},
    }
    match &b.play {
        Some(p) => {
            push_play_lin(&mut out, p);
        },
        None => {},
    }
    proof {
        assert(out@ =~= encode_board_spec(*b));
    }
    crate::text::chars_to_string(&out)
}

} // verus!
