//! The structured model of a deal record: hands, deals, auctions, play
//! sequences and boards.  Hands hold each suit as the string of its rank
//! letters in the compact PBN notation.
use vstd::prelude::*;
use crate::direction::Direction;
use crate::direction::Vulnerability;
use crate::direction::direction_char_spec;
use crate::direction::direction_char;

verus! {

pub struct Hand {
    pub spades: String,
    pub hearts: String,
    pub diamonds: String,
    pub clubs: String,
}

pub struct Deal {
    pub north: Hand,
    pub east: Hand,
    pub south: Hand,
    pub west: Hand,
}

pub struct Players {
    pub north: Option<String>,
    pub east: Option<String>,
    pub south: Option<String>,
    pub west: Option<String>,
}

#[derive(Clone, Copy, PartialEq, Eq, Structural, Debug)]
pub enum Strain {
    Clubs,
    Diamonds,
    Hearts,
    Spades,
    NoTrump,
}

#[derive(Clone, Copy, PartialEq, Eq, Structural, Debug)]
pub enum Call {
    Pass,
    Double,
    Redouble,
    Continue,
    Bid { level: u8, strain: Strain },
}

pub struct AnnotatedCall {
    pub call: Call,
    pub annotation: Option<String>,
}

pub struct Auction {
    pub calls: Vec<AnnotatedCall>,
}

#[derive(Clone, Copy, PartialEq, Eq, Structural, Debug)]
pub enum Suit {
    Spades,
    Hearts,
    Diamonds,
    Clubs,
}

#[derive(Clone, Copy, PartialEq, Eq, Structural, Debug)]
pub struct Card {
    pub suit: Suit,
    pub rank: char,
}

#[derive(Clone, Copy, Debug)]
pub struct Trick {
    pub cards: [Option<Card>; 4],
}

pub struct PlaySequence {
    pub tricks: Vec<Trick>,
}

/// One dealt board: number and seat-dependent fields, plus the auction,
/// play and player names carried along for encoding.
pub struct Board {
    pub number: Option<u32>,
    pub dealer: Option<Direction>,
    pub vulnerable: Vulnerability,
    pub deal: Deal,
    pub auction: Option<Auction>,
    pub play: Option<PlaySequence>,
    pub players: Players,
}

// ---------------------------------------------------------------------------
// Views and equality of the text-bearing types
// ---------------------------------------------------------------------------

pub open spec fn hand_like(a: Hand, b: Hand) -> bool {
    a.spades@ == b.spades@ && a.hearts@ == b.hearts@ && a.diamonds@ == b.diamonds@ && a.clubs@
        == b.clubs@
}

pub open spec fn deal_like(a: Deal, b: Deal) -> bool {
    hand_like(a.north, b.north) && hand_like(a.east, b.east) && hand_like(a.south, b.south)
        && hand_like(a.west, b.west)
}

// ---------------------------------------------------------------------------
// Accessors and construction
// ---------------------------------------------------------------------------

/// The hand a deal places at the given direction.
pub open spec fn deal_hand_spec(deal: Deal, d: Direction) -> Hand {
    match d {
        Direction::North => deal.north,
        Direction::East => deal.east,
        Direction::South => deal.south,
        Direction::West => deal.west,
    }
}

impl Deal {
    pub fn hand(&self, d: Direction) -> (r: &Hand)
        ensures
            *r == deal_hand_spec(*self, d),
    {
        match d {
            Direction::North => &self.north,
            Direction::East => &self.east,
            Direction::South => &self.south,
            Direction::West => &self.west,
        }
    }
}

pub fn clone_hand(h: &Hand) -> (r: Hand)
    ensures
        hand_like(r, *h),
{
    Hand {
        spades: h.spades.clone(),
        hearts: h.hearts.clone(),
        diamonds: h.diamonds.clone(),
        clubs: h.clubs.clone(),
    }
}

pub fn clone_deal(d: &Deal) -> (r: Deal)
    ensures
        deal_like(r, *d),
{
    Deal {
        north: clone_hand(&d.north),
        east: clone_hand(&d.east),
        south: clone_hand(&d.south),
        west: clone_hand(&d.west),
    }
}

fn clone_opt_string(s: &Option<String>) -> (r: Option<String>)
    ensures
        r == *s,
{
    match s {
        Some(v) => Some(v.clone()),
        None => None,
    }
}

fn clone_players(p: &Players) -> (r: Players)
    ensures
        r.north == p.north,
        r.east == p.east,
        r.south == p.south,
        r.west == p.west,
{
    Players {
        north: clone_opt_string(&p.north),
        east: clone_opt_string(&p.east),
        south: clone_opt_string(&p.south),
        west: clone_opt_string(&p.west),
    }
}

pub open spec fn annotated_call_like(a: AnnotatedCall, b: AnnotatedCall) -> bool {
    a.call == b.call && match (a.annotation, b.annotation) {
        (Some(x), Some(y)) => x@ == y@,
        (None, None) => true,
        _ => false,
    }
}

pub open spec fn auction_like(a: Auction, b: Auction) -> bool {
    a.calls@.len() == b.calls@.len() && forall|i: int|
        0 <= i < a.calls@.len() ==> annotated_call_like(a.calls@[i], b.calls@[i])
}

fn clone_auction(a: &Auction) -> (r: Auction)
    ensures
        auction_like(r, *a),
{
    let mut calls: Vec<AnnotatedCall> = Vec::new();
    let mut i: usize = 0;
    while i < a.calls.len()
        invariant
            i <= a.calls@.len(),
            calls@.len() == i,
            forall|j: int| 0 <= j < i ==> annotated_call_like(calls@[j], a.calls@[j]),
        decreases a.calls@.len() - i,
    {
        let c = &a.calls[i];
        calls.push(AnnotatedCall { call: c.call, annotation: clone_opt_string(&c.annotation) });
        i += 1;
    }
    Auction { calls }
}

pub open spec fn play_like(a: PlaySequence, b: PlaySequence) -> bool {
    a.tricks@ == b.tricks@
}

fn clone_play(p: &PlaySequence) -> (r: PlaySequence)
    ensures
        play_like(r, *p),
{
    let mut tricks: Vec<Trick> = Vec::new();
    let mut i: usize = 0;
    while i < p.tricks.len()
        invariant
            i <= p.tricks@.len(),
            tricks@ == p.tricks@.subrange(0, i as int),
        decreases p.tricks@.len() - i,
    {
        tricks.push(p.tricks[i]);
        proof {
            assert(p.tricks@.subrange(0, i + 1 as int) =~= p.tricks@.subrange(0, i as int).push(
                p.tricks@[i as int],
            ));
        }
        i += 1;
    }
    proof {
        assert(p.tricks@.subrange(0, p.tricks@.len() as int) =~= p.tricks@);
    }
    PlaySequence { tricks }
}

/// Sameness of two boards up to the views of their text fields.
pub open spec fn board_like(a: Board, b: Board) -> bool {
    a.number == b.number && a.dealer == b.dealer && a.vulnerable == b.vulnerable && deal_like(
        a.deal,
        b.deal,
    ) && match (a.auction, b.auction) {
        (Some(x), Some(y)) => auction_like(x, y),
        (None, None) => true,
        _ => false,
    } && match (a.play, b.play) {
        (Some(x), Some(y)) => play_like(x, y),
        (None, None) => true,
        _ => false,
    } && a.players.north == b.players.north && a.players.east == b.players.east && a.players.south
        == b.players.south && a.players.west == b.players.west
}

pub fn clone_board(b: &Board) -> (r: Board)
    ensures
        board_like(r, *b),
{
    Board {
        number: b.number,
        dealer: b.dealer,
        vulnerable: b.vulnerable,
        deal: clone_deal(&b.deal),
        auction: match &b.auction {
            Some(a) => Some(clone_auction(a)),
            None => None,
        },
        play: match &b.play {
            Some(p) => Some(clone_play(p)),
            None => None,
        },
        players: clone_players(&b.players),
    }
}

// ---------------------------------------------------------------------------
// Validity and rendering
// ---------------------------------------------------------------------------

/// One hand holds at least one card.
pub open spec fn hand_has_cards_spec(h: Hand) -> bool {
    h.spades@.len() > 0 || h.hearts@.len() > 0 || h.diamonds@.len() > 0 || h.clubs@.len() > 0
}

fn hand_has_cards(h: &Hand) -> (r: bool)
    ensures
        r == hand_has_cards_spec(*h),
{
    h.spades.as_str().unicode_len() > 0 || h.hearts.as_str().unicode_len() > 0
        || h.diamonds.as_str().unicode_len() > 0 || h.clubs.as_str().unicode_len() > 0
}

/// A board is processed only when its deal holds cards; a board with no
/// cards in any of its four hands is invalid and is excluded entirely.
pub open spec fn board_has_valid_deal_spec(b: Board) -> bool {
    hand_has_cards_spec(b.deal.north) || hand_has_cards_spec(b.deal.east) || hand_has_cards_spec(
        b.deal.south,
    ) || hand_has_cards_spec(b.deal.west)
}

pub fn board_has_valid_deal(b: &Board) -> (r: bool)
    ensures
        r == board_has_valid_deal_spec(*b),
{
    hand_has_cards(&b.deal.north) || hand_has_cards(&b.deal.east) || hand_has_cards(&b.deal.south)
        || hand_has_cards(&b.deal.west)
}

/// The compact suit-delimited notation of one hand.
pub open spec fn hand_pbn_spec(h: Hand) -> Seq<char> {
    h.spades@ + "."@ + h.hearts@ + "."@ + h.diamonds@ + "."@ + h.clubs@
}

pub fn push_hand_pbn(out: &mut Vec<char>, h: &Hand)
    ensures
        final(out)@ == old(out)@ + hand_pbn_spec(*h),
{
    crate::text::push_str_chars(out, h.spades.as_str());
    crate::text::push_str_chars(out, ".");
    crate::text::push_str_chars(out, h.hearts.as_str());
    crate::text::push_str_chars(out, ".");
    crate::text::push_str_chars(out, h.diamonds.as_str());
    crate::text::push_str_chars(out, ".");
    crate::text::push_str_chars(out, h.clubs.as_str());
}

/// The PBN notation of a deal listed clockwise from `first`:
/// the initial of `first`, a colon, and the four hands separated by
/// spaces.
pub open spec fn deal_pbn_spec(deal: Deal, first: Direction) -> Seq<char> {
    seq![direction_char_spec(first)] + ":"@ + hand_pbn_spec(deal_hand_spec(deal, first)) + " "@
        + hand_pbn_spec(deal_hand_spec(deal, crate::direction::rotate_direction_spec(first, 1)))
        + " "@ + hand_pbn_spec(
        deal_hand_spec(deal, crate::direction::rotate_direction_spec(first, 2)),
    ) + " "@ + hand_pbn_spec(
        deal_hand_spec(deal, crate::direction::rotate_direction_spec(first, 3)),
    )
}

pub fn push_deal_pbn(out: &mut Vec<char>, deal: &Deal, first: Direction)
    ensures
        final(out)@ == old(out)@ + deal_pbn_spec(*deal, first),
{
    out.push(direction_char(first));
    crate::text::push_str_chars(out, ":");
    push_hand_pbn(out, deal.hand(first));
    crate::text::push_str_chars(out, " ");
    push_hand_pbn(out, deal.hand(crate::direction::rotate_direction(first, 1)));
    crate::text::push_str_chars(out, " ");
    push_hand_pbn(out, deal.hand(crate::direction::rotate_direction(first, 2)));
    crate::text::push_str_chars(out, " ");
    push_hand_pbn(out, deal.hand(crate::direction::rotate_direction(first, 3)));
    proof {
        assert(final(out)@ =~= old(out)@ + deal_pbn_spec(*deal, first));
    }
}

} // verus!
