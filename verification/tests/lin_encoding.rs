use bridge_wrangler::board::{
    AnnotatedCall, Auction, Board, Call, Card, Deal, Hand, Players, PlaySequence, Strain, Suit,
    Trick,
};
use bridge_wrangler::direction::{Direction, Vulnerability};
use bridge_wrangler::lin::{encode_board_to_lin, encode_hand, encode_vulnerability};

fn hand(s: &str, h: &str, d: &str, c: &str) -> Hand {
    Hand {
        spades: s.to_string(),
        hearts: h.to_string(),
        diamonds: d.to_string(),
        clubs: c.to_string(),
    }
}

#[test]
fn test_encode_hand() {
    let h = hand("AKQ", "JT9", "876", "5432");
    let encoded = encode_hand(&h);
    assert_eq!(encoded, "SAKQHJT9D876C5432");
}

#[test]
fn test_encode_hand_with_voids() {
    let h = hand("AKQJT98", "", "AKQ", "AKQ");
    let encoded = encode_hand(&h);
    assert_eq!(encoded, "SAKQJT98DAKQCAKQ");
}

#[test]
fn test_vulnerability_encoding() {
    assert_eq!(encode_vulnerability(Vulnerability::Neither), "o");
    assert_eq!(encode_vulnerability(Vulnerability::NorthSouth), "n");
    assert_eq!(encode_vulnerability(Vulnerability::EastWest), "e");
    assert_eq!(encode_vulnerability(Vulnerability::Both), "b");
}

#[test]
fn encode_board_includes_every_part() {
    let board = Board {
        number: Some(4),
        dealer: Some(Direction::West),
        vulnerable: Vulnerability::Both,
        deal: Deal {
            north: hand("AKQ", "JT9", "876", "5432"),
            east: hand("", "", "", ""),
            south: hand("2", "3", "4", "5"),
            west: hand("9", "8", "7", "6"),
        },
        auction: Some(Auction {
            calls: vec![
                AnnotatedCall {
                    call: Call::Bid { level: 1, strain: Strain::NoTrump },
                    annotation: Some("new suit".to_string()),
                },
                AnnotatedCall { call: Call::Pass, annotation: None },
                AnnotatedCall { call: Call::Continue, annotation: None },
                AnnotatedCall { call: Call::Double, annotation: None },
                AnnotatedCall { call: Call::Redouble, annotation: None },
            ],
        }),
        play: Some(PlaySequence {
            tricks: vec![Trick {
                cards: [
                    Some(Card { suit: Suit::Hearts, rank: 'A' }),
                    Some(Card { suit: Suit::Clubs, rank: 'T' }),
                    None,
                    None,
                ],
            }],
        }),
        players: Players {
            north: Some("nn".to_string()),
            east: None,
            south: Some("ss".to_string()),
            west: Some("ww".to_string()),
        },
    };
    let lin = encode_board_to_lin(&board);
    assert_eq!(
        lin,
        "pn|ss,ww,nn,|md|2S2H3D4C5,S9H8D7C6,SAKQHJT9D876C5432|sv|b|ah|Board 4|mb|1N!|an|new+suit|mb|p|mb|d|mb|r|pc|HA|pc|CT|"
    );
}
