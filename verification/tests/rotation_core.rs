use bridge_wrangler::board::{Board, Deal, Hand, Players};
use bridge_wrangler::commentary::rotate_commentary;
use bridge_wrangler::direction::{
    rotation_amount, rotate_direction, standard_dealer, standard_vul, standard_vul_for_board,
    Direction, Vulnerability,
};
use bridge_wrangler::driver::{parse_pattern, rotate_boards_for_pattern, rotate_deals, RotateError};
use bridge_wrangler::pbn::parse_extra_tags;
use bridge_wrangler::rotation::{
    find_basis, rotate_board, rotate_direction_value, rotate_score_value, RotationBasis,
    RotationInfo,
};

fn hand(s: &str, h: &str, d: &str, c: &str) -> Hand {
    Hand {
        spades: s.to_string(),
        hearts: h.to_string(),
        diamonds: d.to_string(),
        clubs: c.to_string(),
    }
}

fn sample_board(number: u32, dealer: Direction, vulnerable: Vulnerability) -> Board {
    Board {
        number: Some(number),
        dealer: Some(dealer),
        vulnerable,
        deal: Deal {
            north: hand("AKQJ", "T98", "765", "432"),
            east: hand("T98", "765", "432", "AKQJ"),
            south: hand("765", "432", "AKQJ", "T98"),
            west: hand("432", "AKQJ", "T98", "765"),
        },
        auction: None,
        play: None,
        players: Players { north: None, east: None, south: None, west: None },
    }
}

fn empty_board(number: u32) -> Board {
    Board {
        number: Some(number),
        dealer: Some(Direction::North),
        vulnerable: Vulnerability::Neither,
        deal: Deal {
            north: hand("", "", "", ""),
            east: hand("", "", "", ""),
            south: hand("", "", "", ""),
            west: hand("", "", "", ""),
        },
        auction: None,
        play: None,
        players: Players { north: None, east: None, south: None, west: None },
    }
}

#[test]
fn test_parse_pattern() {
    let p = parse_pattern("NESW").unwrap();
    assert_eq!(p.len(), 4);
    assert_eq!(p[0], Direction::North);
    assert_eq!(p[1], Direction::East);
    assert_eq!(p[2], Direction::South);
    assert_eq!(p[3], Direction::West);

    let p = parse_pattern("ns").unwrap();
    assert_eq!(p.len(), 2);
    assert_eq!(p[0], Direction::North);
    assert_eq!(p[1], Direction::South);
}

#[test]
fn test_rotation_amount() {
    assert_eq!(rotation_amount(Direction::North, Direction::North), 0);
    assert_eq!(rotation_amount(Direction::North, Direction::East), 1);
    assert_eq!(rotation_amount(Direction::North, Direction::South), 2);
    assert_eq!(rotation_amount(Direction::North, Direction::West), 3);

    assert_eq!(rotation_amount(Direction::East, Direction::North), 3);
    assert_eq!(rotation_amount(Direction::South, Direction::North), 2);
}

#[test]
fn test_rotate_direction() {
    assert_eq!(rotate_direction(Direction::North, 0), Direction::North);
    assert_eq!(rotate_direction(Direction::North, 1), Direction::East);
    assert_eq!(rotate_direction(Direction::North, 2), Direction::South);
    assert_eq!(rotate_direction(Direction::North, 3), Direction::West);
    assert_eq!(rotate_direction(Direction::East, 1), Direction::South);
}

#[test]
fn test_rotate_score_value() {
    assert_eq!(rotate_score_value("NS 420", 0), "NS 420");
    assert_eq!(rotate_score_value("NS 420", 1), "EW 420");
    assert_eq!(rotate_score_value("NS 420", 2), "NS 420");
    assert_eq!(rotate_score_value("EW -100", 1), "NS -100");
}

#[test]
fn test_rotate_commentary() {
    assert_eq!(rotate_commentary("North leads", 2), "South leads");
    assert_eq!(rotate_commentary("East and West", 1), "South and North");
}

#[test]
fn test_standard_vul_pattern() {
    // Board 1: None, Board 2: NS, Board 5: NS, Board 8: None
    assert_eq!(standard_vul(0), Vulnerability::Neither);
    assert_eq!(standard_vul(1), Vulnerability::NorthSouth);
    assert_eq!(standard_vul(4), Vulnerability::NorthSouth);
    assert_eq!(standard_vul(7), Vulnerability::Neither);
}

#[test]
fn test_standard_dealer_pattern() {
    assert_eq!(standard_dealer(0), Direction::North);
    assert_eq!(standard_dealer(1), Direction::East);
    assert_eq!(standard_dealer(2), Direction::South);
    assert_eq!(standard_dealer(3), Direction::West);
}

#[test]
fn rotation_amounts_cancel_on_samples() {
    let dirs = [Direction::North, Direction::East, Direction::South, Direction::West];
    for &a in dirs.iter() {
        assert_eq!(rotation_amount(a, a), 0);
        for &b in dirs.iter() {
            assert_eq!((rotation_amount(a, b) + rotation_amount(b, a)) % 4, 0);
        }
    }
}

#[test]
fn rotate_direction_composes_on_samples() {
    for r1 in 0u8..4 {
        for r2 in 0u8..4 {
            let once = rotate_direction(rotate_direction(Direction::East, r1), r2);
            let combined = rotate_direction(Direction::East, (r1 + r2) % 4);
            assert_eq!(once, combined);
        }
    }
}

#[test]
fn rotate_board_by_zero_is_identity() {
    let mut b = sample_board(1, Direction::West, Vulnerability::EastWest);
    rotate_board(&mut b, 0, false);
    assert_eq!(b.dealer, Some(Direction::West));
    assert_eq!(b.vulnerable, Vulnerability::EastWest);
    assert_eq!(b.deal.north.spades, "AKQJ");
    assert_eq!(b.deal.east.clubs, "AKQJ");
    assert_eq!(b.deal.south.diamonds, "AKQJ");
    assert_eq!(b.deal.west.hearts, "AKQJ");
}

#[test]
fn rotate_board_by_two_swaps_opposite_hands() {
    let mut b = sample_board(1, Direction::North, Vulnerability::NorthSouth);
    rotate_board(&mut b, 2, false);
    assert_eq!(b.dealer, Some(Direction::South));
    // even rotation keeps the vulnerability
    assert_eq!(b.vulnerable, Vulnerability::NorthSouth);
    // each seat now holds what was previously opposite
    assert_eq!(b.deal.north.spades, "765");
    assert_eq!(b.deal.south.spades, "AKQJ");
    assert_eq!(b.deal.east.spades, "432");
    assert_eq!(b.deal.west.spades, "T98");
}

#[test]
fn rotate_board_odd_rotation_swaps_vulnerability() {
    let mut b = sample_board(1, Direction::North, Vulnerability::NorthSouth);
    rotate_board(&mut b, 1, false);
    assert_eq!(b.vulnerable, Vulnerability::EastWest);
    let mut b2 = sample_board(1, Direction::North, Vulnerability::Both);
    rotate_board(&mut b2, 3, false);
    assert_eq!(b2.vulnerable, Vulnerability::Both);
}

#[test]
fn standard_vulnerability_cycles_every_sixteen_boards() {
    assert_eq!(standard_vul_for_board(1), Vulnerability::Neither);
    assert_eq!(standard_vul_for_board(2), Vulnerability::NorthSouth);
    assert_eq!(standard_vul_for_board(16), Vulnerability::EastWest);
    assert_eq!(standard_vul_for_board(17), Vulnerability::Neither);
}

#[test]
fn rotate_direction_value_keeps_case_and_long_values() {
    assert_eq!(rotate_direction_value("N", 1), "E");
    assert_eq!(rotate_direction_value("w", 1), "n");
    assert_eq!(rotate_direction_value("NS", 1), "NS");
    assert_eq!(rotate_direction_value("", 1), "");
}

#[test]
fn commentary_preserves_case_classes_and_boundaries() {
    assert_eq!(rotate_commentary("NORTH wins", 1), "EAST wins");
    assert_eq!(rotate_commentary("north wins", 1), "east wins");
    assert_eq!(rotate_commentary("NorthEast is one word", 1), "NorthEast is one word");
    assert_eq!(rotate_commentary("West!", 1), "North!");
    assert_eq!(rotate_commentary("no direction here", 3), "no direction here");
}

#[test]
fn pattern_cycling_assigns_targets_in_order() {
    let boards: Vec<Board> = (1..=5).map(|n| sample_board(n, Direction::North, Vulnerability::Neither)).collect();
    let pattern = parse_pattern("NS").unwrap();
    let entries = Vec::new();
    let (_rotated, infos) = rotate_boards_for_pattern(
        &boards,
        &pattern,
        &entries,
        RotationBasis::Standard,
        false,
    );
    let targets: Vec<Direction> = infos.iter().map(|p| p.1.target).collect();
    assert_eq!(
        targets,
        vec![
            Direction::North,
            Direction::South,
            Direction::North,
            Direction::South,
            Direction::North,
        ]
    );
}

#[test]
fn find_basis_prefers_tags_over_dealer() {
    let content = "[Board \"1\"]\n[Student \"E\"]\n";
    let entries = parse_extra_tags(content);
    let b = sample_board(1, Direction::North, Vulnerability::Neither);
    let (dir, kind) = find_basis(&b, &entries, 1, RotationBasis::Standard);
    assert_eq!(dir, Direction::East);
    assert_eq!(kind, "Student");
    let (dir2, kind2) = find_basis(&b, &entries, 1, RotationBasis::Dealer);
    assert_eq!(dir2, Direction::North);
    assert_eq!(kind2, "Dealer");
    let (dir3, kind3) = find_basis(&b, &entries, 2, RotationBasis::Standard);
    assert_eq!(dir3, Direction::North);
    assert_eq!(kind3, "Dealer");
}

#[test]
fn rotation_note_records_the_decision() {
    let info = RotationInfo {
        rotation: 2,
        target: Direction::South,
        basis: Direction::North,
        basis_kind: "Dealer".to_string(),
        use_standard_vul: false,
    };
    assert_eq!(
        info.to_rotation_note(7),
        "[RotationNote \"Board 7, chOption: S, chBasis: N, basisKind:Dealer, nOption:2, nBasis: 0, nRot: 2, useStandardVul: false\"]"
    );
}

#[test]
fn end_to_end_two_boards_pattern_ns() {
    let deal = "N:AKQJ.T98.765.432 T98.765.432.AKQJ 765.432.AKQJ.T98 432.AKQJ.T98.765";
    let content = format!(
        "[Event \"Test Event\"]\n[Board \"1\"]\n[Dealer \"N\"]\n[Vulnerable \"None\"]\n[Deal \"{d}\"]\n\n[Event \"Test Event\"]\n[Board \"2\"]\n[Dealer \"N\"]\n[Vulnerable \"NS\"]\n[Deal \"{d}\"]\n",
        d = deal
    );
    let boards = vec![
        sample_board(1, Direction::North, Vulnerability::Neither),
        sample_board(2, Direction::North, Vulnerability::NorthSouth),
    ];
    let outputs = rotate_deals(&content, &boards, "NS", RotationBasis::Standard, false, false)
        .unwrap();
    assert_eq!(outputs.len(), 1);
    assert_eq!(outputs[0].0, "NS");
    let expected = format!(
        "[Event \"Test Event\"]\n[Site \"\"]\n[Date \"\"]\n[Board \"1\"]\n[Dealer \"N\"]\n[Vulnerable \"None\"]\n[Deal \"{d}\"]\n\n[Event \"\"]\n[Site \"\"]\n[Date \"\"]\n[Board \"2\"]\n[Dealer \"S\"]\n[Vulnerable \"NS\"]\n[Deal \"S:{tail}\"]\n",
        d = deal,
        tail = "AKQJ.T98.765.432 T98.765.432.AKQJ 765.432.AKQJ.T98 432.AKQJ.T98.765"
    );
    assert_eq!(outputs[0].1, expected);
}

#[test]
fn board_with_any_card_is_valid() {
    // a board whose North hand is empty still counts when another hand
    // holds cards; only all-four-empty boards are dropped
    let mut b = sample_board(1, Direction::North, Vulnerability::Neither);
    b.deal.north = hand("", "", "", "");
    let boards = vec![b];
    let pattern = parse_pattern("N").unwrap();
    let entries = Vec::new();
    let (rotated, infos) =
        rotate_boards_for_pattern(&boards, &pattern, &entries, RotationBasis::Standard, false);
    assert_eq!(rotated.len(), 1);
    assert_eq!(infos.len(), 1);
    assert!(rotated.is_empty() == false);
    let all_empty = empty_board(2);
    let boards2 = vec![all_empty];
    let (rotated2, _) =
        rotate_boards_for_pattern(&boards2, &pattern, &entries, RotationBasis::Standard, false);
    assert!(rotated2.is_empty());
}

#[test]
fn empty_boards_are_absent_from_every_output() {
    let deal = "N:AKQJ.T98.765.432 T98.765.432.AKQJ 765.432.AKQJ.T98 432.AKQJ.T98.765";
    let content = format!(
        "[Event \"E\"]\n[Board \"1\"]\n[Dealer \"N\"]\n[Deal \"{d}\"]\n[Event \"E\"]\n[Board \"2\"]\n[Dealer \"N\"]\n[Deal \"\"]\n",
        d = deal
    );
    let boards = vec![
        sample_board(1, Direction::North, Vulnerability::Neither),
        empty_board(2),
    ];
    for pat in ["N", "S,EW"] {
        let outputs =
            rotate_deals(&content, &boards, pat, RotationBasis::Standard, false, false).unwrap();
        for (_, text) in &outputs {
            assert!(text.contains("[Board \"1\"]"));
            assert!(!text.contains("[Board \"2\"]"));
        }
    }
}

#[test]
fn rotate_deals_error_cases() {
    let boards = vec![sample_board(1, Direction::North, Vulnerability::Neither)];
    let content = "[Board \"1\"]\n";
    let r = rotate_deals(content, &boards, "N,S", RotationBasis::Standard, false, true);
    assert_eq!(r.unwrap_err(), RotateError::MultiplePatternsWithOutput);
    let r = rotate_deals(content, &boards, "NX", RotationBasis::Standard, false, false);
    assert_eq!(r.unwrap_err(), RotateError::InvalidPatternChar('X'));
    let r = rotate_deals(content, &boards, "", RotationBasis::Standard, false, false);
    assert_eq!(r.unwrap_err(), RotateError::EmptyPattern);
    let none = vec![empty_board(1)];
    let r = rotate_deals(content, &none, "N", RotationBasis::Standard, false, false);
    assert_eq!(r.unwrap_err(), RotateError::NoValidBoards);
    assert_eq!(
        RotateError::EmptyPattern.message(),
        "Pattern cannot be empty"
    );
}

#[test]
fn commentary_inside_rotated_board_is_rewritten() {
    let deal = "N:AKQJ.T98.765.432 T98.765.432.AKQJ 765.432.AKQJ.T98 432.AKQJ.T98.765";
    let content = format!(
        "[Event \"E\"]\n[Board \"1\"]\n[Dealer \"N\"]\n[Deal \"{d}\"]\n{{North leads the ace.}}\n",
        d = deal
    );
    let boards = vec![sample_board(1, Direction::North, Vulnerability::Neither)];
    let outputs =
        rotate_deals(&content, &boards, "S", RotationBasis::Standard, false, false).unwrap();
    assert!(outputs[0].1.contains("{South leads the ace.}"));
}
