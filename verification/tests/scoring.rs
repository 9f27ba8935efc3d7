use bridge_wrangler::analyze::{
    add_dd_tags_to_pbn, calculate_score, parse_board_range, DdResults, RangeError,
};

#[test]
fn analyze_test_parse_board_range() {
    assert_eq!(parse_board_range("1-4").unwrap(), vec![1, 2, 3, 4]);
    assert_eq!(parse_board_range("1,3,5").unwrap(), vec![1, 3, 5]);
    assert_eq!(parse_board_range("1-3,7").unwrap(), vec![1, 2, 3, 7]);
    assert_eq!(parse_board_range("1").unwrap(), vec![1]);
}

#[test]
fn to_pdf_test_parse_board_range() {
    assert_eq!(parse_board_range("1-4").unwrap(), vec![1, 2, 3, 4]);
    assert_eq!(parse_board_range("1,3,5").unwrap(), vec![1, 3, 5]);
    assert_eq!(parse_board_range("1-3,7").unwrap(), vec![1, 2, 3, 7]);
    assert_eq!(parse_board_range("1").unwrap(), vec![1]);
}

#[test]
fn test_calculate_score() {
    // 3NT making exactly, not vul
    assert_eq!(calculate_score(3, 0, 9, false, false), 400); // 100 + 300 game

    // 4S making exactly, vul
    assert_eq!(calculate_score(4, 1, 10, true, false), 620); // 120 + 500 game

    // 3NT with 2 overtricks, not vul
    assert_eq!(calculate_score(3, 0, 11, false, false), 460); // 100 + 300 + 60
}

#[test]
fn parse_board_range_errors() {
    assert!(matches!(
        parse_board_range("1-2-3"),
        Err(RangeError::InvalidRange(t)) if t == "1-2-3"
    ));
    assert!(matches!(
        parse_board_range("1-x"),
        Err(RangeError::InvalidNumberInRange(t)) if t == "x"
    ));
    assert!(matches!(
        parse_board_range("abc"),
        Err(RangeError::InvalidBoardNumber(t)) if t == "abc"
    ));
}

#[test]
fn best_contract_and_par_score() {
    let mut tricks = [[0u8; 5]; 4];
    tricks[0][0] = 9; // North takes nine tricks in notrump
    let dd = DdResults { tricks };
    let (contract, score) = dd.best_contract_for_side(true, false, false);
    assert_eq!(contract, "3NT by N");
    assert_eq!(score, 400);
    let (ew_contract, ew_score) = dd.best_contract_for_side(false, false, false);
    assert_eq!(ew_contract, "Pass");
    assert_eq!(ew_score, 0);
    let (par_contract, par) = dd.par_score(false, false);
    assert_eq!(par_contract, "3NT by N");
    assert_eq!(par, 400);
}

#[test]
fn trick_tables_render_exactly() {
    let mut tricks = [[0u8; 5]; 4];
    tricks[0] = [7, 8, 6, 7, 9];
    tricks[1] = [7, 8, 6, 7, 9];
    tricks[2] = [6, 5, 7, 6, 4];
    tricks[3] = [6, 5, 7, 6, 4];
    let dd = DdResults { tricks };
    assert_eq!(
        dd.to_optimum_result_table(),
        "NT\tS\tH\tD\tC\\nN\t7\t8\t6\t7\t9\\nS\t7\t8\t6\t7\t9\\nE\t6\t5\t7\t6\t4\\nW\t6\t5\t7\t6\t4"
    );
    let mut ten = [[0u8; 5]; 4];
    ten[0] = [10, 9, 8, 7, 6];
    let dd10 = DdResults { tricks: ten };
    let table = dd10.to_display_table();
    assert!(table.starts_with("       NT   S   H   D   C\n"));
    assert!(table.contains("  N    10   9   8   7   6\n"));
    assert!(table.contains("  S     0   0   0   0   0\n"));
}

#[test]
fn dd_tags_are_inserted_before_the_deal() {
    let mut tricks = [[0u8; 5]; 4];
    tricks[0][0] = 7;
    let dd = DdResults { tricks };
    let results = vec![(1u32, dd)];
    let content = "[Board \"1\"]\n[Deal \"N:...\"]\n[Board \"2\"]\n[Deal \"N:...\"]\n";
    let out = add_dd_tags_to_pbn(content, &results);
    let expected_tag = format!(
        "[OptimumResultTable \"{}\"]",
        results[0].1.to_optimum_result_table()
    );
    let lines: Vec<&str> = out.lines().collect();
    assert_eq!(lines[0], "[Board \"1\"]");
    assert_eq!(lines[1], expected_tag.as_str());
    assert_eq!(lines[2], "[Deal \"N:...\"]");
    // board 2 has no results and gains no tag
    assert_eq!(lines[3], "[Board \"2\"]");
    assert_eq!(lines[4], "[Deal \"N:...\"]");
    assert_eq!(lines.len(), 5);
}

#[test]
fn existing_dd_tags_are_replaced() {
    let mut tricks = [[0u8; 5]; 4];
    tricks[1][2] = 8;
    let dd = DdResults { tricks };
    let results = vec![(3u32, dd)];
    let content = "[Board \"3\"]\n[OptimumResultTable \"stale\"]\n[Deal \"N:...\"]\n";
    let out = add_dd_tags_to_pbn(content, &results);
    assert!(!out.contains("stale"));
    assert!(out.contains(&results[0].1.to_optimum_result_table()));
}
