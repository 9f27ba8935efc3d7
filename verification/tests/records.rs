use bridge_wrangler::driver::make_output_path;
use bridge_wrangler::event::update_event_tags;
use bridge_wrangler::filter::filter_sections;
use bridge_wrangler::pbn::{build_output, split_pbn_content};
use bridge_wrangler::replicate::generate_replicated_pbn;
use bridge_wrangler::tags::{extract_tag_value, renumber_boards};
use regex::{Regex, RegexBuilder};

#[test]
fn test_regex_matching() {
    let re = RegexBuilder::new(r#"\[Contract "3NT"\]"#)
        .case_insensitive(true)
        .build()
        .unwrap();
    let board = r#"[Board "1"]
[Contract "3NT"]
[Deal "N:..."]
"#;
    assert!(re.is_match(board));
}

#[test]
fn test_case_insensitive_matching() {
    let re = RegexBuilder::new("3nt").case_insensitive(true).build().unwrap();
    let board = r#"[Contract "3NT"]"#;
    assert!(re.is_match(board));
}

#[test]
fn test_renumber_boards() {
    let boards = vec![
        r#"[Board "5"]
[Deal "N:..."]
"#
        .to_string(),
        r#"[Board "8"]
[Deal "N:..."]
"#
        .to_string(),
    ];
    let renumbered = renumber_boards(&boards);
    assert!(renumbered[0].contains("[Board \"1\"]"));
    assert!(renumbered[1].contains("[Board \"2\"]"));
}

#[test]
fn test_split_pbn_content() {
    let content = r#"% PBN 2.1
%Creator: Test
[Event "Test"]
[Board "1"]
[Deal "N:..."]

[Event "Test"]
[Board "2"]
[Deal "N:..."]
"#;
    let (header, boards) = split_pbn_content(content);
    assert!(header.contains("% PBN 2.1"));
    assert_eq!(boards.len(), 2);
}

#[test]
fn test_event_regex() {
    let re = Regex::new(r#"\[Event\s+"[^"]*"\]"#).unwrap();
    let content = r#"[Event "Old Event"]
[Board "1"]
[Event "Another"]"#;
    let new_tag = "[Event \"New Event\"]";
    let result = re.replace_all(content, new_tag);
    assert!(result.contains("[Event \"New Event\"]"));
    assert!(!result.contains("Old Event"));
    assert!(!result.contains("Another"));
}

#[test]
fn update_event_tags_rewrites_and_counts() {
    let content = "[Event \"Old Event\"]\n[Board \"1\"]\n[Event \"Another\"]";
    let (updated, count) = update_event_tags(content, "New Event");
    assert_eq!(count, 2);
    assert_eq!(
        updated,
        "[Event \"New Event\"]\n[Board \"1\"]\n[Event \"New Event\"]"
    );
}

#[test]
fn filter_sections_partitions_by_pattern() {
    let sections = vec![
        "[Board \"1\"]\n[Contract \"3NT\"]\n".to_string(),
        "[Board \"2\"]\n[Contract \"4S\"]\n".to_string(),
        "[Board \"3\"]\n[Contract \"3nt\"]\n".to_string(),
    ];
    let (matched, not_matched) = filter_sections("3nt", false, &sections).unwrap();
    assert_eq!(matched.len(), 2);
    assert_eq!(not_matched.len(), 1);
    assert!(matched[0].contains("[Board \"1\"]"));
    assert!(matched[1].contains("[Board \"3\"]"));
    assert!(not_matched[0].contains("[Board \"2\"]"));

    let (matched, not_matched) = filter_sections("3nt", true, &sections).unwrap();
    assert_eq!(matched.len(), 1);
    assert_eq!(not_matched.len(), 2);

    assert!(filter_sections("(unclosed", false, &sections).is_err());
}

#[test]
fn build_output_appends_missing_newlines() {
    let sections = vec!["[Board \"1\"]\n".to_string(), "[Board \"2\"]".to_string()];
    let out = build_output("% header\n", &sections);
    assert_eq!(out, "% header\n[Board \"1\"]\n[Board \"2\"]\n");
}

#[test]
fn extract_tag_value_takes_first_nonempty_match() {
    let section = "[Event \"\"]\n[Deal \"N:AKQ.J.T.9\"]\n[Deal \"second\"]\n";
    assert_eq!(extract_tag_value(section, "Deal"), "N:AKQ.J.T.9");
    assert_eq!(extract_tag_value(section, "Missing"), "");
    assert_eq!(extract_tag_value(section, "Event"), "");
}

#[test]
fn make_output_path_appends_pattern() {
    assert_eq!(make_output_path("deals.pbn", "ns"), "deals - NS.pbn");
    assert_eq!(make_output_path("dir/deals.pbn", "nesw"), "dir/deals - NESW.pbn");
    assert_eq!(make_output_path("noext", "s"), "noext - S.pbn");
}

#[test]
fn replicate_copies_first_block_and_generates_the_rest() {
    let section = "[Event \"E\"]\n[Board \"1\"]\n[Deal \"N:A.K.Q.J B C D\"]\n";
    let sections = vec![section.to_string()];
    let deals = vec!["N:A.K.Q.J B C D".to_string()];
    let bcflags = vec!["1".to_string()];
    let out = generate_replicated_pbn("% h\n", &sections, &deals, &bcflags, 1, 2);
    let mut expected = String::new();
    expected.push_str("% h\n");
    expected.push_str("[Event \"E\"]\n[Board \"1\"]\n[Deal \"N:A.K.Q.J B C D\"]\n");
    expected.push_str("[Event \"\"]\n[Site \"\"]\n[Date \"\"]\n");
    expected.push_str("[Board \"2\"]\n");
    expected.push_str("[West \"\"]\n[North \"\"]\n[East \"\"]\n[South \"\"]\n");
    expected.push_str("[Dealer \"E\"]\n");
    expected.push_str("[Vulnerable \"NS\"]\n");
    expected.push_str("[Deal \"N:A.K.Q.J B C D\"]\n");
    expected.push_str("[Scoring \"\"]\n[Declarer \"\"]\n[Contract \"\"]\n[Result \"\"]\n");
    expected.push_str("[BCFlags \"1\"]\n");
    expected.push_str("[VirtualBoard \"1\"]\n");
    expected.push_str("[VirtualDealer \"N\"]\n");
    expected.push_str("[VirtualVulnerable \"None\"]\n");
    expected.push_str("[BlockNumber \"2\"]\n");
    expected.push_str("\n");
    assert_eq!(out, expected);
}
