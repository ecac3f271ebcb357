use russee::engine::content::{
    build_matcher, line_text, search_should_stop, ContentEngine, FileScan, LineOutcome, RecordOutcome, SearchStart,
    BATCH, CONTENT_RESULT_CAP,
};
use russee::engine::{build_filters, Filters};
use russee::types::Item;

#[test]
fn extended_matcher_uses_atoms() {
    let m = build_matcher("checked !mut", false, None).unwrap();
    assert!(m.matches("a.checked_add(b)"));
    assert!(!m.matches("let mut x = checked(y)"));
}

#[test]
fn regex_matcher_matches_pattern() {
    let m = build_matcher("checked_(add|sub)", true, None).unwrap();
    assert!(m.matches("a.checked_add(b)"));
    assert!(m.matches("a.checked_sub(b)"));
    assert!(!m.matches("a.checked_mul(b)"));
}

#[test]
fn regex_smart_case() {
    assert!(build_matcher("checked", true, None)
        .unwrap()
        .matches("CHECKED"));
    assert!(!build_matcher("Checked", true, None)
        .unwrap()
        .matches("checked"));
}

#[test]
fn invalid_regex_is_an_error() {
    let err = build_matcher("a(b", true, None).unwrap_err();
    assert!(!err.is_empty());
}

#[test]
fn invalid_regex_sets_error_and_no_results() {
    let mut engine = ContentEngine::new("/tmp".to_string(), Filters::default());
    let start = engine.set_query("a(b", true, None);
    assert!(matches!(start, SearchStart::Idle));
    assert!(engine.results().is_empty());
    assert!(engine.error().is_some());
    assert!(!engine.poll(Vec::new(), 0, true));
}

#[test]
fn blank_query_starts_nothing() {
    let mut engine = ContentEngine::new(".".to_string(), Filters::default());
    assert!(matches!(
        engine.set_query("   ", false, None),
        SearchStart::Idle
    ));
    assert!(engine.error().is_none());
    assert!(!engine.poll(Vec::new(), 0, false));
}

#[test]
fn unknown_file_type_is_reported() {
    let filters = Filters { types: vec!["rust".to_string(), "no-such-type".to_string()], globs: vec![] };
    let mut engine = ContentEngine::new(".".to_string(), filters);
    let start = engine.set_query("foo", false, None);
    assert!(matches!(start, SearchStart::Idle));
    assert_eq!(engine.error(), Some("unrecognized file type: no-such-type"));
    assert!(!engine.poll(Vec::new(), 0, true));
}

#[test]
fn invalid_glob_is_reported() {
    let filters = Filters { types: vec![], globs: vec!["src/[abc".to_string()] };
    let mut engine = ContentEngine::new(".".to_string(), filters);
    let start = engine.set_query("foo", false, None);
    assert!(matches!(start, SearchStart::Idle));
    let err = engine.error().unwrap();
    assert!(err.starts_with("error parsing glob 'src/[abc'"), "got {err}");
}

#[test]
fn known_types_and_globs_build() {
    let filters = Filters {
        types: vec!["rust".to_string(), "all".to_string()],
        globs: vec!["!*.lock".to_string(), "src/**".to_string(), "# a comment".to_string()],
    };
    assert!(build_filters(".", &filters).is_ok());
    let mut engine = ContentEngine::new(".".to_string(), filters);
    assert!(matches!(engine.set_query("foo", false, None), SearchStart::Run(1, _, _, _)));
    assert!(engine.error().is_none());
}

#[test]
fn regex_error_comes_before_filter_error() {
    let filters = Filters { types: vec!["no-such-type".to_string()], globs: vec![] };
    let mut engine = ContentEngine::new(".".to_string(), filters);
    let _ = engine.set_query("a(b", true, None);
    assert!(engine.error().unwrap().starts_with("regex parse error"));
}

#[test]
fn poll_collects_batches_until_finished() {
    let mut engine = ContentEngine::new(".".to_string(), Filters::default());
    let start = engine.set_query("foo", false, None);
    let generation = match start {
        SearchStart::Run(g, _, _, _) => g,
        SearchStart::Idle => panic!("search should start"),
    };
    assert_eq!(generation, 1);
    let item = |n: usize| Item::Content {
        path: "a.rs".to_string(),
        line: n,
        text: "foo".to_string(),
    };
    assert!(engine.poll(vec![vec![item(1), item(2)], vec![item(7)]], 3, false));
    assert_eq!(engine.results().len(), 3);
    assert!(!engine.capped());
    assert!(!engine.poll(vec![vec![item(9)]], CONTENT_RESULT_CAP, true));
    assert_eq!(engine.results().len(), 4);
    assert_eq!(engine.results()[3], item(9));
    assert!(engine.capped());
    // A new query starts over.
    let _ = engine.set_query("bar", false, None);
    assert!(engine.results().is_empty());
    assert!(!engine.capped());
}

#[test]
fn line_text_strips_terminators() {
    assert_eq!(line_text(b"let x = 1;\r\n"), "let x = 1;");
    assert_eq!(line_text(b"tail"), "tail");
    assert_eq!(line_text(b"\n\r\n"), "");
    assert_eq!(line_text(b"bad \xff byte\n"), "bad \u{fffd} byte");
}

#[test]
fn file_scan_numbers_lines_and_batches_matches() {
    let m = build_matcher("checked_add", false, None).unwrap();
    let mut scan = FileScan::new("src/a.rs".to_string());
    assert_eq!(scan.read_line(b"fn one() {}\n", &m), LineOutcome::NoMatch);
    let text = match scan.read_line(b"let x = checked_add(b);\n", &m) {
        LineOutcome::Match(t) => t,
        other => panic!("expected a match, got {other:?}"),
    };
    assert_eq!(text, "let x = checked_add(b);");
    assert_eq!(scan.line_number(), 2);
    assert!(matches!(scan.record_match(text, 0), RecordOutcome::Kept));
    let batches = scan.finish();
    assert_eq!(batches.len(), 1);
    assert_eq!(batches[0].len(), 1);
    assert_eq!(batches[0][0].list_label(), "src/a.rs:2: let x = checked_add(b);");
}

#[test]
fn file_scan_detects_binary() {
    let m = build_matcher("checked_add", false, None).unwrap();
    let mut scan = FileScan::new("bin.dat".to_string());
    assert_eq!(scan.read_line(b"checked_add\0\0binary", &m), LineOutcome::Binary);
}

#[test]
fn file_scan_stops_at_cap_and_hands_out_full_batches_at_the_end() {
    let m = build_matcher("x", false, None).unwrap();
    let mut scan = FileScan::new("a".to_string());
    assert_eq!(scan.read_line(b"x\n", &m), LineOutcome::Match("x".to_string()));
    assert!(matches!(
        scan.record_match("x".to_string(), CONTENT_RESULT_CAP),
        RecordOutcome::CapReached
    ));
    for i in 0..BATCH + 1 {
        assert_eq!(scan.read_line(b"x\n", &m), LineOutcome::Match("x".to_string()));
        assert!(matches!(
            scan.record_match("x".to_string(), i),
            RecordOutcome::Kept
        ));
    }
    let batches = scan.finish();
    assert_eq!(batches.len(), 2);
    assert_eq!(batches[0].len(), BATCH);
    assert_eq!(batches[1].len(), 1);
    assert_eq!(batches[1][0].list_label(), format!("a:{}: x", BATCH + 2));
}

#[test]
fn binary_line_after_many_matches_drops_the_whole_file() {
    let m = build_matcher("x", false, None).unwrap();
    let mut scan = FileScan::new("late.bin".to_string());
    for i in 0..BATCH + 10 {
        assert_eq!(scan.read_line(b"x\n", &m), LineOutcome::Match("x".to_string()));
        assert!(matches!(
            scan.record_match("x".to_string(), i),
            RecordOutcome::Kept
        ));
    }
    assert_eq!(scan.read_line(b"x\0\n", &m), LineOutcome::Binary);
    assert_eq!(scan.read_line(b"x\n", &m), LineOutcome::Binary);
    assert!(matches!(
        scan.record_match("x".to_string(), 0),
        RecordOutcome::Skipped
    ));
    assert!(scan.finish().is_empty());
}

#[test]
fn search_stops_when_superseded_or_capped() {
    assert!(!search_should_stop(3, 3, 0));
    assert!(search_should_stop(4, 3, 0));
    assert!(search_should_stop(3, 3, CONTENT_RESULT_CAP));
    assert!(!search_should_stop(3, 3, CONTENT_RESULT_CAP - 1));
}
