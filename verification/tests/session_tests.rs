use russee::app::{App, Mode};
use russee::session::{
    case_mode, content_status, end_frame, file_status, match_range, route_query, CaseMode,
    Debouncer, QueryRoute, DEBOUNCE_MS,
};

#[test]
fn status_texts() {
    assert_eq!(file_status(3, 120), "3/120");
    assert_eq!(content_status(None, 7, false), "7 matches");
    assert_eq!(
        content_status(None, 50000, true),
        "50000+ (capped \u{2014} refine query)"
    );
    assert_eq!(
        content_status(Some("unclosed group"), 0, false),
        "regex error: unclosed group"
    );
}

#[test]
fn debounce_waits_for_quiet() {
    let mut d = Debouncer::new();
    assert_eq!(d.take_due(1000), None);
    d.request("fo".to_string(), false, 1000);
    assert_eq!(d.take_due(1000 + DEBOUNCE_MS - 1), None);
    d.request("foo".to_string(), true, 1050);
    assert_eq!(d.take_due(1050 + DEBOUNCE_MS - 1), None);
    assert_eq!(d.take_due(1050 + DEBOUNCE_MS), Some(("foo".to_string(), true)));
    assert_eq!(d.take_due(5000), None);
    d.request("bar".to_string(), false, 10);
    d.clear();
    assert_eq!(d.take_due(5000), None);
}

#[test]
fn file_case_modes() {
    assert_eq!(case_mode(None), CaseMode::Smart);
    assert_eq!(case_mode(Some(true)), CaseMode::Respect);
    assert_eq!(case_mode(Some(false)), CaseMode::Ignore);
}

#[test]
fn match_range_clips() {
    assert_eq!(match_range(0, 50000, 3), Some((0, 3)));
    assert_eq!(match_range(2, 10, 100), Some((2, 12)));
    assert_eq!(match_range(5, 10, 5), None);
    assert_eq!(match_range(0, 0, 5), None);
    assert_eq!(match_range(1, usize::MAX, 4), Some((1, 4)));
}

#[test]
fn file_mode_sends_an_edited_query_at_once() {
    let mut app = App::new();
    app.query = "par".to_string();
    app.query_dirty = true;
    app.case_sensitive = Some(true);
    let mut debounce = Debouncer::new();
    debounce.request("old".to_string(), false, 0);
    match route_query(&mut app, &mut debounce, 5) {
        QueryRoute::FileQuery(q, case) => {
            assert_eq!(q, "par");
            assert_eq!(case, Some(true));
        }
        _ => panic!("expected a file query"),
    }
    assert!(!app.query_dirty);
    assert!(debounce.take_due(u64::MAX).is_none());
    assert!(matches!(route_query(&mut app, &mut debounce, 6), QueryRoute::Idle));
}

#[test]
fn content_mode_waits_out_the_debounce() {
    let mut app = App::new();
    app.mode = Mode::Content;
    app.query = "fn ".to_string();
    app.regex = true;
    app.query_dirty = true;
    let mut debounce = Debouncer::new();
    assert!(matches!(route_query(&mut app, &mut debounce, 1000), QueryRoute::Idle));
    assert!(!app.query_dirty);
    assert!(matches!(
        route_query(&mut app, &mut debounce, 1000 + DEBOUNCE_MS - 1),
        QueryRoute::Idle
    ));
    match route_query(&mut app, &mut debounce, 1000 + DEBOUNCE_MS) {
        QueryRoute::ContentQuery(q, regex, case) => {
            assert_eq!(q, "fn ");
            assert!(regex);
            assert_eq!(case, None);
        }
        _ => panic!("expected a content query"),
    }
    assert!(matches!(
        route_query(&mut app, &mut debounce, 5000),
        QueryRoute::Idle
    ));
}

#[test]
fn frame_end_reports_open_and_quit() {
    let mut app = App::new();
    assert!(matches!(end_frame(&mut app), (None, None)));
    app.pending_open = Some(("src/a.rs".to_string(), Some(3)));
    let (open, exit) = end_frame(&mut app);
    assert_eq!(open, Some(("src/a.rs".to_string(), Some(3))));
    assert!(exit.is_none());
    assert!(app.pending_open.is_none());
    app.should_quit = true;
    app.accept = Some("src/a.rs:3".to_string());
    let (open, exit) = end_frame(&mut app);
    assert!(open.is_none());
    assert_eq!(exit, Some(Some("src/a.rs:3".to_string())));
    assert!(app.accept.is_none());
}
