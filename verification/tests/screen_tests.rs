use russee::app::{App, Mode};
use russee::screen::{
    case_label, help_line, inner_height, input_parts, list_rows, mode_label, preview_rows,
    results_title, search_title, show_preview_pane, status_is_error, status_line,
};
use russee::types::Item;

#[test]
fn titles_show_mode_and_regex() {
    assert_eq!(mode_label(Mode::File, true), "Files");
    assert_eq!(mode_label(Mode::Content, false), "Content");
    assert_eq!(search_title(Mode::Content, true), "Search \u{b7} Content [regex]");
    assert_eq!(results_title(2), "Results (2)");
    assert_eq!(results_title(0), "Results (0)");
}

#[test]
fn status_line_names_case_setting() {
    assert_eq!(status_line("2/2", None), "2/2  \u{b7}  smart-case");
    assert_eq!(case_label(Some(true)), "case-sensitive");
    assert_eq!(case_label(Some(false)), "ignore-case");
    assert!(status_is_error("regex error: x"));
    assert!(!status_is_error("12 matches"));
    assert!(help_line().contains("Esc quit"));
}

#[test]
fn preview_pane_needs_width() {
    assert!(show_preview_pane(true, 100));
    assert!(show_preview_pane(true, 80));
    assert!(!show_preview_pane(true, 79));
    assert!(!show_preview_pane(false, 200));
    assert_eq!(inner_height(10), 8);
    assert_eq!(inner_height(1), 0);
}

#[test]
fn list_rows_window_and_selection() {
    let mut app = App::new();
    app.results = (0..10)
        .map(|i| Item::File {
            path: format!("f{i}"),
        })
        .collect();
    app.scroll = 7;
    app.selected = 8;
    let rows = list_rows(&app, 5);
    assert_eq!(
        rows,
        vec![
            ("f7".to_string(), false),
            ("f8".to_string(), true),
            ("f9".to_string(), false)
        ]
    );
    app.scroll = 10;
    assert!(list_rows(&app, 5).is_empty());
}

#[test]
fn input_line_splits_at_cursor() {
    assert_eq!(
        input_parts("par", 3),
        ("par".to_string(), " ".to_string(), String::new())
    );
    assert_eq!(
        input_parts("abc", 1),
        ("a".to_string(), "b".to_string(), "c".to_string())
    );
    assert_eq!(
        input_parts("áé", 0),
        (String::new(), "á".to_string(), "é".to_string())
    );
    assert_eq!(
        input_parts("ab", 9),
        ("ab".to_string(), " ".to_string(), String::new())
    );
}

#[test]
fn preview_rows_mark_the_match() {
    assert_eq!(
        preview_rows(5, Some(3), 2, 2),
        vec![(2, false), (3, true)]
    );
    assert_eq!(preview_rows(3, None, 0, 10), vec![(0, false), (1, false), (2, false)]);
    assert!(preview_rows(3, Some(0), 3, 10).is_empty());
}
