use russee::app::{App, Mode};
use russee::input::Action;
use russee::types::Item;

fn app_with_results() -> App {
    let mut a = App::new();
    a.results = vec![
        Item::File {
            path: "a.rs".to_string(),
        },
        Item::File {
            path: "b.rs".to_string(),
        },
    ];
    a.set_viewport(10);
    a
}

#[test]
fn insert_marks_dirty_and_resets_selection() {
    let mut a = app_with_results();
    a.selected = 1;
    a.apply(Action::Insert('x'));
    assert_eq!(a.query, "x");
    assert!(a.query_dirty);
    assert_eq!(a.selected, 0);
}

#[test]
fn accept_prints_selected() {
    let mut a = app_with_results();
    a.selected = 1;
    a.apply(Action::Accept);
    assert_eq!(a.accept.as_deref(), Some("b.rs"));
    assert!(a.should_quit);
}

#[test]
fn accept_with_no_results_does_nothing() {
    let mut a = App::new();
    a.apply(Action::Accept);
    assert!(a.accept.is_none());
    assert!(!a.should_quit);
}

#[test]
fn open_sets_pending_open() {
    let mut a = app_with_results();
    a.selected = 0;
    a.apply(Action::OpenInEditor);
    assert_eq!(a.pending_open, Some(("a.rs".to_string(), None)));
    assert!(!a.should_quit, "opening must not quit the app");
}

#[test]
fn toggle_case_cycles() {
    let mut a = App::new();
    assert_eq!(a.case_sensitive, None);
    a.apply(Action::ToggleCase);
    assert_eq!(a.case_sensitive, Some(true));
    a.apply(Action::ToggleCase);
    assert_eq!(a.case_sensitive, Some(false));
    a.apply(Action::ToggleCase);
    assert_eq!(a.case_sensitive, None);
}

#[test]
fn nav_does_not_mark_dirty() {
    let mut a = app_with_results();
    a.apply(Action::SelectNext);
    assert_eq!(a.selected, 1);
    assert!(!a.query_dirty);
}

#[test]
fn switch_mode_toggles_and_marks_dirty() {
    let mut a = App::new();
    assert_eq!(a.mode, Mode::File);
    a.apply(Action::SwitchMode);
    assert_eq!(a.mode, Mode::Content);
    assert!(a.query_dirty);
    a.query_dirty = false;
    a.apply(Action::SwitchMode);
    assert_eq!(a.mode, Mode::File);
    assert!(a.query_dirty);
}

#[test]
fn toggle_regex_flips_and_marks_dirty() {
    let mut a = App::new();
    assert!(!a.regex);
    a.apply(Action::ToggleRegex);
    assert!(a.regex);
    assert!(a.query_dirty);
}

#[test]
fn toggle_preview_flips() {
    let mut a = App::new();
    assert!(a.show_preview);
    a.apply(Action::TogglePreview);
    assert!(!a.show_preview);
}

#[test]
fn preview_scroll_saturates_at_zero() {
    let mut a = App::new();
    a.apply(Action::PreviewUp);
    assert_eq!(a.preview_scroll, 0);
    a.apply(Action::PreviewDown);
    assert_eq!(a.preview_scroll, 1);
}

fn items(n: usize) -> Vec<Item> {
    (0..n)
        .map(|i| Item::File {
            path: format!("f{i}"),
        })
        .collect()
}

fn app_with(n: usize, viewport: usize) -> App {
    let mut a = App::new();
    a.results = items(n);
    a.set_viewport(viewport);
    a
}

#[test]
fn next_clamps_at_bottom_no_wrap() {
    let mut a = app_with(3, 10);
    a.selected = 2;
    a.select_next();
    assert_eq!(a.selected, 2, "must not wrap to 0");
}

#[test]
fn prev_clamps_at_top_no_wrap() {
    let mut a = app_with(3, 10);
    a.selected = 0;
    a.select_prev();
    assert_eq!(a.selected, 0, "must not wrap to last");
}

#[test]
fn scroll_follows_selection_down() {
    let mut a = app_with(100, 5);
    for _ in 0..5 {
        a.select_next();
    }
    assert_eq!(a.selected, 5);
    assert!(a.scroll <= a.selected && a.selected < a.scroll + a.viewport);
}

#[test]
fn scroll_follows_selection_up() {
    let mut a = app_with(100, 5);
    a.selected = 50;
    a.scroll = 46;
    a.select_prev();
    for _ in 0..10 {
        a.select_prev();
    }
    assert!(a.scroll <= a.selected);
}

#[test]
fn page_down_and_up_stay_in_bounds() {
    let mut a = app_with(20, 5);
    a.page_down();
    assert!(a.selected < a.results.len());
    assert!(a.scroll <= a.selected && a.selected < a.scroll + a.viewport);
    a.page_up();
    assert!(a.scroll <= a.selected);
}

#[test]
fn results_change_clamps_selection() {
    let mut a = app_with(100, 5);
    a.selected = 80;
    a.scroll = 76;
    a.on_results_changed(items(10));
    assert!(a.selected < 10);
    assert!(a.scroll <= a.selected && a.selected < a.scroll + a.viewport);
}

#[test]
fn empty_results_reset_to_zero() {
    let mut a = app_with(5, 5);
    a.selected = 3;
    a.on_results_changed(Vec::new());
    assert_eq!(a.selected, 0);
    assert_eq!(a.scroll, 0);
}

#[test]
fn resize_smaller_keeps_selection_visible() {
    let mut a = app_with(100, 20);
    a.selected = 18;
    a.set_viewport(20);
    a.set_viewport(5);
    assert!(a.scroll <= a.selected && a.selected < a.scroll + a.viewport);
}

fn app_edit(query: &str, cursor: usize) -> App {
    let mut a = App::new();
    a.query = query.to_string();
    a.cursor = cursor;
    a
}

#[test]
fn insert_at_cursor_advances() {
    let mut a = app_edit("ac", 1);
    a.insert_char('b');
    assert_eq!(a.query, "abc");
    assert_eq!(a.cursor, 2);
}

#[test]
fn insert_accepts_uppercase_and_symbols() {
    let mut a = App::new();
    for c in "Foo_(x)".chars() {
        a.insert_char(c);
    }
    assert_eq!(a.query, "Foo_(x)");
    assert_eq!(a.cursor, 7);
}

#[test]
fn backspace_removes_char_before_cursor() {
    let mut a = app_edit("abc", 2);
    a.backspace();
    assert_eq!(a.query, "ac");
    assert_eq!(a.cursor, 1);
}

#[test]
fn backspace_at_start_is_noop() {
    let mut a = app_edit("abc", 0);
    a.backspace();
    assert_eq!(a.query, "abc");
    assert_eq!(a.cursor, 0);
}

#[test]
fn delete_removes_char_at_cursor() {
    let mut a = app_edit("abc", 1);
    a.delete();
    assert_eq!(a.query, "ac");
    assert_eq!(a.cursor, 1);
}

#[test]
fn delete_word_removes_trailing_spaces_and_word() {
    let mut a = app_edit("foo bar ", 8);
    a.delete_word();
    assert_eq!(a.query, "foo ");
    assert_eq!(a.cursor, 4);
}

#[test]
fn clear_line_empties_query() {
    let mut a = app_edit("abc", 3);
    a.clear_line();
    assert_eq!(a.query, "");
    assert_eq!(a.cursor, 0);
}

#[test]
fn cursor_moves_clamp_at_ends() {
    let mut a = app_edit("ab", 1);
    a.move_left();
    assert_eq!(a.cursor, 0);
    a.move_left();
    assert_eq!(a.cursor, 0);
    a.move_end();
    assert_eq!(a.cursor, 2);
    a.move_right();
    assert_eq!(a.cursor, 2);
    a.move_home();
    assert_eq!(a.cursor, 0);
}

#[test]
fn editing_is_char_safe_for_multibyte() {
    let mut a = app_edit("áé", 2);
    a.backspace();
    assert_eq!(a.query, "á");
    assert_eq!(a.cursor, 1);
}
