//! The library's laws on concrete values.
use russee::app::App;
use russee::args::parse;
use russee::editor::{build_editor_argv, ResolvedEditor};
use russee::input::Action;
use russee::query::{line_matches, parse_content};
use russee::types::{sanitize_line, Item};

#[test]
fn insert_then_backspace_restores_query() {
    for (q, cursor) in [("", 0), ("abc", 0), ("abc", 2), ("áé", 1), ("xy", 2)] {
        let mut a = App::new();
        a.query = q.to_string();
        a.cursor = cursor;
        a.apply(Action::Insert('Z'));
        a.apply(Action::Backspace);
        assert_eq!(a.query, q);
        assert_eq!(a.cursor, cursor);
    }
}

#[test]
fn every_action_keeps_cursor_in_query() {
    let actions = [
        Action::Insert('q'),
        Action::Backspace,
        Action::Delete,
        Action::DeleteWord,
        Action::ClearLine,
        Action::MoveLeft,
        Action::MoveRight,
        Action::MoveHome,
        Action::MoveEnd,
    ];
    let mut a = App::new();
    a.query = "foo bar baz".to_string();
    a.cursor = 6;
    for (i, act) in actions.iter().cycle().take(60).enumerate() {
        if i % 7 == 0 {
            a.apply(Action::Insert(' '));
        }
        a.apply(*act);
        assert!(a.cursor <= a.query.chars().count());
    }
}

#[test]
fn navigation_keeps_selection_visible() {
    let mut a = App::new();
    a.results = (0..37)
        .map(|i| Item::File {
            path: format!("f{i}"),
        })
        .collect();
    a.set_viewport(6);
    let moves = [
        Action::PageDown,
        Action::SelectNext,
        Action::PageDown,
        Action::PageDown,
        Action::SelectPrev,
        Action::PageUp,
        Action::PageDown,
        Action::PageDown,
        Action::PageDown,
        Action::PageDown,
        Action::PageDown,
        Action::SelectNext,
    ];
    for m in moves {
        a.apply(m);
        assert!(a.selected < a.results.len());
        assert!(a.scroll <= a.selected && a.selected < a.scroll + a.viewport);
        assert!(!a.query_dirty);
    }
    assert_eq!(a.selected, 36);
}

#[test]
fn sanitized_text_is_clean_and_plain_text_unchanged() {
    for s in ["a\tb\u{1b}[0m\r", "\t\t", "tab\tin\tthe\tmiddle", "\u{9f}\u{85}x"] {
        let out = sanitize_line(s);
        assert!(!out.chars().any(|c| c == '\t' || c.is_control()), "{out:?}");
    }
    assert_eq!(sanitize_line("plain text → ok"), "plain text → ok");
}

#[test]
fn negation_complements() {
    for line in ["let mut x", "let x", "MUT"] {
        let plain = line_matches(&parse_content("mut", None), line);
        let negated = line_matches(&parse_content("!mut", None), line);
        assert_eq!(plain, !negated, "{line}");
    }
}

#[test]
fn literal_marker_is_plain() {
    for line in ["a.checked_add(b)", "nothing"] {
        assert_eq!(
            line_matches(&parse_content("'checked", None), line),
            line_matches(&parse_content("checked", None), line)
        );
    }
}

#[test]
fn template_keeps_argument_count() {
    let r = ResolvedEditor::Template("ed --goto {file}:{line}".into());
    for file in ["a.rs", "dir with spaces/b c.rs", ""] {
        assert_eq!(build_editor_argv(&r, file, Some(3)).len(), 3);
    }
}

#[test]
fn unknown_flags_are_ignored() {
    let a = parse(vec!["--frobnicate".into(), "src".into(), "-x".into()]);
    assert_eq!(a.root, "src");
    assert!(a.filters.types.is_empty());
}

#[test]
fn case_toggle_has_period_three() {
    let mut a = App::new();
    for _ in 0..3 {
        a.apply(Action::ToggleCase);
    }
    assert_eq!(a.case_sensitive, None);
}

fn invariant_holds(app: &App) -> bool {
    let in_query = app.cursor <= app.query.chars().count();
    let on_result = if app.results.is_empty() {
        app.selected == 0
    } else {
        app.selected < app.results.len()
    };
    let visible = if app.viewport == 0 {
        app.scroll == 0
    } else {
        app.scroll <= app.selected && app.selected < app.scroll + app.viewport
    };
    in_query && on_result && visible
}

#[test]
fn every_step_keeps_the_state_invariant() {
    let mut app = App::new();
    assert!(invariant_holds(&app));
    let files: Vec<Item> = (0..7)
        .map(|i| Item::File { path: format!("f{i}.rs") })
        .collect();
    app.on_results_changed(files.clone());
    assert!(invariant_holds(&app));
    app.set_viewport(3);
    assert!(invariant_holds(&app));
    let actions = [
        Action::Insert('a'),
        Action::PageDown,
        Action::SelectNext,
        Action::PageDown,
        Action::PageDown,
        Action::MoveLeft,
        Action::DeleteWord,
        Action::SelectPrev,
        Action::PageUp,
        Action::SwitchMode,
        Action::SelectNext,
        Action::Backspace,
        Action::ClearLine,
        Action::ToggleCase,
    ];
    for (k, action) in actions.iter().enumerate() {
        app.apply(*action);
        assert!(invariant_holds(&app), "after action {k}");
        if k % 3 == 0 {
            app.on_results_changed(files[..(k % 7)].to_vec());
            assert!(invariant_holds(&app));
        }
        if k % 4 == 0 {
            app.set_viewport(k % 5);
            assert!(invariant_holds(&app));
        }
    }
}
